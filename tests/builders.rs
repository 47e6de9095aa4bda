use aliyun_oss::client::OssClient;
use aliyun_oss::common::{Acl, RestoreTier, StorageClass};
use aliyun_oss::object::OssObject;

fn object() -> OssObject {
    OssClient::new("id", "secret").unwrap().bucket("b", "e").object("k")
}

fn header(headers: &[(String, String)], name: &str) -> Option<String> {
    headers.iter().find(|(k, _)| k == name).map(|(_, v)| v.clone())
}

#[test]
fn get_object_conditions() {
    let g = object()
        .get_object()
        .set_range(0, Some(99))
        .set_if_match("abc")
        .set_if_none_match("def")
        .set_if_modified_since(0)
        .set_if_unmodified_since(86400);
    let h = &g.req.headers;
    assert_eq!(header(h, "Range").as_deref(), Some("bytes=0-99"));
    assert_eq!(header(h, "If-Match").as_deref(), Some("abc"));
    assert_eq!(header(h, "If-None-Match").as_deref(), Some("def"));
    assert_eq!(header(h, "If-Modified-Since").as_deref(), Some("Thu,  1 Jan 1970 00:00:00 GMT"));
    assert_eq!(header(h, "If-Unmodified-Since").as_deref(), Some("Fri,  2 Jan 1970 00:00:00 GMT"));
}

#[test]
fn unrepresentable_date_leaves_headers() {
    let h = object().head_object().set_if_modified_since(i64::MAX);
    assert!(h.req.headers.is_empty());
}

#[test]
fn copy_object_headers_and_tags() {
    let c = object()
        .copy_object("/src/key")
        .set_acl(Acl::Private)
        .set_storage_class(StorageClass::IA)
        .set_meta("Author", "me")
        .set_meta("bad key", "x")
        .set_tagging("t", "1")
        .set_metadata_directive();
    let req = c.into_request();
    let h = &req.headers;
    assert_eq!(header(h, "x-oss-copy-source").as_deref(), Some("/src/key"));
    assert_eq!(header(h, "x-oss-object-acl").as_deref(), Some("private"));
    assert_eq!(header(h, "x-oss-storage-class").as_deref(), Some("IA"));
    assert_eq!(header(h, "x-oss-meta-Author").as_deref(), Some("me"));
    assert_eq!(header(h, "x-oss-tagging").as_deref(), Some("t=1"));
    assert_eq!(header(h, "x-oss-metadata-directive").as_deref(), Some("REPLACE"));
    assert!(header(h, "x-oss-meta-bad key").is_none());
}

#[test]
fn copy_part_range() {
    let c = object().multipart_copy_part(2, "u", "/src/key").set_source_range(10, None);
    assert_eq!(header(&c.req.headers, "x-oss-copy-source-range").as_deref(), Some("bytes=10-"));
}

#[test]
fn symlink_request() {
    let p = object().put_symlink("target").forbid_overwrite();
    assert_eq!(p.req.querys, vec![("symlink".to_string(), String::new())]);
    assert_eq!(header(&p.req.headers, "x-oss-symlink-target").as_deref(), Some("target"));
    assert_eq!(header(&p.req.headers, "x-oss-forbid-overwrite").as_deref(), Some("true"));
}

#[test]
fn restore_request_body() {
    let r = object().restore_object(Some(3), Some(RestoreTier::Standard));
    assert_eq!(
        String::from_utf8(r.body.clone()).unwrap(),
        "<RestoreRequest><Days>3</Days><JobParameters><Tier>Standard</Tier></JobParameters></RestoreRequest>"
    );
    assert!(object().restore_object(None, None).body.is_empty());
}

#[test]
fn put_object_write_options() {
    let w = object()
        .put_object()
        .set_mime("text/plain")
        .set_acl(Acl::PublicRead)
        .set_tagging("a", "1")
        .set_tagging("a", "2")
        .forbid_overwrite();
    assert_eq!(w.mime.as_deref(), Some("text/plain"));
    let req = w.into_request("text/plain");
    let h = &req.headers;
    assert_eq!(header(h, "x-oss-object-acl").as_deref(), Some("public-read"));
    assert_eq!(header(h, "x-oss-tagging").as_deref(), Some("a=2"));
    assert_eq!(header(h, "Content-Type").as_deref(), Some("text/plain"));
}

#[test]
fn append_starts_at_zero() {
    let w = object().append_object();
    assert_eq!(
        w.req.querys,
        vec![("append".to_string(), String::new()), ("position".to_string(), "0".to_string())]
    );
    let w = w.set_position(1024);
    assert_eq!(
        w.req.querys,
        vec![("append".to_string(), String::new()), ("position".to_string(), "1024".to_string())]
    );
}

#[test]
fn object_acl_request() {
    let r = object().put_object_acl(Acl::PublicReadWrite);
    assert_eq!(r.querys, vec![("acl".to_string(), String::new())]);
    assert_eq!(header(&r.headers, "x-oss-object-acl").as_deref(), Some("public-read-write"));
}
