use aliyun_oss::bucket::{content_md5, ObjectWithVersion};
use aliyun_oss::client::OssClient;
use aliyun_oss::common::{
    invalid_metadata_key, url_encode, Acl, CacheControl, ContentDisposition, DataRedundancyType,
    RestoreTier, StorageClass,
};
use aliyun_oss::error::{is_success, normal_error, Error, OssError};
use aliyun_oss::object::{
    check_append_size, check_put_size, choose_content_type, content_type_for, range_value, restore_body, tagging, tagging_body, transfer_header, trim_etag,
};
use aliyun_oss::text::decimal_string;

#[test]
fn enum_wire_names() {
    assert_eq!(Acl::PublicReadWrite.to_string(), "public-read-write");
    assert_eq!(Acl::Default.to_string(), "default");
    assert_eq!(StorageClass::DeepColdArchive.to_string(), "DeepColdArchive");
    assert_eq!(DataRedundancyType::ZRS.to_string(), "ZRS");
    assert_eq!(RestoreTier::Bulk.to_string(), "Bulk");
    assert_eq!(CacheControl::MaxAge(3600).to_string(), "max-age=3600");
    assert_eq!(CacheControl::NoStore.to_string(), "no-store");
    assert_eq!(ContentDisposition::Inline.to_string(), "inline");
}

#[test]
fn content_disposition_with_new_name() {
    let v = ContentDisposition::AttachmentWithNewName("a b.txt".to_string()).to_string();
    assert_eq!(v, "attachment;filename=\"a%20b%2Etxt\";filename*=UTF-8''a%20b%2Etxt");
}

#[test]
fn url_encoding_keeps_alnum_dash_slash() {
    assert_eq!(url_encode("a-b/c_d"), "a-b/c%5Fd");
    assert_eq!(url_encode(""), "");
    assert_eq!(url_encode("é"), "%C3%A9");
    assert_eq!(url_encode("a+b=c"), "a%2Bb%3Dc");
}

#[test]
fn metadata_keys() {
    assert!(!invalid_metadata_key("Abc-123"));
    assert!(invalid_metadata_key("a_b"));
    assert!(invalid_metadata_key("a b"));
    assert!(!invalid_metadata_key(""));
}

#[test]
fn decimal_rendering() {
    assert_eq!(decimal_string(0), "0");
    assert_eq!(decimal_string(1700000000), "1700000000");
    assert_eq!(decimal_string(u64::MAX), "18446744073709551615");
}

#[test]
fn object_with_version_entries() {
    assert_eq!(ObjectWithVersion::new("a.txt").to_string(), "<Object><Key>a.txt</Key></Object>");
    assert_eq!(
        ObjectWithVersion::new_with_version("a.txt", "v1").to_string(),
        "<Object><Key>a.txt</Key><VersionId>v1</VersionId></Object>"
    );
}

#[test]
fn delete_request_body_and_md5() {
    let client = OssClient::new("id", "secret").unwrap();
    let bucket = client.bucket("b", "e");
    let d = bucket.del_objects(vec![ObjectWithVersion::new("a.txt"), ObjectWithVersion::new("a.txt")]);
    assert_eq!(d.objects.len(), 1);
    let req = d.into_request();
    let body = "<?xml version=\"1.0\" encoding=\"UTF-8\"?><Delete><Quiet>false</Quiet><Object><Key>a.txt</Key></Object></Delete>";
    assert_eq!(String::from_utf8(req.body.clone()).unwrap(), body);
    let md5 = req.headers.iter().find(|(k, _)| k == "Content-MD5").unwrap().1.clone();
    assert_eq!(md5, "pkgQe9Gj66bX2mjOxbZUqQ==");
    assert_eq!(content_md5(body.as_bytes()), "pkgQe9Gj66bX2mjOxbZUqQ==");
}

#[test]
fn status_classification() {
    assert!(is_success(200));
    assert!(is_success(206));
    assert!(!is_success(304));
    assert!(!is_success(404));
    let rec = OssError {
        code: "NoSuchKey".to_string(),
        message: "m".to_string(),
        request_id: "r".to_string(),
        ec: "e".to_string(),
    };
    assert_eq!(normal_error(404, vec![1, 2], Some(rec.clone())), Error::OssError(404, rec));
    assert_eq!(normal_error(500, vec![1, 2], None), Error::OssInvalidError(500, vec![1, 2]));
}

#[test]
fn content_type_choice() {
    assert_eq!(choose_content_type(Some("text/csv"), None, "a.png"), "text/csv");
    assert_eq!(choose_content_type(None, Some("image/gif".to_string()), "a.png"), "image/gif");
    assert_eq!(choose_content_type(None, None, "a.png"), "image/png");
    assert_eq!(choose_content_type(None, None, "noext"), "application/octet-stream");
}

#[test]
fn tagging_header_value() {
    let tags = vec![
        ("k 1".to_string(), "v".to_string()),
        ("flag".to_string(), String::new()),
    ];
    assert_eq!(tagging(&tags), "k%201=v&flag");
}

#[test]
fn etag_quotes_trimmed() {
    assert_eq!(trim_etag("\"abc\""), "abc");
    assert_eq!(trim_etag("abc"), "abc");
    assert_eq!(trim_etag("\""), "");
}

#[test]
fn list_buckets_setters() {
    let client = OssClient::new("id", "secret").unwrap();
    let l = client.list_buckets().set_prefix("rust").set_max_keys(20).set_marker("m").set_group_id("g");
    assert_eq!(
        l.req.querys,
        vec![
            ("prefix".to_string(), "rust".to_string()),
            ("max-keys".to_string(), "20".to_string()),
            ("marker".to_string(), "m".to_string()),
        ]
    );
    assert_eq!(l.req.headers, vec![("x-oss-resource-group-id".to_string(), "g".to_string())]);
}

#[test]
fn bucket_custom_domain() {
    let client = OssClient::new("id", "secret").unwrap();
    let b = client.bucket("b", "e").set_custom_domain("cdn.example.com", false);
    assert_eq!(b.oss.endpoint, "cdn.example.com");
    assert!(!b.oss.enable_https);
    assert_eq!(b.oss.bucket.as_deref(), Some("b"));
    let o = b.object("k");
    assert_eq!(o.oss.object.as_deref(), Some("k"));
}

#[test]
fn tagging_body_elements() {
    let tags = vec![("a".to_string(), "1".to_string()), ("b".to_string(), String::new())];
    assert_eq!(
        tagging_body(&tags),
        "<Tagging><TagSet><Tag><Key>a</Key><Value>1</Value></Tag><Tag><Key>b</Key></Tag></TagSet></Tagging>"
    );
    assert_eq!(tagging_body(&Vec::new()), "<Tagging><TagSet></TagSet></Tagging>");
}

#[test]
fn restore_body_variants() {
    assert_eq!(restore_body(None, None), None);
    assert_eq!(
        restore_body(Some(2), Some(RestoreTier::Expedited)).as_deref(),
        Some("<RestoreRequest><Days>2</Days><JobParameters><Tier>Expedited</Tier></JobParameters></RestoreRequest>")
    );
    assert_eq!(restore_body(Some(7), None).as_deref(), Some("<RestoreRequest><Days>7</Days></RestoreRequest>"));
}

#[test]
fn range_header_values() {
    assert_eq!(range_value(0, Some(499)), "bytes=0-499");
    assert_eq!(range_value(100, None), "bytes=100-");
}

#[test]
fn head_transfer_headers() {
    assert!(transfer_header("content-length"));
    assert!(transfer_header("x-oss-request-id"));
    assert!(!transfer_header("etag"));
    assert!(!transfer_header("x-oss-meta-a"));
}

#[test]
fn content_type_sniffed_from_bytes() {
    let png = [0x89u8, 0x50, 0x4E, 0x47, 0x0D, 0x0A, 0x1A, 0x0A, 0, 0, 0, 0];
    assert_eq!(content_type_for(None, &png, "noext"), "image/png");
    assert_eq!(content_type_for(None, b"plain", "a.json"), "application/json");
    assert_eq!(content_type_for(Some("text/x"), &png, "a.json"), "text/x");
}

#[test]
fn object_size_limits() {
    assert!(check_put_size(4_999_999_999).is_ok());
    assert_eq!(check_put_size(5_000_000_000), Err(Error::FileTooBig));
    assert!(check_append_size(5_368_709_119).is_ok());
    assert_eq!(check_append_size(5_368_709_120), Err(Error::InvalidFileSize));
}
