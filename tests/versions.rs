use aliyun_oss::client::OssClient;
use aliyun_oss::error::{error_header_bytes, header_error, Error, OssError};
use aliyun_oss::object::{
    markers_of, symlink_target, versions_of, DeleteMarker, ListObjectVersions, ObjectVersion,
};

fn version(key: &str, etag: &str) -> ObjectVersion {
    ObjectVersion {
        key: key.to_string(),
        version_id: format!("v-{}", key),
        is_latest: true,
        last_modified: "t".to_string(),
        e_tag: etag.to_string(),
        size: 3,
        storage_class: "Standard".to_string(),
    }
}

fn marker(key: &str) -> DeleteMarker {
    DeleteMarker {
        key: key.to_string(),
        version_id: "m".to_string(),
        is_latest: false,
        last_modified: "t".to_string(),
    }
}

#[test]
fn versions_kept_for_key_with_trimmed_etag() {
    let page = vec![version("a.txt", "\"e1\""), version("a.txt.bak", "\"e2\""), version("a.txt", "e3")];
    let kept = versions_of("a.txt", &page);
    assert_eq!(kept.len(), 2);
    assert_eq!(kept[0].e_tag, "e1");
    assert_eq!(kept[1].e_tag, "e3");
    assert!(kept.iter().all(|v| v.key == "a.txt"));
}

#[test]
fn markers_kept_for_key() {
    let page = vec![marker("a"), marker("ab"), marker("a")];
    assert_eq!(markers_of("a", &page), vec![marker("a"), marker("a")]);
}

#[test]
fn version_listing_resumes_on_marker() {
    let client = OssClient::new("id", "secret").unwrap();
    let mut listing = ListObjectVersions::new(client.oss.clone(), "a.txt");
    assert!(!listing.accept_versions_page(None));
    assert!(!listing.accept_versions_page(Some("")));
    assert_eq!(listing.req.querys.len(), 3);
    assert!(listing.accept_versions_page(Some("v9")));
    let q = &listing.req.querys;
    assert!(q.contains(&("version-id-marker".to_string(), "v9".to_string())));
    assert!(q.contains(&("key-marker".to_string(), "a.txt".to_string())));
}

#[test]
fn symlink_target_decoding() {
    assert_eq!(symlink_target(Some(b"dir%2Fa%20b.txt")).unwrap(), "dir/a b.txt");
    assert_eq!(symlink_target(Some(b"100%")).unwrap(), "100%");
    assert_eq!(symlink_target(Some(b"%C3%A9")).unwrap(), "é");
    assert_eq!(symlink_target(None).unwrap(), "");
    assert_eq!(symlink_target(Some(b"%FF")), Err(Error::OssInvalidResponse(None)));
}

#[test]
fn error_header_decoding() {
    assert_eq!(error_header_bytes(Some(b"PEVycm9yLz4=")), Some(b"<Error/>".to_vec()));
    assert_eq!(error_header_bytes(Some(b"!!")), None);
    assert_eq!(error_header_bytes(None), None);
    assert_eq!(header_error(404, None, None), Error::OssInvalidError(404, Vec::new()));
    assert_eq!(header_error(403, Some(vec![1]), None), Error::OssInvalidError(403, vec![1]));
    let rec = OssError {
        code: "AccessDenied".to_string(),
        message: "m".to_string(),
        request_id: "r".to_string(),
        ec: "e".to_string(),
    };
    assert_eq!(header_error(403, Some(vec![1]), Some(rec.clone())), Error::OssError(403, rec));
}
