use aliyun_oss::client::OssClient;
use aliyun_oss::error::Error;
use aliyun_oss::multipart::{
    check_part_content_size, check_part_file_size, complete_manifest, sort_parts, UploadSession,
    UploadState,
};

fn parts(items: &[(u32, &str)]) -> Vec<(u32, String)> {
    items.iter().map(|(n, e)| (*n, e.to_string())).collect()
}

const ORDERED: &str = "<CompleteMultipartUpload><Part><PartNumber>1</PartNumber><ETag>e1</ETag></Part><Part><PartNumber>2</PartNumber><ETag>e2</ETag></Part><Part><PartNumber>3</PartNumber><ETag>e3</ETag></Part></CompleteMultipartUpload>";

#[test]
fn manifest_orders_parts_by_number() {
    let p = parts(&[(3, "e3"), (1, "e1"), (2, "e2")]);
    assert_eq!(complete_manifest(&p).unwrap(), ORDERED);
}

#[test]
fn session_manifest_ignores_call_order() {
    let mut s = UploadSession::new("upload-1");
    assert_eq!(s.state(), UploadState::Initiated);
    s.record_part(3, "e3").unwrap();
    s.record_part(1, "e1").unwrap();
    s.record_part(2, "e2").unwrap();
    assert_eq!(s.state(), UploadState::PartsUploading);
    assert_eq!(s.complete().unwrap(), ORDERED);
    assert_eq!(s.state(), UploadState::Completed);
    assert_eq!(s.upload_id(), "upload-1");
}

#[test]
fn retried_part_replaces_etag() {
    let mut s = UploadSession::new("u");
    s.record_part(1, "old").unwrap();
    s.record_part(1, "new").unwrap();
    assert_eq!(s.parts(), &parts(&[(1, "new")]));
}

#[test]
fn closed_session_refuses_everything() {
    let mut s = UploadSession::new("u");
    s.record_part(1, "e").unwrap();
    s.abort().unwrap();
    assert_eq!(s.state(), UploadState::Aborted);
    assert_eq!(s.abort(), Err(Error::UploadClosed));
    assert_eq!(s.record_part(2, "e"), Err(Error::UploadClosed));
    assert_eq!(s.complete(), Err(Error::UploadClosed));
}

#[test]
fn complete_without_parts_refused() {
    let mut s = UploadSession::new("u");
    assert_eq!(s.complete(), Err(Error::NoParts));
    assert_eq!(s.state(), UploadState::Initiated);
}

#[test]
fn invalid_part_numbers_refused() {
    let mut s = UploadSession::new("u");
    assert_eq!(s.record_part(0, "e"), Err(Error::InvalidPartNumber(0)));
    assert_eq!(s.record_part(10001, "e"), Err(Error::InvalidPartNumber(10001)));
    assert!(s.record_part(10000, "e").is_ok());
    assert_eq!(
        complete_manifest(&parts(&[(2, "a"), (0, "b"), (20000, "c")])),
        Err(Error::InvalidPartNumber(0))
    );
}

#[test]
fn duplicate_part_numbers_refused() {
    assert_eq!(
        complete_manifest(&parts(&[(2, "a"), (1, "b"), (2, "c")])),
        Err(Error::DuplicatePart(2))
    );
    assert_eq!(complete_manifest(&parts(&[])), Err(Error::NoParts));
}

#[test]
fn sort_parts_ascending() {
    let p = parts(&[(9, "i"), (4, "d"), (7, "g")]);
    assert_eq!(sort_parts(&p).unwrap(), parts(&[(4, "d"), (7, "g"), (9, "i")]));
    assert_eq!(sort_parts(&parts(&[(4, "d"), (4, "e")])), Err(4));
}

#[test]
fn part_size_limits() {
    assert!(check_part_file_size(102_400).is_ok());
    assert_eq!(check_part_file_size(102_399), Err(Error::InvalidFileSize));
    assert!(check_part_file_size(5_368_709_119).is_ok());
    assert_eq!(check_part_file_size(5_368_709_120), Err(Error::InvalidFileSize));
    assert!(check_part_content_size(0).is_ok());
    assert_eq!(check_part_content_size(5_000_000_000), Err(Error::InvalidFileSize));
}

#[test]
fn complete_upload_request_carries_manifest() {
    let client = OssClient::new("id", "secret").unwrap();
    let object = client.bucket("b", "e").object("k");
    let req = object
        .multipart_complete_upload("u1", &parts(&[(2, "e2"), (1, "e1"), (3, "e3")]))
        .unwrap();
    assert_eq!(String::from_utf8(req.body.clone()).unwrap(), ORDERED);
    assert_eq!(req.querys, vec![("uploadId".to_string(), "u1".to_string())]);
}

#[test]
fn upload_part_request_parameters() {
    let client = OssClient::new("id", "secret").unwrap();
    let object = client.bucket("b", "e").object("k");
    let req = object.multipart_upload_part(12, "u1");
    assert_eq!(
        req.querys,
        vec![
            ("partNumber".to_string(), "12".to_string()),
            ("uploadId".to_string(), "u1".to_string())
        ]
    );
}
