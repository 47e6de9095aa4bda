use aliyun_oss::canonical::{
    canonical_headers, canonical_resource, canonical_sub_resource, header_value, is_sub_resource,
    sort_by_name, string_to_sign,
};
use aliyun_oss::client::OssClient;
use aliyun_oss::error::Error;
use aliyun_oss::request::{Method, OssRequest};
use aliyun_oss::signer::{authorization, sign};

fn pairs(items: &[(&str, &str)]) -> Vec<(String, String)> {
    items.iter().map(|(k, v)| (k.to_string(), v.to_string())).collect()
}

#[test]
fn non_sub_resource_query_is_not_signed() {
    let q = pairs(&[("max-keys", "10")]);
    let r = canonical_resource(Some("bucket"), Some("key"), &q).unwrap();
    assert_eq!(r, "/bucket/key");
    assert!(!r.contains('?'));
}

#[test]
fn excluded_parameter_still_in_url() {
    let client = OssClient::new("id", "secret").unwrap();
    let object = client.bucket("b", "e").object("k");
    let mut req = object.request(Method::Get);
    req.insert_query("max-keys", "10");
    req.insert_query("acl", "");
    assert_eq!(req.uri(), "https://b.e/k?max-keys=10&acl");
    let r = canonical_resource(Some("b"), Some("k"), &req.querys).unwrap();
    assert_eq!(r, "/b/k?acl");
}

#[test]
fn duplicate_sub_resources_rejected() {
    let q = pairs(&[("acl", ""), ("acl", "x")]);
    assert!(canonical_resource(Some("b"), None, &q).is_err());
    assert!(canonical_sub_resource(&q).is_err());
}

#[test]
fn empty_sub_resource_is_bare_name() {
    let q = pairs(&[("acl", "")]);
    let r = canonical_resource(Some("bucket"), Some("key"), &q).unwrap();
    assert_eq!(r, "/bucket/key?acl");
}

#[test]
fn sub_resources_sorted_and_filtered() {
    let q = pairs(&[
        ("uploadId", "u1"),
        ("max-keys", "5"),
        ("partNumber", "3"),
        ("prefix", "p"),
    ]);
    assert_eq!(canonical_sub_resource(&q).unwrap(), "partNumber=3&uploadId=u1");
    let r = canonical_resource(Some("b"), None, &q).unwrap();
    assert_eq!(r, "/b/?partNumber=3&uploadId=u1");
}

#[test]
fn resource_without_bucket() {
    let q: Vec<(String, String)> = Vec::new();
    assert_eq!(canonical_resource(None, None, &q).unwrap(), "/");
}

#[test]
fn allow_list_membership() {
    assert!(is_sub_resource("acl"));
    assert!(is_sub_resource("response-content-type"));
    assert!(is_sub_resource("continuation-token"));
    assert!(!is_sub_resource("max-keys"));
    assert!(!is_sub_resource("ACL"));
    assert!(!is_sub_resource(""));
}

#[test]
fn extension_headers_case_and_order_invariant() {
    let a = pairs(&[("X-Oss-Meta-A", "1"), ("x-oss-meta-b", "2")]);
    let b = pairs(&[("x-oss-meta-b", "2"), ("X-OSS-META-A", "1")]);
    let c = pairs(&[("Content-Type", "text/plain"), ("x-oss-meta-b", "2"), ("x-oss-meta-a", "1")]);
    let expected = "x-oss-meta-a:1\nx-oss-meta-b:2\n";
    assert_eq!(canonical_headers(&a).unwrap(), expected);
    assert_eq!(canonical_headers(&b).unwrap(), expected);
    assert_eq!(canonical_headers(&c).unwrap(), expected);
}

#[test]
fn no_extension_headers_give_empty_block() {
    let h = pairs(&[("Content-Type", "text/plain"), ("Date", "x")]);
    assert_eq!(canonical_headers(&h).unwrap(), "");
}

#[test]
fn duplicate_extension_headers_rejected() {
    let h = pairs(&[("X-Oss-Meta-A", "1"), ("x-oss-meta-a", "2")]);
    assert!(canonical_headers(&h).is_err());
}

#[test]
fn sort_rejects_equal_names() {
    let v = pairs(&[("b", "1"), ("a", "2"), ("b", "3")]);
    assert!(sort_by_name(&v).is_err());
    let w = pairs(&[("b", "1"), ("a", "2"), ("c", "3")]);
    assert_eq!(sort_by_name(&w).unwrap(), pairs(&[("a", "2"), ("b", "1"), ("c", "3")]));
}

#[test]
fn header_value_ignores_case() {
    let h = pairs(&[("content-type", "text/plain"), ("Content-MD5", "abc")]);
    assert_eq!(header_value(&h, "Content-Type"), "text/plain");
    assert_eq!(header_value(&h, "content-md5"), "abc");
    assert_eq!(header_value(&h, "Range"), "");
}

#[test]
fn string_to_sign_layout() {
    let s = string_to_sign("GET", "", "", "1700000000", "", "/b/k");
    assert_eq!(s, "GET\n\n\n1700000000\n/b/k");
}

#[test]
fn sign_matches_hmac_sha1_golden() {
    let s = sign("GET\n\n\n1700000000\n/examplebucket/example.txt", "test-secret");
    assert_eq!(s.as_deref(), Some("O4hMvY1wtO1JVUH6dmIFKvmc8jk="));
}

#[test]
fn signing_is_deterministic() {
    let text = "PUT\n\n\nDate\n/b/k";
    assert_eq!(sign(text, "s"), sign(text, "s"));
    assert_ne!(sign(text, "s"), sign(text, "t"));
}

#[test]
fn authorization_header_value() {
    assert_eq!(authorization("id", "sig"), "OSS id:sig");
}

#[test]
fn presigned_url_golden() {
    let client = OssClient::new("test-id", "test-secret").unwrap();
    let object = client
        .bucket("examplebucket", "oss-cn-hangzhou.aliyuncs.com")
        .object("example.txt");
    let url = object.get_object_url().url(1700000000).unwrap();
    assert_eq!(
        url,
        "https://examplebucket.oss-cn-hangzhou.aliyuncs.com/example%2Etxt?Expires=1700000000&OSSAccessKeyId=test-id&Signature=O4hMvY1wtO1JVUH6dmIFKvmc8jk%3D"
    );
}

#[test]
fn header_sign_golden() {
    let client = OssClient::new("test-id", "test-secret").unwrap();
    let object = client
        .bucket("examplebucket", "oss-cn-hangzhou.aliyuncs.com")
        .object("example.txt");
    let mut req = object.request(Method::Put);
    req.insert_query("acl", "");
    req.insert_query("max-keys", "7");
    req.insert_header("Content-MD5", "abc");
    req.insert_header("Content-Type", "text/plain");
    req.insert_header("x-oss-meta-b", "2");
    req.insert_header("X-Oss-Meta-A", "1");
    req.header_sign_at("Wed, 01 Jan 2025 00:00:00 GMT").unwrap();
    let auth = req
        .headers
        .iter()
        .find(|(k, _)| k == "Authorization")
        .map(|(_, v)| v.clone())
        .unwrap();
    assert_eq!(auth, "OSS test-id:a/9PQ3gb3OMQztacLpROIDQtsq0=");
    let date = req.headers.iter().find(|(k, _)| k == "Date").map(|(_, v)| v.clone());
    assert_eq!(date.as_deref(), Some("Wed, 01 Jan 2025 00:00:00 GMT"));
}

#[test]
fn header_sign_rejects_duplicate_extension_headers() {
    let client = OssClient::new("id", "secret").unwrap();
    let object = client.bucket("b", "e").object("k");
    let mut req = object.request(Method::Get);
    req.insert_header("x-oss-meta-a", "1");
    req.insert_header("X-Oss-Meta-A", "2");
    assert_eq!(req.header_sign_at("d"), Err(Error::DuplicateHeader));
    assert_eq!(req.headers.len(), 2);
}

#[test]
fn uri_encodes_key_and_values_in_order() {
    let client = OssClient::new("id", "secret").unwrap();
    let object = client.bucket("b", "example.com").object("dir/a b.txt");
    let mut req = object.request(Method::Get);
    req.insert_query("uploads", "");
    req.insert_query("prefix", "x y");
    assert_eq!(req.uri(), "https://b.example.com/dir/a%20b%2Etxt?uploads&prefix=x%20y");
}

#[test]
fn uri_plain_http_without_bucket() {
    let client = OssClient::new("id", "secret").unwrap().disable_https();
    let req = OssRequest::new(client.oss.clone(), Method::Get);
    assert_eq!(req.uri(), "http://oss.aliyuncs.com/");
}

#[test]
fn insert_replaces_same_name() {
    let client = OssClient::new("id", "secret").unwrap();
    let mut req = OssRequest::new(client.oss.clone(), Method::Get);
    req.insert_query("a", "1");
    req.insert_query("b", "2");
    req.insert_query("a", "3");
    assert_eq!(req.querys, pairs(&[("a", "3"), ("b", "2")]));
}

#[test]
fn security_token_header_added() {
    let client = OssClient::new("id", "secret").unwrap().set_security_token("tok");
    let mut req = OssRequest::new(client.oss.clone(), Method::Get);
    req.attach_security_token();
    assert_eq!(req.headers, pairs(&[("x-oss-security-token", "tok")]));
}

#[test]
fn empty_secret_rejected() {
    assert!(matches!(OssClient::new("id", ""), Err(Error::EmptySecret)));
}

#[test]
fn header_sign_now_sets_date_and_authorization() {
    let client = OssClient::new("id", "secret").unwrap();
    let mut req = OssRequest::new(client.oss.clone(), Method::Get);
    req.header_sign().unwrap();
    assert!(req.headers.iter().any(|(k, v)| k == "Date" && v.ends_with("GMT")));
    assert!(req.headers.iter().any(|(k, v)| k == "Authorization" && v.starts_with("OSS id:")));
}

fn signed_auth(method: Method, headers: &[(&str, &str)], querys: &[(&str, &str)]) -> String {
    let client = OssClient::new("test-id", "test-secret").unwrap();
    let object = client.bucket("examplebucket", "e").object("a.txt");
    let mut req = object.request(method);
    for (k, v) in querys {
        req.insert_query(k, v);
    }
    for (k, v) in headers {
        req.insert_header(k, v);
    }
    req.header_sign_at("Wed, 01 Jan 2025 00:00:00 GMT").unwrap();
    req.headers.iter().find(|(k, _)| k == "Authorization").unwrap().1.clone()
}

#[test]
fn header_sign_excludes_max_keys() {
    let with = signed_auth(Method::Get, &[], &[("max-keys", "10")]);
    assert_eq!(with, "OSS test-id:jvN0EFQssRNZGK7ENa7NdIerb+Q=");
    assert_eq!(with, signed_auth(Method::Get, &[], &[]));
}

#[test]
fn header_sign_includes_bare_acl() {
    assert_eq!(signed_auth(Method::Get, &[], &[("acl", "")]), "OSS test-id:KRWxajH+pCyZHkxiceY1evSy8DQ=");
}

#[test]
fn header_sign_extension_headers_case_and_order() {
    let a = signed_auth(Method::Put, &[("X-Oss-Meta-A", "1"), ("x-oss-meta-b", "2")], &[]);
    let b = signed_auth(Method::Put, &[("x-oss-meta-b", "2"), ("x-oss-meta-a", "1")], &[]);
    assert_eq!(a, "OSS test-id:cP5zwWK0m1HP7bDg78DpQxpl2to=");
    assert_eq!(a, b);
}
