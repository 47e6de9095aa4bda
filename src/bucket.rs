//! The bucket handle and the bucket-level operations.
use vstd::prelude::*;
use vstd::utf8::encode_utf8;
use md5::Digest;
use crate::canonical::Pair;
use crate::common::{Acl, DataRedundancyType, Owner, StorageClass};
use crate::object::OssObject;
use crate::paginate::clamp_page_size;
use crate::request::{upsert, Method, Oss, OssRequest, OssView};
use crate::signer::{base64_encode, base64_of};
use crate::text::{decimal, decimal_string, str_eq};

verus! {

/// A handle on one bucket at one endpoint.
#[derive(Debug, Clone)]
pub struct OssBucket {
    pub oss: Oss,
}

impl OssBucket {
    pub fn new(oss: Oss, bucket: &str, endpoint: &str) -> (r: OssBucket)
        ensures
            r.oss@ == (OssView { bucket: Some(bucket@), endpoint: endpoint@, ..oss@ }),
    {
        let mut oss = oss;
        oss.set_bucket(bucket);
        oss.set_endpoint(endpoint);
        OssBucket { oss }
    }

    /// Addresses the bucket through a custom domain.
    pub fn set_custom_domain(self, custom_domain: &str, enable_https: bool) -> (r: OssBucket)
        ensures
            r.oss@ == (OssView {
                endpoint: custom_domain@,
                enable_https: enable_https,
                ..self.oss@
            }),
    {
        let mut s = self;
        s.oss.set_endpoint(custom_domain);
        s.oss.set_https(enable_https);
        s
    }

    /// A handle on an object of the bucket.
    pub fn object(&self, object: &str) -> (r: OssObject)
        ensures
            r.oss@ == (OssView { object: Some(object@), ..self.oss@ }),
    {
        OssObject::new(self.oss.duplicate(), object)
    }

    fn request(&self, method: Method) -> (r: OssRequest)
        ensures
            r.wf(),
            r.oss@ == self.oss@,
            r.method == method,
            r.query_pairs().len() == 0,
            r.header_pairs().len() == 0,
            r.body@.len() == 0,
    {
        let req = OssRequest::new(self.oss.duplicate(), method);
        assert(req.query_pairs() =~= Seq::<Pair>::empty());
        assert(req.header_pairs() =~= Seq::<Pair>::empty());
        req
    }

    /// Creates the bucket.
    pub fn put_bucket(&self) -> (r: PutBucket)
        ensures
            r.req.wf(),
            r.req.oss@ == self.oss@,
            r.req.method == Method::Put,
            r.storage_class is None,
            r.data_redundancy_type is None,
    {
        PutBucket { req: self.request(Method::Put), storage_class: None, data_redundancy_type: None }
    }

    /// Deletes the bucket.
    pub fn del_bucket(&self) -> (r: OssRequest)
        ensures
            r.wf(),
            r.oss@ == self.oss@,
            r.method == Method::Delete,
            r.query_pairs().len() == 0,
    {
        self.request(Method::Delete)
    }

    /// Lists the objects of the bucket, a page of up to 1000 at a time.
    pub fn list_objects(&self) -> (r: ListObjects)
        ensures
            r.req.wf(),
            r.req.oss@ == self.oss@,
            r.req.method == Method::Get,
            r.req.query_pairs() == seq![("list-type"@, "2"@), ("max-keys"@, "1000"@)],
    {
        let mut req = self.request(Method::Get);
        req.insert_query("list-type", "2");
        req.insert_query("max-keys", "1000");
        assert(req.query_pairs() =~= seq![("list-type"@, "2"@), ("max-keys"@, "1000"@)]) by {
            reveal_strlit("list-type");
            reveal_strlit("max-keys");
            assert("list-type"@[0] != "max-keys"@[0]);
        }
        ListObjects { req }
    }

    /// Queries the bucket's details.
    pub fn get_bucket_info(&self) -> (r: GetBucketInfo)
        ensures
            r.req.wf(),
            r.req.oss@ == self.oss@,
            r.req.method == Method::Get,
            r.req.query_pairs() == seq![("bucketInfo"@, ""@)],
    {
        GetBucketInfo::new(self.oss.duplicate())
    }

    /// Queries the bucket's storage and object counts.
    pub fn get_bucket_stat(&self) -> (r: OssRequest)
        ensures
            r.wf(),
            r.oss@ == self.oss@,
            r.method == Method::Get,
            r.query_pairs() == seq![("stat"@, ""@)],
    {
        let mut req = self.request(Method::Get);
        req.insert_query("stat", "");
        proof {
            assert(req.query_pairs() =~= seq![("stat"@, ""@)]);
        }
        req
    }

    /// Deletes several objects in one request.
    pub fn del_objects(&self, files: Vec<ObjectWithVersion>) -> (r: DelObjects)
        ensures
            r.req.wf(),
            r.req.oss@ == self.oss@,
            r.req.method == Method::Post,
            keys_distinct(r.objects@),
            forall|o: ObjectWithVersion| #[trigger] r.objects@.contains(o) ==> files@.contains(o),
            forall|k: int| 0 <= k < files@.len() ==> #[trigger] covered(files@, r.objects@, k),
    {
        let mut req = self.request(Method::Post);
        req.insert_query("delete", "");
        let d = DelObjects { req, objects: Vec::new() };
        assert(d.objects@ =~= Seq::<ObjectWithVersion>::empty());
        d.add_files(files)
    }

    /// Lists the multipart uploads in progress.
    pub fn list_multipart_uploads(&self) -> (r: ListUploads)
        ensures
            r.req.wf(),
            r.req.oss@ == self.oss@,
            r.req.method == Method::Get,
            r.req.query_pairs() == seq![("uploads"@, ""@)],
    {
        let mut req = self.request(Method::Get);
        req.insert_query("uploads", "");
        proof {
            assert(req.query_pairs() =~= seq![("uploads"@, ""@)]);
        }
        ListUploads { req }
    }
}

/// Lists the multipart uploads of a bucket that are in progress.
#[derive(Debug)]
pub struct ListUploads {
    pub req: OssRequest,
}

impl ListUploads {
    fn query(self, name: &str, value: &str) -> (r: ListUploads)
        requires
            self.req.wf(),
        ensures
            r.req.wf(),
            r.req.query_pairs() == upsert(self.req.query_pairs(), name@, value@),
            r.req.oss == self.req.oss,
    {
        let mut s = self;
        s.req.insert_query(name, value);
        s
    }

    /// The character that groups keys into common prefixes.
    pub fn set_delimiter(self, delimiter: &str) -> (r: ListUploads)
        requires
            self.req.wf(),
        ensures
            r.req.wf(),
            r.req.query_pairs() == upsert(self.req.query_pairs(), "delimiter"@, delimiter@),
    {
        self.query("delimiter", delimiter)
    }

    /// Only uploads of keys that start with `prefix`.
    pub fn set_prefix(self, prefix: &str) -> (r: ListUploads)
        requires
            self.req.wf(),
        ensures
            r.req.wf(),
            r.req.query_pairs() == upsert(self.req.query_pairs(), "prefix"@, prefix@),
    {
        self.query("prefix", prefix)
    }

    /// Start after this key.
    pub fn set_key_marker(self, key_marker: &str) -> (r: ListUploads)
        requires
            self.req.wf(),
        ensures
            r.req.wf(),
            r.req.query_pairs() == upsert(self.req.query_pairs(), "key-marker"@, key_marker@),
    {
        self.query("key-marker", key_marker)
    }

    /// Start after this upload id of the key marker.
    pub fn set_upload_id_marker(self, upload_id_marker: &str) -> (r: ListUploads)
        requires
            self.req.wf(),
        ensures
            r.req.wf(),
            r.req.query_pairs() == upsert(
                self.req.query_pairs(),
                "upload-id-marker"@,
                upload_id_marker@,
            ),
    {
        self.query("upload-id-marker", upload_id_marker)
    }

    /// At most this many uploads, clamped into 1..=1000.
    pub fn set_max_uploads(self, max_uploads: u32) -> (r: ListUploads)
        requires
            self.req.wf(),
        ensures
            r.req.wf(),
            r.req.query_pairs() == upsert(
                self.req.query_pairs(),
                "max-uploads"@,
                decimal(
                    (if max_uploads < 1 {
                        1
                    } else if max_uploads > 1000 {
                        1000
                    } else {
                        max_uploads
                    }) as nat,
                ),
            ),
    {
        let n = clamp_page_size(max_uploads);
        let v = decimal_string(n as u64);
        self.query("max-uploads", v.as_str())
    }
}

/// Creates a bucket.
#[derive(Debug)]
pub struct PutBucket {
    pub req: OssRequest,
    pub storage_class: Option<StorageClass>,
    pub data_redundancy_type: Option<DataRedundancyType>,
}

/// The creation body, when a storage class or a redundancy type is set.
pub open spec fn bucket_config_of(
    storage_class: Option<StorageClass>,
    redundancy: Option<DataRedundancyType>,
) -> Seq<char> {
    "<?xml version=\"1.0\" encoding=\"UTF-8\"?><CreateBucketConfiguration>"@ + match storage_class {
        Some(c) => "<StorageClass>"@ + c.text() + "</StorageClass>"@,
        None => Seq::<char>::empty(),
    } + match redundancy {
        Some(d) => "<DataRedundancyType>"@ + d.text() + "</DataRedundancyType>"@,
        None => Seq::<char>::empty(),
    } + "</CreateBucketConfiguration>"@
}

impl PutBucket {
    pub fn set_acl(self, acl: Acl) -> (r: PutBucket)
        requires
            self.req.wf(),
        ensures
            r.req.wf(),
            r.req.header_pairs() == upsert(self.req.header_pairs(), "x-oss-acl"@, acl.text()),
            r.storage_class == self.storage_class,
            r.data_redundancy_type == self.data_redundancy_type,
    {
        let mut s = self;
        let v = acl.to_string();
        s.req.insert_header("x-oss-acl", v.as_str());
        s
    }

    pub fn set_group_id(self, group_id: &str) -> (r: PutBucket)
        requires
            self.req.wf(),
        ensures
            r.req.wf(),
            r.req.header_pairs() == upsert(
                self.req.header_pairs(),
                "x-oss-resource-group-id"@,
                group_id@,
            ),
            r.storage_class == self.storage_class,
            r.data_redundancy_type == self.data_redundancy_type,
    {
        let mut s = self;
        s.req.insert_header("x-oss-resource-group-id", group_id);
        s
    }

    pub fn set_storage_class(self, storage_class: StorageClass) -> (r: PutBucket)
        requires
            self.req.wf(),
        ensures
            r.req.wf(),
            r.storage_class == Some(storage_class),
            r.data_redundancy_type == self.data_redundancy_type,
            r.req.header_pairs() == self.req.header_pairs(),
    {
        let mut s = self;
        s.storage_class = Some(storage_class);
        s
    }

    pub fn set_redundancy_type(self, redundancy_type: DataRedundancyType) -> (r: PutBucket)
        requires
            self.req.wf(),
        ensures
            r.req.wf(),
            r.storage_class == self.storage_class,
            r.data_redundancy_type == Some(redundancy_type),
            r.req.header_pairs() == self.req.header_pairs(),
    {
        let mut s = self;
        s.data_redundancy_type = Some(redundancy_type);
        s
    }

    /// The request, with the creation body when a storage class or a
    /// redundancy type is set.
    pub fn into_request(self) -> (r: OssRequest)
        requires
            self.req.wf(),
        ensures
            r.wf(),
            r.header_pairs() == self.req.header_pairs(),
            r.query_pairs() == self.req.query_pairs(),
            (self.storage_class is Some || self.data_redundancy_type is Some) ==> r.body@
                == encode_utf8(bucket_config_of(self.storage_class, self.data_redundancy_type)),
            (self.storage_class is None && self.data_redundancy_type is None) ==> r.body@
                == self.req.body@,
    {
        let mut req = self.req;
        if self.storage_class.is_some() || self.data_redundancy_type.is_some() {
            let mut body = String::from_str(
                "<?xml version=\"1.0\" encoding=\"UTF-8\"?><CreateBucketConfiguration>",
            );
            match self.storage_class {
                Some(c) => {
                    body.append("<StorageClass>");
                    let t = c.to_string();
                    body.append(t.as_str());
                    body.append("</StorageClass>");
                },
                None => {},
            }
            match self.data_redundancy_type {
                Some(d) => {
                    body.append("<DataRedundancyType>");
                    let t = d.to_string();
                    body.append(t.as_str());
                    body.append("</DataRedundancyType>");
                },
                None => {},
            }
            body.append("</CreateBucketConfiguration>");
            assert(body@ =~= bucket_config_of(self.storage_class, self.data_redundancy_type));
            let bytes = body.as_str().as_bytes_vec();
            req.set_body(bytes);
        }
        req
    }
}

/// Lists the objects of a bucket.
#[derive(Debug)]
pub struct ListObjects {
    pub req: OssRequest,
}

impl ListObjects {
    /// The character that groups keys into common prefixes.
    pub fn set_delimiter(self, delimiter: &str) -> (r: ListObjects)
        requires
            self.req.wf(),
        ensures
            r.req.wf(),
            r.req.query_pairs() == upsert(self.req.query_pairs(), "delimiter"@, delimiter@),
            r.req.oss == self.req.oss,
    {
        let mut s = self;
        s.req.insert_query("delimiter", delimiter);
        s
    }

    /// Start after this key, in key order.
    pub fn set_start_after(self, start_after: &str) -> (r: ListObjects)
        requires
            self.req.wf(),
        ensures
            r.req.wf(),
            r.req.query_pairs() == upsert(self.req.query_pairs(), "start-after"@, start_after@),
            r.req.oss == self.req.oss,
    {
        let mut s = self;
        s.req.insert_query("start-after", start_after);
        s
    }

    /// Resume at a cursor returned by an earlier page.
    pub fn set_continuation_token(self, token: &str) -> (r: ListObjects)
        requires
            self.req.wf(),
        ensures
            r.req.wf(),
            r.req.query_pairs() == upsert(self.req.query_pairs(), "continuation-token"@, token@),
            r.req.oss == self.req.oss,
    {
        let mut s = self;
        s.req.insert_query("continuation-token", token);
        s
    }

    /// Only keys that start with `prefix`.
    pub fn set_prefix(self, prefix: &str) -> (r: ListObjects)
        requires
            self.req.wf(),
        ensures
            r.req.wf(),
            r.req.query_pairs() == upsert(self.req.query_pairs(), "prefix"@, prefix@),
            r.req.oss == self.req.oss,
    {
        let mut s = self;
        s.req.insert_query("prefix", prefix);
        s
    }

    /// Page size, clamped into 1..=1000.
    pub fn set_max_keys(self, max_keys: u32) -> (r: ListObjects)
        requires
            self.req.wf(),
        ensures
            r.req.wf(),
            r.req.query_pairs() == upsert(
                self.req.query_pairs(),
                "max-keys"@,
                decimal(
                    (if max_keys < 1 {
                        1
                    } else if max_keys > 1000 {
                        1000
                    } else {
                        max_keys
                    }) as nat,
                ),
            ),
            r.req.oss == self.req.oss,
    {
        let mut s = self;
        let n = clamp_page_size(max_keys);
        let v = decimal_string(n as u64);
        s.req.insert_query("max-keys", v.as_str());
        s
    }

    /// Include owner details.
    pub fn fetch_owner(self) -> (r: ListObjects)
        requires
            self.req.wf(),
        ensures
            r.req.wf(),
            r.req.query_pairs() == upsert(self.req.query_pairs(), "fetch-owner"@, "true"@),
            r.req.oss == self.req.oss,
    {
        let mut s = self;
        s.req.insert_query("fetch-owner", "true");
        s
    }

    /// The request for one page of a paginated listing: this listing with
    /// the page size and, when given, the cursor to resume at.
    pub fn page_request(&self, page_size: usize, cursor: Option<&str>) -> (r: OssRequest)
        requires
            self.req.wf(),
            page_size <= 1000,
        ensures
            r.wf(),
            r.oss@ == self.req.oss@,
            r.method == self.req.method,
            r.header_pairs() == self.req.header_pairs(),
            r.query_pairs() == match cursor {
                Some(c) => upsert(
                    upsert(self.req.query_pairs(), "max-keys"@, decimal(page_size as nat)),
                    "continuation-token"@,
                    c@,
                ),
                None => upsert(self.req.query_pairs(), "max-keys"@, decimal(page_size as nat)),
            },
    {
        let mut req = self.req.duplicate();
        let v = decimal_string(page_size as u64);
        req.insert_query("max-keys", v.as_str());
        match cursor {
            Some(c) => req.insert_query("continuation-token", c),
            None => {},
        }
        req
    }
}

/// Queries a bucket's details.
#[derive(Debug)]
pub struct GetBucketInfo {
    pub req: OssRequest,
}

impl GetBucketInfo {
    pub fn new(oss: Oss) -> (r: GetBucketInfo)
        ensures
            r.req.wf(),
            r.req.oss == oss,
            r.req.method == Method::Get,
            r.req.query_pairs() == seq![("bucketInfo"@, ""@)],
    {
        let mut req = OssRequest::new(oss, Method::Get);
        req.insert_query("bucketInfo", "");
        proof {
            assert(req.query_pairs() =~= seq![("bucketInfo"@, ""@)]);
        }
        GetBucketInfo { req }
    }
}

/// An object key, with a version when one is meant.
#[derive(Debug, Clone, PartialEq, Eq)]
pub struct ObjectWithVersion {
    pub key: String,
    pub version_id: Option<String>,
}

pub open spec fn object_entry_of(key: Seq<char>, version: Option<Seq<char>>) -> Seq<char> {
    match version {
        Some(v) => "<Object><Key>"@ + key + "</Key><VersionId>"@ + v + "</VersionId></Object>"@,
        None => "<Object><Key>"@ + key + "</Key></Object>"@,
    }
}

impl ObjectWithVersion {
    pub open spec fn version_view(&self) -> Option<Seq<char>> {
        match self.version_id {
            Some(v) => Some(v@),
            None => None,
        }
    }

    pub fn new(file: &str) -> (r: ObjectWithVersion)
        ensures
            r.key@ == file@,
            r.version_id is None,
    {
        ObjectWithVersion { key: String::from_str(file), version_id: None }
    }

    pub fn new_with_version(file: &str, version_id: &str) -> (r: ObjectWithVersion)
        ensures
            r.key@ == file@,
            r.version_view() == Some(version_id@),
    {
        ObjectWithVersion {
            key: String::from_str(file),
            version_id: Some(String::from_str(version_id)),
        }
    }

    /// The `<Object>` element of a delete request.
    pub fn to_string(&self) -> (r: String)
        ensures
            r@ == object_entry_of(self.key@, self.version_view()),
    {
        let mut s = String::from_str("<Object><Key>");
        s.append(self.key.as_str());
        match &self.version_id {
            Some(v) => {
                s.append("</Key><VersionId>");
                s.append(v.as_str());
                s.append("</VersionId></Object>");
            },
            None => {
                s.append("</Key></Object>");
            },
        }
        assert(s@ =~= object_entry_of(self.key@, self.version_view()));
        s
    }
}

pub open spec fn same_object(a: ObjectWithVersion, b: ObjectWithVersion) -> bool {
    a.key@ == b.key@ && a.version_view() == b.version_view()
}

/// Some object of `objs` is the `k`-th of `files`.
pub open spec fn covered(files: Seq<ObjectWithVersion>, objs: Seq<ObjectWithVersion>, k: int) -> bool {
    exists|m: int| 0 <= m < objs.len() && same_object(files[k], objs[m])
}

/// No object is listed twice.
pub open spec fn keys_distinct(s: Seq<ObjectWithVersion>) -> bool {
    forall|i: int, j: int| 0 <= i < j < s.len() ==> !same_object(#[trigger] s[i], #[trigger] s[j])
}

fn same_object_exec(a: &ObjectWithVersion, b: &ObjectWithVersion) -> (r: bool)
    ensures
        r == same_object(*a, *b),
{
    if !str_eq(a.key.as_str(), b.key.as_str()) {
        return false;
    }
    match (&a.version_id, &b.version_id) {
        (Some(x), Some(y)) => str_eq(x.as_str(), y.as_str()),
        (None, None) => true,
        _ => false,
    }
}

pub open spec fn delete_entries(s: Seq<ObjectWithVersion>) -> Seq<char>
    decreases s.len(),
{
    if s.len() == 0 {
        seq![]
    } else {
        delete_entries(s.drop_last()) + object_entry_of(s.last().key@, s.last().version_view())
    }
}

/// The body of a delete request for the objects. It asks for the verbose
/// answer (`Quiet` false), which lists each deleted object with its version,
/// and names a version for each object that carries one.
pub open spec fn delete_body_of(s: Seq<ObjectWithVersion>) -> Seq<char> {
    "<?xml version=\"1.0\" encoding=\"UTF-8\"?><Delete><Quiet>false</Quiet>"@ + delete_entries(s)
        + "</Delete>"@
}

/// The MD5 digest of `bytes`.
pub uninterp spec fn md5_of(bytes: Seq<u8>) -> Seq<u8>;

/// Relies on md-5's `Md5::digest`: the digest depends on the bytes alone and
/// is 16 bytes long.
#[verifier::external_body]
fn md5_digest(bytes: &[u8]) -> (r: Vec<u8>)
    ensures
        r@ == md5_of(bytes@),
        r@.len() == 16,
{
    md5::Md5::digest(bytes).to_vec()
}

/// The `Content-MD5` value of a body: its MD5 digest in base64.
pub fn content_md5(body: &[u8]) -> (r: String)
    ensures
        r@ == base64_of(md5_of(body@)),
{
    let d = md5_digest(body);
    base64_encode(d.as_slice())
}

/// Deletes several objects of a bucket.
#[derive(Debug)]
pub struct DelObjects {
    pub req: OssRequest,
    pub objects: Vec<ObjectWithVersion>,
}

impl DelObjects {
    /// Adds objects; one already listed is not listed again.
    pub fn add_files(self, files: Vec<ObjectWithVersion>) -> (r: DelObjects)
        requires
            keys_distinct(self.objects@),
        ensures
            keys_distinct(r.objects@),
            r.req == self.req,
            forall|o: ObjectWithVersion| #[trigger] r.objects@.contains(o) ==> self.objects@.contains(o)
                || files@.contains(o),
            forall|o: ObjectWithVersion| self.objects@.contains(o) ==> #[trigger] r.objects@.contains(o),
            forall|k: int| 0 <= k < files@.len() ==> #[trigger] covered(files@, r.objects@, k),
    {
        let mut s = self;
        let mut i: usize = 0;
        while i < files.len()
            invariant
                i <= files.len(),
                s.req == self.req,
                keys_distinct(s.objects@),
                forall|o: ObjectWithVersion| #[trigger] s.objects@.contains(o) ==> self.objects@.contains(o)
                    || files@.contains(o),
                forall|o: ObjectWithVersion| self.objects@.contains(o) ==> #[trigger] s.objects@.contains(o),
                forall|k: int| 0 <= k < i ==> #[trigger] covered(files@, s.objects@, k),
            decreases files.len() - i,
        {
            let mut found = false;
            let mut j: usize = 0;
            while j < s.objects.len()
                invariant
                    j <= s.objects.len(),
                    !found ==> forall|m: int| 0 <= m < j ==> !same_object(files@[i as int], #[trigger] s.objects@[m]),
                    found ==> exists|m: int| 0 <= m < s.objects@.len() && same_object(files@[i as int], #[trigger] s.objects@[m]),
                    i < files.len(),
                decreases s.objects.len() - j,
            {
                if !found && same_object_exec(&files[i], &s.objects[j]) {
                    found = true;
                }
                j = j + 1;
            }
            proof {
                if found {
                    assert forall|k: int| 0 <= k < i + 1 implies #[trigger] covered(files@, s.objects@, k) by {
                        if k == i {
                            let m = choose|m: int| 0 <= m < s.objects@.len() && same_object(files@[i as int], s.objects@[m]);
                            assert(same_object(files@[k], s.objects@[m]));
                        }
                    }
                }
            }
            if !found {
                let ghost before = s.objects@;
                s.objects.push(files[i].clone_object());
                proof {
                    assert forall|a: int, b: int| 0 <= a < b < s.objects@.len() implies !same_object(
                        #[trigger] s.objects@[a],
                        #[trigger] s.objects@[b],
                    ) by {
                        if b == before.len() {
                            assert(s.objects@[a] == before[a]);
                        } else {
                            assert(s.objects@[a] == before[a]);
                            assert(s.objects@[b] == before[b]);
                        }
                    }
                    assert forall|o: ObjectWithVersion| #[trigger] s.objects@.contains(o) implies self.objects@.contains(o)
                        || files@.contains(o) by {
                        let m = choose|m: int| 0 <= m < s.objects@.len() && s.objects@[m] == o;
                        if m < before.len() {
                            assert(before[m] == o);
                            assert(before.contains(o));
                        }
                    }
                    assert forall|o: ObjectWithVersion| self.objects@.contains(o) implies #[trigger] s.objects@.contains(o) by {
                        assert(before.contains(o));
                        let m = choose|m: int| 0 <= m < before.len() && before[m] == o;
                        assert(s.objects@[m] == o);
                    }
                    assert forall|k: int| 0 <= k < i + 1 implies #[trigger] covered(files@, s.objects@, k) by {
                        if k < i {
                            assert(covered(files@, before, k));
                            let m = choose|m: int| 0 <= m < before.len() && same_object(files@[k], before[m]);
                            assert(s.objects@[m] == before[m]);
                            assert(same_object(files@[k], s.objects@[m]));
                        } else {
                            assert(s.objects@[before.len() as int] == files@[i as int]);
                            assert(same_object(files@[k], s.objects@[before.len() as int]));
                        }
                    }
                }
            }
            i = i + 1;
        }
        assert forall|k: int| 0 <= k < files@.len() implies #[trigger] covered(files@, s.objects@, k) by {
            assert(k < i);
        }
        s
    }

    /// The request with its body, `Content-Length` and `Content-MD5` set.
    pub fn into_request(self) -> (r: OssRequest)
        requires
            self.req.wf(),
        ensures
            r.wf(),
            r.body@ == encode_utf8(delete_body_of(self.objects@)),
            r.header_pairs() == upsert(
                upsert(
                    self.req.header_pairs(),
                    "Content-Length"@,
                    decimal(encode_utf8(delete_body_of(self.objects@)).len()),
                ),
                "Content-MD5"@,
                base64_of(md5_of(encode_utf8(delete_body_of(self.objects@)))),
            ),
            r.query_pairs() == self.req.query_pairs(),
            r.oss == self.req.oss,
    {
        let mut body = String::from_str(
            "<?xml version=\"1.0\" encoding=\"UTF-8\"?><Delete><Quiet>false</Quiet>",
        );
        let ghost head = body@;
        let mut i: usize = 0;
        while i < self.objects.len()
            invariant
                i <= self.objects.len(),
                head == "<?xml version=\"1.0\" encoding=\"UTF-8\"?><Delete><Quiet>false</Quiet>"@,
                body@ == head + delete_entries(self.objects@.take(i as int)),
            decreases self.objects.len() - i,
        {
            let e = self.objects[i].to_string();
            body.append(e.as_str());
            assert(self.objects@.take(i + 1).drop_last() =~= self.objects@.take(i as int));
            assert(body@ =~= head + delete_entries(self.objects@.take(i + 1)));
            i = i + 1;
        }
        assert(self.objects@.take(i as int) =~= self.objects@);
        body.append("</Delete>");
        assert(body@ =~= delete_body_of(self.objects@));
        let bytes = body.as_str().as_bytes_vec();
        let md5 = content_md5(bytes.as_slice());
        let len = decimal_string(bytes.len() as u64);
        let mut req = self.req;
        req.insert_header("Content-Length", len.as_str());
        req.insert_header("Content-MD5", md5.as_str());
        req.set_body(bytes);
        req
    }
}

impl ObjectWithVersion {
    /// A copy with the same key and version.
    pub fn clone_object(&self) -> (r: ObjectWithVersion)
        ensures
            r == *self,
    {
        ObjectWithVersion {
            key: self.key.clone(),
            version_id: match &self.version_id {
                Some(v) => Some(v.clone()),
                None => None,
            },
        }
    }
}

/// One object reported by a delete request.
#[derive(Debug, Clone, PartialEq, Eq)]
pub struct DeletedObject {
    pub key: String,
    pub version_id: String,
    pub delete_marker: Option<String>,
    pub delete_marker_version_id: Option<String>,
}

/// A bucket's details.
#[derive(Debug, Clone, PartialEq, Eq)]
pub struct BucketInfo {
    pub access_monitor: String,
    pub comment: String,
    pub creation_date: String,
    pub cross_region_replication: String,
    pub data_redundancy_type: DataRedundancyType,
    pub extranet_endpoint: String,
    pub intranet_endpoint: String,
    pub location: String,
    pub name: String,
    pub resource_group_id: String,
    pub storage_class: StorageClass,
    pub transfer_acceleration: String,
    pub owner: Owner,
    pub access_control_list: AccessControlList,
    pub server_side_encryption_rule: ServerSideEncryptionRule,
    pub bucket_policy: BucketPolicy,
}

/// A bucket's access control.
#[derive(Debug, Clone, PartialEq, Eq)]
pub struct AccessControlList {
    pub grant: Acl,
}

/// A bucket's default server-side encryption.
#[derive(Debug, Clone, PartialEq, Eq)]
pub struct ServerSideEncryptionRule {
    pub sse_algorithm: String,
}

/// Where a bucket's access logs go.
#[derive(Debug, Clone, PartialEq, Eq)]
pub struct BucketPolicy {
    pub log_bucket: String,
    pub log_prefix: String,
}

/// A bucket's storage and object counts.
#[derive(Debug, Clone, PartialEq, Eq)]
pub struct BucketStat {
    pub storage: u64,
    pub object_count: u64,
    pub multipart_upload_count: u64,
    pub live_channel_count: u64,
    pub last_modified_time: u64,
    pub standard_storage: u64,
    pub standard_object_count: u64,
    pub infrequent_access_storage: u64,
    pub infrequent_access_real_storage: u64,
    pub infrequent_access_object_count: u64,
    pub archive_storage: u64,
    pub archive_real_storage: u64,
    pub archive_object_count: u64,
    pub cold_archive_storage: u64,
    pub cold_archive_real_storage: u64,
    pub cold_archive_object_count: u64,
    pub reserved_capacity_storage: u64,
    pub reserved_capacity_object_count: u64,
    pub deep_cold_archive_storage: u64,
    pub deep_cold_archive_real_storage: u64,
    pub deep_cold_archive_object_count: u64,
}

/// One page of an object listing.
#[derive(Debug, Clone, PartialEq, Eq)]
pub struct ObjectsList {
    pub next_continuation_token: Option<String>,
    pub is_truncated: bool,
    pub contents: Option<Vec<ObjectInfo>>,
    pub common_prefixes: Option<Vec<CommonPrefixes>>,
}

/// An object in a listing.
#[derive(Debug, Clone, PartialEq, Eq)]
pub struct ObjectInfo {
    pub key: String,
    pub last_modified: String,
    pub e_tag: String,
    pub type_field: String,
    pub size: u64,
    pub storage_class: StorageClass,
    pub restore_info: Option<String>,
    pub owner: Option<Owner>,
}

/// A group of keys sharing a prefix up to the delimiter.
#[derive(Debug, Clone, PartialEq, Eq)]
pub struct CommonPrefixes {
    pub prefix: String,
}

/// A listing of multipart uploads in progress.
#[derive(Debug, Clone, PartialEq, Eq)]
pub struct ListMultipartUploadsResult {
    pub is_truncated: bool,
    pub next_key_marker: String,
    pub next_upload_id_marker: String,
    pub upload: Option<Vec<Upload>>,
    pub common_prefixes: Option<Vec<CommonPrefixes>>,
}

/// A multipart upload in progress.
#[derive(Debug, Clone, PartialEq, Eq)]
pub struct Upload {
    pub key: String,
    pub upload_id: String,
    pub storage_class: String,
    pub initiated: String,
}

} // verus!
