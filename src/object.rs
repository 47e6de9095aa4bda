//! The object handle, the object-level requests, and pre-signed URLs.
use vstd::prelude::*;
use crate::canonical::Pair;
use crate::common::{
    invalid_metadata_key, is_metadata_key_char, url_encode, url_encoded, Acl, CacheControl,
    ContentDisposition, StorageClass,
};
use crate::error::Error;
use crate::multipart::{complete_manifest, manifest_xml, part_ordered, parts_view};
use crate::paginate::clamp_page_size;
use crate::request::{upsert, uri_of, with_date, Method, Oss, OssRequest, OssView};
use crate::common::RestoreTier;
use crate::text::{decimal, decimal_string, push_char, push_decimal, str_eq};

verus! {

/// A handle on one object.
#[derive(Debug, Clone)]
pub struct OssObject {
    pub oss: Oss,
}

/// The MIME type detected from the leading bytes of a content.
pub uninterp spec fn sniffed_mime(bytes: Seq<u8>) -> Option<Seq<char>>;

/// The MIME type guessed from a path's extension.
pub uninterp spec fn guessed_mime(path: Seq<char>) -> Option<Seq<char>>;

/// Relies on `infer::get` and `Type::mime_type`: the type depends on the
/// bytes alone.
#[verifier::external_body]
fn sniff_mime(bytes: &[u8]) -> (r: Option<String>)
    ensures
        opt_chars(r) == sniffed_mime(bytes@),
{
    infer::get(bytes).map(|t| t.mime_type().to_string())
}

/// Relies on `mime_guess::from_path(..).first()`: the guess depends on the
/// path alone.
#[verifier::external_body]
fn guess_mime(path: &str) -> (r: Option<String>)
    ensures
        opt_chars(r) == guessed_mime(path@),
{
    mime_guess::from_path(path).first().map(|m| m.to_string())
}

pub open spec fn opt_chars(o: Option<String>) -> Option<Seq<char>> {
    match o {
        Some(s) => Some(s@),
        None => None,
    }
}

/// The content type to send: the one set, else the one detected from the
/// content, else the one guessed from the key, else `application/octet-stream`.
pub open spec fn content_type_of(
    set: Option<Seq<char>>,
    sniffed: Option<Seq<char>>,
    key: Seq<char>,
) -> Seq<char> {
    match set {
        Some(m) => m,
        None => match sniffed {
            Some(m) => m,
            None => match guessed_mime(key) {
                Some(m) => m,
                None => "application/octet-stream"@,
            },
        },
    }
}

/// Picks the content type, given what was detected from the content.
pub fn choose_content_type(set: Option<&str>, sniffed: Option<String>, key: &str) -> (r: String)
    ensures
        r@ == content_type_of(
            match set {
                Some(m) => Some(m@),
                None => None,
            },
            opt_chars(sniffed),
            key@,
        ),
{
    match set {
        Some(m) => String::from_str(m),
        None => match sniffed {
            Some(m) => m,
            None => match guess_mime(key) {
                Some(m) => m,
                None => String::from_str("application/octet-stream"),
            },
        },
    }
}

/// Picks the content type of an in-memory content.
pub fn content_type_for(set: Option<&str>, content: &[u8], key: &str) -> (r: String)
    ensures
        r@ == content_type_of(
            match set {
                Some(m) => Some(m@),
                None => None,
            },
            sniffed_mime(content@),
            key@,
        ),
{
    let sniffed = sniff_mime(content);
    choose_content_type(set, sniffed, key)
}

pub open spec fn tag_text(t: Pair) -> Seq<char> {
    if t.1.len() == 0 {
        url_encoded(t.0)
    } else {
        url_encoded(t.0) + seq!['='] + url_encoded(t.1)
    }
}

/// The `x-oss-tagging` value: the encoded tags joined by `&`.
pub open spec fn tagging_of(s: Seq<Pair>) -> Seq<char>
    decreases s.len(),
{
    if s.len() == 0 {
        seq![]
    } else if s.len() == 1 {
        tag_text(s[0])
    } else {
        tagging_of(s.drop_last()) + seq!['&'] + tag_text(s.last())
    }
}

/// Renders the `x-oss-tagging` value.
pub fn tagging(tags: &Vec<(String, String)>) -> (r: String)
    ensures
        r@ == tagging_of(crate::canonical::pairs_view(tags@)),
{
    let mut out = String::new();
    let mut i: usize = 0;
    while i < tags.len()
        invariant
            i <= tags.len(),
            out@ == tagging_of(crate::canonical::pairs_view(tags@.take(i as int))),
        decreases tags.len() - i,
    {
        proof {
            crate::canonical::lemma_pairs_view_push(tags@, i as int);
        }
        if i > 0 {
            push_char(&mut out, '&');
        }
        let k = url_encode(tags[i].0.as_str());
        out.append(k.as_str());
        if tags[i].1.unicode_len() > 0 {
            push_char(&mut out, '=');
            let v = url_encode(tags[i].1.as_str());
            out.append(v.as_str());
        }
        proof {
            if i == 0 {
                assert(crate::canonical::pairs_view(tags@.take(1)).len() == 1);
            }
        }
        i = i + 1;
    }
    assert(tags@.take(i as int) =~= tags@);
    out
}

/// Options of a write: put, append, or the start of a multipart upload.
#[derive(Debug)]
pub struct ObjectWrite {
    pub req: OssRequest,
    pub mime: Option<String>,
    pub tags: Vec<(String, String)>,
}

pub type PutObject = ObjectWrite;

pub type AppendObject = ObjectWrite;

pub type InitUpload = ObjectWrite;

impl ObjectWrite {
    pub open spec fn wf(&self) -> bool {
        self.req.wf() && crate::canonical::names_distinct(crate::canonical::pairs_view(self.tags@))
    }

    fn with_request(req: OssRequest) -> (r: ObjectWrite)
        requires
            req.wf(),
        ensures
            r.wf(),
            r.req == req,
            r.mime is None,
            r.tags@.len() == 0,
    {
        let w = ObjectWrite { req, mime: None, tags: Vec::new() };
        assert(crate::canonical::pairs_view(w.tags@) =~= Seq::<Pair>::empty());
        w
    }

    /// Sets the content type.
    pub fn set_mime(self, mime: &str) -> (r: ObjectWrite)
        requires
            self.wf(),
        ensures
            r.wf(),
            opt_chars(r.mime) == Some(mime@),
            r.req == self.req,
            r.tags == self.tags,
    {
        let mut s = self;
        s.mime = Some(String::from_str(mime));
        s
    }

    fn header(self, name: &str, value: &str) -> (r: ObjectWrite)
        requires
            self.wf(),
        ensures
            r.wf(),
            r.req.header_pairs() == upsert(self.req.header_pairs(), name@, value@),
            r.req.query_pairs() == self.req.query_pairs(),
            r.req.oss == self.req.oss,
            r.mime == self.mime,
            r.tags == self.tags,
    {
        let mut s = self;
        s.req.insert_header(name, value);
        s
    }

    pub fn set_acl(self, acl: Acl) -> (r: ObjectWrite)
        requires
            self.wf(),
        ensures
            r.wf(),
            r.req.header_pairs() == upsert(self.req.header_pairs(), "x-oss-object-acl"@, acl.text()),
            r.req.query_pairs() == self.req.query_pairs(),
            r.req.oss == self.req.oss,
            r.mime == self.mime,
            r.tags == self.tags,
    {
        let v = acl.to_string();
        self.header("x-oss-object-acl", v.as_str())
    }

    pub fn set_storage_class(self, storage_class: StorageClass) -> (r: ObjectWrite)
        requires
            self.wf(),
        ensures
            r.wf(),
            r.req.header_pairs() == upsert(
                self.req.header_pairs(),
                "x-oss-storage-class"@,
                storage_class.text(),
            ),
            r.req.query_pairs() == self.req.query_pairs(),
            r.req.oss == self.req.oss,
            r.mime == self.mime,
            r.tags == self.tags,
    {
        let v = storage_class.to_string();
        self.header("x-oss-storage-class", v.as_str())
    }

    pub fn set_cache_control(self, cache_control: CacheControl) -> (r: ObjectWrite)
        requires
            self.wf(),
        ensures
            r.wf(),
            r.req.header_pairs() == upsert(
                self.req.header_pairs(),
                "cache-control"@,
                cache_control.text(),
            ),
            r.req.query_pairs() == self.req.query_pairs(),
            r.req.oss == self.req.oss,
            r.mime == self.mime,
            r.tags == self.tags,
    {
        let v = cache_control.to_string();
        self.header("cache-control", v.as_str())
    }

    pub fn set_content_disposition(self, content_disposition: ContentDisposition) -> (r:
        ObjectWrite)
        requires
            self.wf(),
        ensures
            r.wf(),
            r.req.header_pairs() == upsert(
                self.req.header_pairs(),
                "content-disposition"@,
                content_disposition.text(),
            ),
            r.req.query_pairs() == self.req.query_pairs(),
            r.req.oss == self.req.oss,
            r.mime == self.mime,
            r.tags == self.tags,
    {
        let v = content_disposition.to_string();
        self.header("content-disposition", v.as_str())
    }

    /// Refuses to overwrite an object of the same key.
    pub fn forbid_overwrite(self) -> (r: ObjectWrite)
        requires
            self.wf(),
        ensures
            r.wf(),
            r.req.header_pairs() == upsert(
                self.req.header_pairs(),
                "x-oss-forbid-overwrite"@,
                "true"@,
            ),
            r.req.query_pairs() == self.req.query_pairs(),
            r.req.oss == self.req.oss,
            r.mime == self.mime,
            r.tags == self.tags,
    {
        self.header("x-oss-forbid-overwrite", "true")
    }

    /// Adds user metadata `x-oss-meta-<key>`. A key with a character other
    /// than an ASCII letter, a digit or `-` is dropped.
    pub fn set_meta(self, key: &str, value: &str) -> (r: ObjectWrite)
        requires
            self.wf(),
        ensures
            r.wf(),
            (forall|i: int| 0 <= i < key@.len() ==> is_metadata_key_char(#[trigger] key@[i]))
                ==> r.req.header_pairs() == upsert(
                self.req.header_pairs(),
                "x-oss-meta-"@ + key@,
                value@,
            ),
            (exists|i: int| 0 <= i < key@.len() && !is_metadata_key_char(#[trigger] key@[i]))
                ==> r.req.header_pairs() == self.req.header_pairs(),
    {
        if invalid_metadata_key(key) {
            return self;
        }
        let mut name = String::from_str("x-oss-meta-");
        name.append(key);
        self.header(name.as_str(), value)
    }

    /// Where an append starts: the current length of the appendable object.
    pub fn set_position(self, position: u64) -> (r: ObjectWrite)
        requires
            self.wf(),
        ensures
            r.wf(),
            r.req.query_pairs() == upsert(self.req.query_pairs(), "position"@, decimal(position as nat)),
            r.req.header_pairs() == self.req.header_pairs(),
            r.mime == self.mime,
            r.tags == self.tags,
    {
        let mut s = self;
        let v = decimal_string(position);
        s.req.insert_query("position", v.as_str());
        s
    }

    /// Adds a tag; a tag of the same key is replaced.
    pub fn set_tagging(self, key: &str, value: &str) -> (r: ObjectWrite)
        requires
            self.wf(),
        ensures
            r.wf(),
            crate::canonical::pairs_view(r.tags@) == upsert(
                crate::canonical::pairs_view(self.tags@),
                key@,
                value@,
            ),
            r.req == self.req,
    {
        let mut s = self;
        crate::request::upsert_pair(&mut s.tags, key, value);
        s
    }

    /// The request with its tags in `x-oss-tagging` (when there are any) and
    /// the given content type in `Content-Type`.
    pub fn into_request(self, content_type: &str) -> (r: OssRequest)
        requires
            self.wf(),
        ensures
            r.wf(),
            r.query_pairs() == self.req.query_pairs(),
            r.oss == self.req.oss,
            r.header_pairs() == if self.tags@.len() == 0 {
                upsert(self.req.header_pairs(), "Content-Type"@, content_type@)
            } else {
                upsert(
                    upsert(
                        self.req.header_pairs(),
                        "x-oss-tagging"@,
                        tagging_of(crate::canonical::pairs_view(self.tags@)),
                    ),
                    "Content-Type"@,
                    content_type@,
                )
            },
    {
        let mut req = self.req;
        if self.tags.len() > 0 {
            let t = tagging(&self.tags);
            req.insert_header("x-oss-tagging", t.as_str());
        }
        req.insert_header("Content-Type", content_type);
        req
    }
}

/// Checks the size of an object uploaded in one request: below 5 GB.
pub fn check_put_size(size: u64) -> (r: Result<(), Error>)
    ensures
        r is Ok <==> size < 5_000_000_000,
        r matches Err(e) ==> e == Error::FileTooBig,
{
    if size >= 5_000_000_000 {
        Err(Error::FileTooBig)
    } else {
        Ok(())
    }
}

/// Checks the size of appended content: below 5 GiB.
pub fn check_append_size(size: u64) -> (r: Result<(), Error>)
    ensures
        r is Ok <==> size < 5_368_709_120,
        r matches Err(e) ==> e == Error::InvalidFileSize,
{
    if size >= 5_368_709_120 {
        Err(Error::InvalidFileSize)
    } else {
        Ok(())
    }
}

impl OssObject {
    pub fn new(oss: Oss, object: &str) -> (r: OssObject)
        ensures
            r.oss@ == (OssView { object: Some(object@), ..oss@ }),
    {
        let mut oss = oss;
        oss.set_object(object);
        OssObject { oss }
    }

    /// A request on the object with no header and no parameter.
    pub fn request(&self, method: Method) -> (r: OssRequest)
        ensures
            r.wf(),
            r.oss@ == self.oss@,
            r.method == method,
            r.query_pairs().len() == 0,
            r.header_pairs().len() == 0,
            r.body@.len() == 0,
    {
        let req = OssRequest::new(self.oss.duplicate(), method);
        assert(req.query_pairs() =~= Seq::<Pair>::empty());
        assert(req.header_pairs() =~= Seq::<Pair>::empty());
        req
    }

    /// A request on the object selecting one sub-resource.
    pub fn sub_resource_request(&self, method: Method, name: &str) -> (r: OssRequest)
        ensures
            r.wf(),
            r.oss@ == self.oss@,
            r.method == method,
            r.query_pairs() == seq![(name@, ""@)],
            r.header_pairs().len() == 0,
            r.body@.len() == 0,
    {
        let mut req = self.request(method);
        req.insert_query(name, "");
        proof {
            assert(req.query_pairs() =~= seq![(name@, ""@)]);
        }
        req
    }

    /// Uploads the object in one request.
    pub fn put_object(&self) -> (r: PutObject)
        ensures
            r.wf(),
            r.req.oss@ == self.oss@,
            r.req.method == Method::Put,
    {
        ObjectWrite::with_request(self.request(Method::Put))
    }

    /// Appends to an appendable object, from position 0 until set otherwise.
    pub fn append_object(&self) -> (r: AppendObject)
        ensures
            r.wf(),
            r.req.oss@ == self.oss@,
            r.req.method == Method::Post,
            r.req.query_pairs() == seq![("append"@, ""@), ("position"@, "0"@)],
    {
        let mut req = self.sub_resource_request(Method::Post, "append");
        req.insert_query("position", "0");
        proof {
            reveal_strlit("position");
            reveal_strlit("append");
            assert("append"@[0] != "position"@[0]);
            assert(req.query_pairs() =~= seq![("append"@, ""@), ("position"@, "0"@)]);
        }
        ObjectWrite::with_request(req)
    }

    /// Starts a multipart upload.
    pub fn multipart_init_upload(&self) -> (r: InitUpload)
        ensures
            r.wf(),
            r.req.oss@ == self.oss@,
            r.req.method == Method::Post,
            r.req.query_pairs() == seq![("uploads"@, ""@)],
    {
        ObjectWrite::with_request(self.sub_resource_request(Method::Post, "uploads"))
    }

    /// Uploads part `part_number` of an upload.
    pub fn multipart_upload_part(&self, part_number: u32, upload_id: &str) -> (r: OssRequest)
        ensures
            r.wf(),
            r.oss@ == self.oss@,
            r.method == Method::Put,
            r.query_pairs() == seq![
                ("partNumber"@, decimal(part_number as nat)),
                ("uploadId"@, upload_id@),
            ],
    {
        let mut req = self.request(Method::Put);
        let n = decimal_string(part_number as u64);
        req.insert_query("partNumber", n.as_str());
        req.insert_query("uploadId", upload_id);
        proof {
            reveal_strlit("partNumber");
            reveal_strlit("uploadId");
            assert("partNumber"@[0] != "uploadId"@[0]);
            assert(req.query_pairs() =~= seq![
                ("partNumber"@, decimal(part_number as nat)),
                ("uploadId"@, upload_id@),
            ]);
        }
        req
    }

    /// Copies a range of another object into part `part_number`.
    pub fn multipart_copy_part(&self, part_number: u32, upload_id: &str, copy_source: &str) -> (r:
        CopyToPart)
        ensures
            r.req.wf(),
            r.req.oss@ == self.oss@,
            r.req.method == Method::Put,
            r.req.query_pairs() == seq![
                ("partNumber"@, decimal(part_number as nat)),
                ("uploadId"@, upload_id@),
            ],
            r.req.header_pairs() == seq![("x-oss-copy-source"@, copy_source@)],
    {
        let mut req = self.request(Method::Put);
        let n = decimal_string(part_number as u64);
        req.insert_query("partNumber", n.as_str());
        req.insert_query("uploadId", upload_id);
        proof {
            reveal_strlit("partNumber");
            reveal_strlit("uploadId");
            assert("partNumber"@[0] != "uploadId"@[0]);
            assert(req.query_pairs() =~= seq![
                ("partNumber"@, decimal(part_number as nat)),
                ("uploadId"@, upload_id@),
            ]);
        }
        assert(req.header_pairs() =~= Seq::<Pair>::empty());
        req.insert_header("x-oss-copy-source", copy_source);
        assert(req.header_pairs() =~= seq![("x-oss-copy-source"@, copy_source@)]);
        CopyToPart { req }
    }

    /// Completes an upload: the manifest of the given parts, in ascending
    /// part-number order, becomes the body. Refused locally when the parts
    /// are empty, hold an invalid number or repeat one.
    pub fn multipart_complete_upload(&self, upload_id: &str, parts: &Vec<(u32, String)>) -> (r:
        Result<OssRequest, Error>)
        ensures
            r is Ok <==> complete_manifest_ok(parts_view(parts@)),
            r matches Ok(req) ==> req.wf() && req.oss@ == self.oss@ && req.method == Method::Post
                && req.query_pairs() == seq![("uploadId"@, upload_id@)]
                && req.body@ == vstd::utf8::encode_utf8(
                manifest_xml(part_ordered(parts_view(parts@))),
            ),
    {
        let manifest = complete_manifest(parts)?;
        let mut req = self.request(Method::Post);
        req.insert_query("uploadId", upload_id);
        assert(req.query_pairs() =~= seq![("uploadId"@, upload_id@)]);
        let bytes = manifest.as_str().as_bytes_vec();
        let len = decimal_string(bytes.len() as u64);
        req.insert_header("Content-Length", len.as_str());
        req.set_body(bytes);
        Ok(req)
    }

    /// Aborts an upload.
    pub fn multipart_abort_upload(&self, upload_id: &str) -> (r: OssRequest)
        ensures
            r.wf(),
            r.oss@ == self.oss@,
            r.method == Method::Delete,
            r.query_pairs() == seq![("uploadId"@, upload_id@)],
    {
        let mut req = self.request(Method::Delete);
        req.insert_query("uploadId", upload_id);
        assert(req.query_pairs() =~= seq![("uploadId"@, upload_id@)]);
        req
    }

    /// Lists the parts uploaded so far.
    pub fn multipart_list_parts(&self, upload_id: &str) -> (r: ListParts)
        ensures
            r.req.wf(),
            r.req.oss@ == self.oss@,
            r.req.method == Method::Get,
            r.req.query_pairs() == seq![("uploadId"@, upload_id@)],
    {
        let mut req = self.request(Method::Get);
        req.insert_query("uploadId", upload_id);
        assert(req.query_pairs() =~= seq![("uploadId"@, upload_id@)]);
        ListParts { req }
    }

    /// Deletes the object.
    pub fn del_object(&self) -> (r: OssRequest)
        ensures
            r.wf(),
            r.oss@ == self.oss@,
            r.method == Method::Delete,
            r.query_pairs().len() == 0,
            r.header_pairs().len() == 0,
    {
        self.request(Method::Delete)
    }

    /// Reads the object's tags.
    pub fn get_object_tagging(&self) -> (r: OssRequest)
        ensures
            r.wf(),
            r.oss@ == self.oss@,
            r.method == Method::Get,
            r.query_pairs() == seq![("tagging"@, ""@)],
            r.header_pairs().len() == 0,
    {
        self.sub_resource_request(Method::Get, "tagging")
    }

    /// Removes the object's tags.
    pub fn del_object_tagging(&self) -> (r: OssRequest)
        ensures
            r.wf(),
            r.oss@ == self.oss@,
            r.method == Method::Delete,
            r.query_pairs() == seq![("tagging"@, ""@)],
            r.header_pairs().len() == 0,
    {
        self.sub_resource_request(Method::Delete, "tagging")
    }

    /// Reads the object's basic metadata.
    pub fn get_object_meta(&self) -> (r: OssRequest)
        ensures
            r.wf(),
            r.oss@ == self.oss@,
            r.method == Method::Head,
            r.query_pairs() == seq![("objectMeta"@, ""@)],
            r.header_pairs().len() == 0,
    {
        self.sub_resource_request(Method::Head, "objectMeta")
    }

    /// Reads the object's ACL.
    pub fn get_object_acl(&self) -> (r: OssRequest)
        ensures
            r.wf(),
            r.oss@ == self.oss@,
            r.method == Method::Get,
            r.query_pairs() == seq![("acl"@, ""@)],
            r.header_pairs().len() == 0,
    {
        self.sub_resource_request(Method::Get, "acl")
    }

    /// Reads the target of a symbolic link object.
    pub fn get_symlink(&self) -> (r: OssRequest)
        ensures
            r.wf(),
            r.oss@ == self.oss@,
            r.method == Method::Get,
            r.query_pairs() == seq![("symlink"@, ""@)],
            r.header_pairs().len() == 0,
    {
        self.sub_resource_request(Method::Get, "symlink")
    }

    /// Downloads the object.
    pub fn get_object(&self) -> (r: GetObject)
        ensures
            r.req.wf(),
            r.req.oss@ == self.oss@,
            r.req.method == Method::Get,
            r.req.query_pairs().len() == 0,
            r.req.header_pairs().len() == 0,
    {
        ObjectRead { req: self.request(Method::Get) }
    }

    /// Reads the object's metadata headers.
    pub fn head_object(&self) -> (r: HeadObject)
        ensures
            r.req.wf(),
            r.req.oss@ == self.oss@,
            r.req.method == Method::Head,
            r.req.query_pairs().len() == 0,
            r.req.header_pairs().len() == 0,
    {
        ObjectRead { req: self.request(Method::Head) }
    }

    /// Copies `copy_source` (`/bucket/key`) onto the object.
    pub fn copy_object(&self, copy_source: &str) -> (r: CopyObject)
        ensures
            r.wf(),
            r.req.oss@ == self.oss@,
            r.req.method == Method::Put,
            r.req.header_pairs() == seq![("x-oss-copy-source"@, copy_source@)],
            r.tags@.len() == 0,
    {
        let mut req = self.request(Method::Put);
        req.insert_header("x-oss-copy-source", copy_source);
        assert(req.header_pairs() =~= seq![("x-oss-copy-source"@, copy_source@)]);
        let c = CopyObject { req, tags: Vec::new() };
        assert(crate::canonical::pairs_view(c.tags@) =~= Seq::<Pair>::empty());
        c
    }

    /// Creates the object as a symbolic link to `target`.
    pub fn put_symlink(&self, target: &str) -> (r: PutSymlink)
        ensures
            r.req.wf(),
            r.req.oss@ == self.oss@,
            r.req.method == Method::Put,
            r.req.query_pairs() == seq![("symlink"@, ""@)],
            r.req.header_pairs() == seq![("x-oss-symlink-target"@, target@)],
    {
        let mut req = self.sub_resource_request(Method::Put, "symlink");
        req.insert_header("x-oss-symlink-target", target);
        assert(req.header_pairs() =~= seq![("x-oss-symlink-target"@, target@)]);
        PutSymlink { req }
    }

    /// Restores an archived object, for `days` days when given, at `tier`
    /// when given.
    pub fn restore_object(&self, days: Option<u32>, tier: Option<RestoreTier>) -> (r: OssRequest)
        ensures
            r.wf(),
            r.oss@ == self.oss@,
            r.method == Method::Post,
            r.query_pairs() == seq![("restore"@, ""@)],
            match restore_body_of(days, tier) {
                Some(b) => r.body@ == vstd::utf8::encode_utf8(b),
                None => r.body@.len() == 0,
            },
    {
        let mut req = self.sub_resource_request(Method::Post, "restore");
        match restore_body(days, tier) {
            Some(b) => {
                let bytes = b.as_str().as_bytes_vec();
                req.set_body(bytes);
            },
            None => {},
        }
        req
    }

    /// Replaces the object's tags.
    pub fn put_object_tagging(&self, tags: &Vec<(String, String)>) -> (r: OssRequest)
        ensures
            r.wf(),
            r.oss@ == self.oss@,
            r.method == Method::Put,
            r.query_pairs() == seq![("tagging"@, ""@)],
            r.body@ == vstd::utf8::encode_utf8(tagging_body_of(crate::canonical::pairs_view(tags@))),
    {
        let mut req = self.sub_resource_request(Method::Put, "tagging");
        let body = tagging_body(tags);
        let bytes = body.as_str().as_bytes_vec();
        let len = decimal_string(bytes.len() as u64);
        req.insert_header("Content-Length", len.as_str());
        req.set_body(bytes);
        req
    }

    /// Sets the object's ACL.
    pub fn put_object_acl(&self, acl: Acl) -> (r: OssRequest)
        ensures
            r.wf(),
            r.oss@ == self.oss@,
            r.method == Method::Put,
            r.query_pairs() == seq![("acl"@, ""@)],
            r.header_pairs() == seq![("x-oss-object-acl"@, acl.text())],
    {
        let mut req = self.sub_resource_request(Method::Put, "acl");
        let v = acl.to_string();
        req.insert_header("x-oss-object-acl", v.as_str());
        assert(req.header_pairs() =~= seq![("x-oss-object-acl"@, acl.text())]);
        req
    }

    /// Builds a pre-signed URL for the object.
    pub fn get_object_url(&self) -> (r: GetObjectUrl)
        ensures
            r.req.wf(),
            r.req.oss@ == self.oss@,
            r.req.method == Method::Get,
            r.req.query_pairs().len() == 0,
            r.req.header_pairs().len() == 0,
    {
        GetObjectUrl { req: self.request(Method::Get) }
    }
}

/// Whether `complete_manifest` accepts the parts.
pub open spec fn complete_manifest_ok(s: Seq<crate::multipart::PartRef>) -> bool {
    s.len() > 0 && crate::multipart::first_invalid_part(s) is None
        && crate::multipart::numbers_distinct(s)
}

/// A read of an object: a download, or a HEAD for its metadata, with an
/// optional range and preconditions.
#[derive(Debug)]
pub struct ObjectRead {
    pub req: OssRequest,
}

pub type GetObject = ObjectRead;

pub type HeadObject = ObjectRead;

impl ObjectRead {
    /// Bytes `start` to `end` (inclusive; to the end when none).
    pub fn set_range(self, start: u64, end: Option<u64>) -> (r: ObjectRead)
        requires
            self.req.wf(),
        ensures
            r.req.wf(),
            r.req.header_pairs() == upsert(self.req.header_pairs(), "Range"@, range_of(start, end)),
            r.req.query_pairs() == self.req.query_pairs(),
    {
        let mut s = self;
        let v = range_value(start, end);
        s.req.insert_header("Range", v.as_str());
        s
    }

    /// Only if modified after `ts` (seconds since the Unix epoch).
    pub fn set_if_modified_since(self, ts: i64) -> (r: ObjectRead)
        requires
            self.req.wf(),
        ensures
            r.req.wf(),
            r.req.header_pairs() == with_date(self.req.header_pairs(), "If-Modified-Since"@, ts),
            r.req.query_pairs() == self.req.query_pairs(),
    {
        let mut s = self;
        s.req.insert_date_header("If-Modified-Since", ts);
        s
    }

    /// Only if not modified after `ts` (seconds since the Unix epoch).
    pub fn set_if_unmodified_since(self, ts: i64) -> (r: ObjectRead)
        requires
            self.req.wf(),
        ensures
            r.req.wf(),
            r.req.header_pairs() == with_date(self.req.header_pairs(), "If-Unmodified-Since"@, ts),
            r.req.query_pairs() == self.req.query_pairs(),
    {
        let mut s = self;
        s.req.insert_date_header("If-Unmodified-Since", ts);
        s
    }

    /// Only if the ETag matches.
    pub fn set_if_match(self, etag: &str) -> (r: ObjectRead)
        requires
            self.req.wf(),
        ensures
            r.req.wf(),
            r.req.header_pairs() == upsert(self.req.header_pairs(), "If-Match"@, etag@),
            r.req.query_pairs() == self.req.query_pairs(),
    {
        let mut s = self;
        s.req.insert_header("If-Match", etag);
        s
    }

    /// Only if the ETag does not match.
    pub fn set_if_none_match(self, etag: &str) -> (r: ObjectRead)
        requires
            self.req.wf(),
        ensures
            r.req.wf(),
            r.req.header_pairs() == upsert(self.req.header_pairs(), "If-None-Match"@, etag@),
            r.req.query_pairs() == self.req.query_pairs(),
    {
        let mut s = self;
        s.req.insert_header("If-None-Match", etag);
        s
    }
}

/// Copies another object (`/bucket/key`) onto this one.
#[derive(Debug)]
pub struct CopyObject {
    pub req: OssRequest,
    pub tags: Vec<(String, String)>,
}

impl CopyObject {
    pub open spec fn wf(&self) -> bool {
        self.req.wf() && crate::canonical::names_distinct(crate::canonical::pairs_view(self.tags@))
    }

    fn header(self, name: &str, value: &str) -> (r: CopyObject)
        requires
            self.wf(),
        ensures
            r.wf(),
            r.req.header_pairs() == upsert(self.req.header_pairs(), name@, value@),
            r.req.query_pairs() == self.req.query_pairs(),
            r.tags == self.tags,
    {
        let mut s = self;
        s.req.insert_header(name, value);
        s
    }

    /// Copies this version of the source.
    pub fn set_suorce_version_id(self, version_id: &str) -> (r: CopyObject)
        requires
            self.wf(),
        ensures
            r.wf(),
            r.req.header_pairs() == upsert(
                self.req.header_pairs(),
                "x-oss-copy-source-version-id"@,
                version_id@,
            ),
    {
        self.header("x-oss-copy-source-version-id", version_id)
    }

    pub fn set_acl(self, acl: Acl) -> (r: CopyObject)
        requires
            self.wf(),
        ensures
            r.wf(),
            r.req.header_pairs() == upsert(self.req.header_pairs(), "x-oss-object-acl"@, acl.text()),
    {
        let v = acl.to_string();
        self.header("x-oss-object-acl", v.as_str())
    }

    pub fn set_storage_class(self, storage_class: StorageClass) -> (r: CopyObject)
        requires
            self.wf(),
        ensures
            r.wf(),
            r.req.header_pairs() == upsert(
                self.req.header_pairs(),
                "x-oss-storage-class"@,
                storage_class.text(),
            ),
    {
        let v = storage_class.to_string();
        self.header("x-oss-storage-class", v.as_str())
    }

    /// Adds user metadata `x-oss-meta-<key>`; a key with a character other
    /// than an ASCII letter, a digit or `-` is dropped.
    pub fn set_meta(self, key: &str, value: &str) -> (r: CopyObject)
        requires
            self.wf(),
        ensures
            r.wf(),
            (forall|i: int| 0 <= i < key@.len() ==> is_metadata_key_char(#[trigger] key@[i]))
                ==> r.req.header_pairs() == upsert(
                self.req.header_pairs(),
                "x-oss-meta-"@ + key@,
                value@,
            ),
            (exists|i: int| 0 <= i < key@.len() && !is_metadata_key_char(#[trigger] key@[i]))
                ==> r.req.header_pairs() == self.req.header_pairs(),
    {
        if invalid_metadata_key(key) {
            return self;
        }
        let mut name = String::from_str("x-oss-meta-");
        name.append(key);
        self.header(name.as_str(), value)
    }

    /// Only if the source was modified after `ts`.
    pub fn set_if_modified_since(self, ts: i64) -> (r: CopyObject)
        requires
            self.wf(),
        ensures
            r.wf(),
            r.req.header_pairs() == with_date(
                self.req.header_pairs(),
                "x-oss-copy-source-if-modified-since"@,
                ts,
            ),
    {
        let mut s = self;
        s.req.insert_date_header("x-oss-copy-source-if-modified-since", ts);
        s
    }

    /// Only if the source was not modified after `ts`.
    pub fn set_if_unmodified_since(self, ts: i64) -> (r: CopyObject)
        requires
            self.wf(),
        ensures
            r.wf(),
            r.req.header_pairs() == with_date(
                self.req.header_pairs(),
                "x-oss-copy-source-if-unmodified-since"@,
                ts,
            ),
    {
        let mut s = self;
        s.req.insert_date_header("x-oss-copy-source-if-unmodified-since", ts);
        s
    }

    /// Only if the source's ETag matches.
    pub fn set_if_match(self, etag: &str) -> (r: CopyObject)
        requires
            self.wf(),
        ensures
            r.wf(),
            r.req.header_pairs() == upsert(
                self.req.header_pairs(),
                "x-oss-copy-source-if-match"@,
                etag@,
            ),
    {
        self.header("x-oss-copy-source-if-match", etag)
    }

    /// Only if the source's ETag does not match.
    pub fn set_if_none_match(self, etag: &str) -> (r: CopyObject)
        requires
            self.wf(),
        ensures
            r.wf(),
            r.req.header_pairs() == upsert(
                self.req.header_pairs(),
                "x-oss-copy-source-if-none-match"@,
                etag@,
            ),
    {
        self.header("x-oss-copy-source-if-none-match", etag)
    }

    /// Refuses to overwrite an existing object.
    pub fn forbid_overwrite(self) -> (r: CopyObject)
        requires
            self.wf(),
        ensures
            r.wf(),
            r.req.header_pairs() == upsert(
                self.req.header_pairs(),
                "x-oss-forbid-overwrite"@,
                "true"@,
            ),
    {
        self.header("x-oss-forbid-overwrite", "true")
    }

    /// Adds a tag; a tag of the same key is replaced.
    pub fn set_tagging(self, key: &str, value: &str) -> (r: CopyObject)
        requires
            self.wf(),
        ensures
            r.wf(),
            crate::canonical::pairs_view(r.tags@) == upsert(
                crate::canonical::pairs_view(self.tags@),
                key@,
                value@,
            ),
            r.req == self.req,
    {
        let mut s = self;
        crate::request::upsert_pair(&mut s.tags, key, value);
        s
    }

    /// Takes the metadata given here rather than the source's.
    pub fn set_metadata_directive(self) -> (r: CopyObject)
        requires
            self.wf(),
        ensures
            r.wf(),
            r.req.header_pairs() == upsert(
                self.req.header_pairs(),
                "x-oss-metadata-directive"@,
                "REPLACE"@,
            ),
    {
        self.header("x-oss-metadata-directive", "REPLACE")
    }

    /// Takes the tags given here rather than the source's.
    pub fn set_tagging_directive(self) -> (r: CopyObject)
        requires
            self.wf(),
        ensures
            r.wf(),
            r.req.header_pairs() == upsert(
                self.req.header_pairs(),
                "x-oss-tagging-directive"@,
                "Replace"@,
            ),
    {
        self.header("x-oss-tagging-directive", "Replace")
    }

    /// The request, with the tags in `x-oss-tagging` when there are any.
    pub fn into_request(self) -> (r: OssRequest)
        requires
            self.wf(),
        ensures
            r.wf(),
            r.query_pairs() == self.req.query_pairs(),
            r.header_pairs() == if self.tags@.len() == 0 {
                self.req.header_pairs()
            } else {
                upsert(
                    self.req.header_pairs(),
                    "x-oss-tagging"@,
                    tagging_of(crate::canonical::pairs_view(self.tags@)),
                )
            },
    {
        let mut req = self.req;
        if self.tags.len() > 0 {
            let t = tagging(&self.tags);
            req.insert_header("x-oss-tagging", t.as_str());
        }
        req
    }
}

/// Copies a range of another object into a part.
#[derive(Debug)]
pub struct CopyToPart {
    pub req: OssRequest,
}

impl CopyToPart {
    /// Bytes `start` to `end` of the source (inclusive; to the end when none).
    pub fn set_source_range(self, start: u64, end: Option<u64>) -> (r: CopyToPart)
        requires
            self.req.wf(),
        ensures
            r.req.wf(),
            r.req.header_pairs() == upsert(
                self.req.header_pairs(),
                "x-oss-copy-source-range"@,
                range_of(start, end),
            ),
            r.req.query_pairs() == self.req.query_pairs(),
    {
        let mut s = self;
        let v = range_value(start, end);
        s.req.insert_header("x-oss-copy-source-range", v.as_str());
        s
    }

    /// Only if the source was modified after `ts`.
    pub fn set_if_modified_since(self, ts: i64) -> (r: CopyToPart)
        requires
            self.req.wf(),
        ensures
            r.req.wf(),
            r.req.header_pairs() == with_date(
                self.req.header_pairs(),
                "x-oss-copy-source-if-modified-since"@,
                ts,
            ),
            r.req.query_pairs() == self.req.query_pairs(),
    {
        let mut s = self;
        s.req.insert_date_header("x-oss-copy-source-if-modified-since", ts);
        s
    }

    /// Only if the source was not modified after `ts`.
    pub fn set_if_unmodified_since(self, ts: i64) -> (r: CopyToPart)
        requires
            self.req.wf(),
        ensures
            r.req.wf(),
            r.req.header_pairs() == with_date(
                self.req.header_pairs(),
                "x-oss-copy-source-if-unmodified-since"@,
                ts,
            ),
            r.req.query_pairs() == self.req.query_pairs(),
    {
        let mut s = self;
        s.req.insert_date_header("x-oss-copy-source-if-unmodified-since", ts);
        s
    }

    /// Only if the source's ETag matches.
    pub fn set_if_match(self, etag: &str) -> (r: CopyToPart)
        requires
            self.req.wf(),
        ensures
            r.req.wf(),
            r.req.header_pairs() == upsert(
                self.req.header_pairs(),
                "x-oss-copy-source-if-match"@,
                etag@,
            ),
            r.req.query_pairs() == self.req.query_pairs(),
    {
        let mut s = self;
        s.req.insert_header("x-oss-copy-source-if-match", etag);
        s
    }

    /// Only if the source's ETag does not match.
    pub fn set_if_none_match(self, etag: &str) -> (r: CopyToPart)
        requires
            self.req.wf(),
        ensures
            r.req.wf(),
            r.req.header_pairs() == upsert(
                self.req.header_pairs(),
                "x-oss-copy-source-if-none-match"@,
                etag@,
            ),
            r.req.query_pairs() == self.req.query_pairs(),
    {
        let mut s = self;
        s.req.insert_header("x-oss-copy-source-if-none-match", etag);
        s
    }
}

/// Creates a symbolic link object.
#[derive(Debug)]
pub struct PutSymlink {
    pub req: OssRequest,
}

impl PutSymlink {
    pub fn set_acl(self, acl: Acl) -> (r: PutSymlink)
        requires
            self.req.wf(),
        ensures
            r.req.wf(),
            r.req.header_pairs() == upsert(self.req.header_pairs(), "x-oss-object-acl"@, acl.text()),
            r.req.query_pairs() == self.req.query_pairs(),
    {
        let mut s = self;
        let v = acl.to_string();
        s.req.insert_header("x-oss-object-acl", v.as_str());
        s
    }

    pub fn set_storage_class(self, storage_class: StorageClass) -> (r: PutSymlink)
        requires
            self.req.wf(),
        ensures
            r.req.wf(),
            r.req.header_pairs() == upsert(
                self.req.header_pairs(),
                "x-oss-storage-class"@,
                storage_class.text(),
            ),
            r.req.query_pairs() == self.req.query_pairs(),
    {
        let mut s = self;
        let v = storage_class.to_string();
        s.req.insert_header("x-oss-storage-class", v.as_str());
        s
    }

    /// Refuses to overwrite an existing object.
    pub fn forbid_overwrite(self) -> (r: PutSymlink)
        requires
            self.req.wf(),
        ensures
            r.req.wf(),
            r.req.header_pairs() == upsert(
                self.req.header_pairs(),
                "x-oss-forbid-overwrite"@,
                "true"@,
            ),
            r.req.query_pairs() == self.req.query_pairs(),
    {
        let mut s = self;
        s.req.insert_header("x-oss-forbid-overwrite", "true");
        s
    }
}

/// Lists the parts of an upload.
#[derive(Debug)]
pub struct ListParts {
    pub req: OssRequest,
}

impl ListParts {
    /// At most this many parts, clamped into 1..=1000.
    pub fn set_max_parts(self, max_parts: u32) -> (r: ListParts)
        requires
            self.req.wf(),
        ensures
            r.req.wf(),
            r.req.query_pairs() == upsert(
                self.req.query_pairs(),
                "max-parts"@,
                decimal(
                    (if max_parts < 1 {
                        1
                    } else if max_parts > 1000 {
                        1000
                    } else {
                        max_parts
                    }) as nat,
                ),
            ),
    {
        let mut s = self;
        let n = clamp_page_size(max_parts);
        let v = decimal_string(n as u64);
        s.req.insert_query("max-parts", v.as_str());
        s
    }

    /// Start after this part number.
    pub fn set_part_number_marker(self, marker: u32) -> (r: ListParts)
        requires
            self.req.wf(),
        ensures
            r.req.wf(),
            r.req.query_pairs() == upsert(
                self.req.query_pairs(),
                "part-number-marker"@,
                decimal(marker as nat),
            ),
    {
        let mut s = self;
        let v = decimal_string(marker as u64);
        s.req.insert_query("part-number-marker", v.as_str());
        s
    }
}

/// Builds a pre-signed URL: a URL that carries its own signature and expiry.
#[derive(Debug)]
pub struct GetObjectUrl {
    pub req: OssRequest,
}

impl GetObjectUrl {
    fn query(self, name: &str, value: &str) -> (r: GetObjectUrl)
        requires
            self.req.wf(),
        ensures
            r.req.wf(),
            r.req.query_pairs() == upsert(self.req.query_pairs(), name@, value@),
            r.req.header_pairs() == self.req.header_pairs(),
            r.req.oss == self.req.oss,
            r.req.method == self.req.method,
    {
        let mut s = self;
        s.req.insert_query(name, value);
        s
    }

    /// Only requests from this address, within `subnet_mask` bits.
    pub fn set_source_ip(self, source_ip: &str, subnet_mask: u8) -> (r: GetObjectUrl)
        requires
            self.req.wf(),
        ensures
            r.req.wf(),
            r.req.query_pairs() == upsert(
                upsert(self.req.query_pairs(), "x-oss-ac-source-ip"@, source_ip@),
                "x-oss-ac-subnet-mask"@,
                decimal(subnet_mask as nat),
            ),
    {
        let m = decimal_string(subnet_mask as u64);
        self.query("x-oss-ac-source-ip", source_ip).query("x-oss-ac-subnet-mask", m.as_str())
    }

    /// Only requests from this VPC.
    pub fn set_vpc_id(self, vpc_id: &str) -> (r: GetObjectUrl)
        requires
            self.req.wf(),
        ensures
            r.req.wf(),
            r.req.query_pairs() == upsert(self.req.query_pairs(), "x-oss-ac-vpc-id"@, vpc_id@),
    {
        self.query("x-oss-ac-vpc-id", vpc_id)
    }

    /// Allows forwarded requests.
    pub fn forward_allow(self) -> (r: GetObjectUrl)
        requires
            self.req.wf(),
        ensures
            r.req.wf(),
            r.req.query_pairs() == upsert(
                self.req.query_pairs(),
                "x-oss-ac-forward-allow"@,
                "true"@,
            ),
    {
        self.query("x-oss-ac-forward-allow", "true")
    }

    /// The content type the object is served with, with an optional charset.
    pub fn set_response_mime(self, mime: &str, charset: Option<&str>) -> (r: GetObjectUrl)
        requires
            self.req.wf(),
        ensures
            r.req.wf(),
            r.req.query_pairs() == upsert(
                self.req.query_pairs(),
                "response-content-type"@,
                match charset {
                    Some(c) => mime@ + ";charset="@ + c@,
                    None => mime@,
                },
            ),
    {
        let mut v = String::from_str(mime);
        match charset {
            Some(c) => {
                v.append(";charset=");
                v.append(c);
            },
            None => {},
        }
        self.query("response-content-type", v.as_str())
    }

    /// The `Cache-Control` the object is served with.
    pub fn set_response_cache_control(self, cache_control: CacheControl) -> (r: GetObjectUrl)
        requires
            self.req.wf(),
        ensures
            r.req.wf(),
            r.req.query_pairs() == upsert(
                self.req.query_pairs(),
                "response-cache-control"@,
                cache_control.text(),
            ),
    {
        let v = cache_control.to_string();
        self.query("response-cache-control", v.as_str())
    }

    /// The `Content-Disposition` the object is served with.
    pub fn set_response_content_disposition(self, content_disposition: ContentDisposition) -> (r:
        GetObjectUrl)
        requires
            self.req.wf(),
        ensures
            r.req.wf(),
            r.req.query_pairs() == upsert(
                self.req.query_pairs(),
                "response-content-disposition"@,
                content_disposition.text(),
            ),
    {
        let v = content_disposition.to_string();
        self.query("response-content-disposition", v.as_str())
    }

    /// Addresses the object through a custom domain.
    pub fn set_custom_domain(self, custom_domain: &str, enable_https: bool) -> (r: GetObjectUrl)
        ensures
            r.req.oss@ == (OssView {
                endpoint: custom_domain@,
                enable_https: enable_https,
                ..self.req.oss@
            }),
            r.req.headers == self.req.headers,
            r.req.querys == self.req.querys,
            r.req.method == self.req.method,
    {
        let mut s = self;
        s.req.set_endpoint(custom_domain);
        s.req.set_https(enable_https);
        s
    }

    /// The pre-signed URL, valid until `expires` (seconds since the Unix
    /// epoch). Refused when two sub-resources or two extension headers share
    /// a name.
    pub fn url(self, expires: u64) -> (r: Result<String, Error>)
        requires
            self.req.wf(),
        ensures
            r is Ok <==> self.req.signable() && crate::signer::fits_hmac(
                self.req.oss@.ak_secret,
                self.req.query_string_to_sign(decimal(expires as nat)),
            ),
            r matches Ok(u) ==> u@ == uri_of(
                self.req.oss@,
                upsert(
                    upsert(
                        upsert(self.req.query_pairs(), "Expires"@, decimal(expires as nat)),
                        "OSSAccessKeyId"@,
                        self.req.oss@.ak_id,
                    ),
                    "Signature"@,
                    crate::signer::signature_of(
                        self.req.oss@.ak_secret,
                        self.req.query_string_to_sign(decimal(expires as nat)),
                    ),
                ),
            ),
    {
        let mut req = self.req;
        req.query_sign(expires)?;
        Ok(req.uri())
    }
}

/// Lists the versions of one object.
#[derive(Debug)]
pub struct ListObjectVersions {
    pub req: OssRequest,
    pub object: String,
}

impl ListObjectVersions {
    /// Versions of `object`, a page of up to 1000 at a time.
    pub fn new(oss: Oss, object: &str) -> (r: ListObjectVersions)
        ensures
            r.req.wf(),
            r.req.oss == oss,
            r.object@ == object@,
            r.req.query_pairs() == seq![
                ("versions"@, ""@),
                ("prefix"@, object@),
                ("max-keys"@, "1000"@),
            ],
    {
        let mut req = OssRequest::new(oss, Method::Get);
        req.insert_query("versions", "");
        req.insert_query("prefix", object);
        req.insert_query("max-keys", "1000");
        proof {
            reveal_strlit("");
            reveal_strlit("versions");
            reveal_strlit("prefix");
            reveal_strlit("max-keys");
            assert("versions"@[0] != "prefix"@[0]);
            assert("versions"@[0] != "max-keys"@[0]);
            assert("prefix"@[0] != "max-keys"@[0]);
            assert(req.query_pairs() =~= seq![
                ("versions"@, ""@),
                ("prefix"@, object@),
                ("max-keys"@, "1000"@),
            ]);
        }
        ListObjectVersions { req, object: String::from_str(object) }
    }

    /// Takes the next-version marker of the page just read: when it is
    /// present and not empty, the listing resumes after it and `true` is
    /// returned; otherwise the listing is finished and nothing changes.
    pub fn accept_versions_page(&mut self, next: Option<&str>) -> (r: bool)
        requires
            old(self).req.wf(),
        ensures
            final(self).req.wf(),
            final(self).object == old(self).object,
            r <==> (next matches Some(m) && m@.len() > 0),
            r ==> final(self).req.query_pairs() == upsert(
                upsert(old(self).req.query_pairs(), "version-id-marker"@, next->Some_0@),
                "key-marker"@,
                old(self).object@,
            ),
            !r ==> final(self).req == old(self).req,
    {
        match next {
            Some(m) => {
                if m.unicode_len() > 0 {
                    self.set_version_id(m);
                    true
                } else {
                    false
                }
            },
            None => false,
        }
    }

    /// Resume after `version_id` of this object.
    pub fn set_version_id(&mut self, version_id: &str)
        requires
            old(self).req.wf(),
        ensures
            final(self).req.wf(),
            final(self).object == old(self).object,
            final(self).req.query_pairs() == upsert(
                upsert(old(self).req.query_pairs(), "version-id-marker"@, version_id@),
                "key-marker"@,
                old(self).object@,
            ),
    {
        self.req.insert_query("version-id-marker", version_id);
        let key = self.object.clone();
        self.req.insert_query("key-marker", key.as_str());
    }
}

/// Metadata of an object.
#[derive(Debug, Clone, PartialEq, Eq)]
pub struct ObjectMeta {
    pub content_length: String,
    pub e_tag: String,
    pub last_access_time: Option<String>,
    pub last_modified: String,
}

/// A tag of an object.
#[derive(Debug, Clone, PartialEq, Eq)]
pub struct Tag {
    pub key: String,
    pub value: String,
}

/// A listing of the parts of an upload.
#[derive(Debug, Clone, PartialEq, Eq)]
pub struct ListPartsResult {
    pub storage_class: StorageClass,
    pub part_number_marker: u32,
    pub next_part_number_marker: u32,
    pub is_truncated: bool,
    pub part: Option<Vec<Part>>,
}

/// A part in a part listing.
#[derive(Debug, Clone, PartialEq, Eq)]
pub struct Part {
    pub part_number: u32,
    pub last_modified: String,
    pub e_tag: String,
    pub hash_crc64ecma: u64,
    pub size: u64,
}

pub open spec fn tag_entry_of(t: Pair) -> Seq<char> {
    if t.1.len() == 0 {
        "<Tag><Key>"@ + t.0 + "</Key></Tag>"@
    } else {
        "<Tag><Key>"@ + t.0 + "</Key><Value>"@ + t.1 + "</Value></Tag>"@
    }
}

pub open spec fn tag_entries(s: Seq<Pair>) -> Seq<char>
    decreases s.len(),
{
    if s.len() == 0 {
        seq![]
    } else {
        tag_entries(s.drop_last()) + tag_entry_of(s.last())
    }
}

/// The body that sets an object's tags.
pub open spec fn tagging_body_of(s: Seq<Pair>) -> Seq<char> {
    "<Tagging><TagSet>"@ + tag_entries(s) + "</TagSet></Tagging>"@
}

/// Renders the body that sets an object's tags; a tag with an empty value
/// has no `Value` element.
pub fn tagging_body(tags: &Vec<(String, String)>) -> (r: String)
    ensures
        r@ == tagging_body_of(crate::canonical::pairs_view(tags@)),
{
    let mut out = String::from_str("<Tagging><TagSet>");
    let ghost head = out@;
    let mut i: usize = 0;
    while i < tags.len()
        invariant
            i <= tags.len(),
            head == "<Tagging><TagSet>"@,
            out@ == head + tag_entries(crate::canonical::pairs_view(tags@.take(i as int))),
        decreases tags.len() - i,
    {
        proof {
            crate::canonical::lemma_pairs_view_push(tags@, i as int);
        }
        out.append("<Tag><Key>");
        out.append(tags[i].0.as_str());
        if tags[i].1.unicode_len() == 0 {
            out.append("</Key></Tag>");
        } else {
            out.append("</Key><Value>");
            out.append(tags[i].1.as_str());
            out.append("</Value></Tag>");
        }
        assert(out@ =~= head + tag_entries(crate::canonical::pairs_view(tags@.take(i + 1))));
        i = i + 1;
    }
    assert(tags@.take(i as int) =~= tags@);
    out.append("</TagSet></Tagging>");
    assert(out@ =~= tagging_body_of(crate::canonical::pairs_view(tags@)));
    out
}

/// The body of a restore request, when days or a tier are given.
pub open spec fn restore_body_of(days: Option<u32>, tier: Option<RestoreTier>) -> Option<Seq<char>> {
    if days is None && tier is None {
        None
    } else {
        Some(
            "<RestoreRequest>"@ + match days {
                Some(d) => "<Days>"@ + decimal(d as nat) + "</Days>"@,
                None => Seq::<char>::empty(),
            } + match tier {
                Some(t) => "<JobParameters><Tier>"@ + t.text() + "</Tier></JobParameters>"@,
                None => Seq::<char>::empty(),
            } + "</RestoreRequest>"@,
        )
    }
}

/// Renders the body of a restore request; none when neither is given.
pub fn restore_body(days: Option<u32>, tier: Option<RestoreTier>) -> (r: Option<String>)
    ensures
        opt_chars(r) == restore_body_of(days, tier),
{
    if days.is_none() && tier.is_none() {
        return None;
    }
    let mut out = String::from_str("<RestoreRequest>");
    match days {
        Some(d) => {
            out.append("<Days>");
            push_decimal(&mut out, d as u64);
            out.append("</Days>");
        },
        None => {},
    }
    match tier {
        Some(t) => {
            out.append("<JobParameters><Tier>");
            let v = t.to_string();
            out.append(v.as_str());
            out.append("</Tier></JobParameters>");
        },
        None => {},
    }
    out.append("</RestoreRequest>");
    assert(Some(out@) =~= restore_body_of(days, tier));
    Some(out)
}

/// A byte range header value: `bytes=<start>-` or `bytes=<start>-<end>`.
pub open spec fn range_of(start: u64, end: Option<u64>) -> Seq<char> {
    "bytes="@ + decimal(start as nat) + seq!['-'] + match end {
        Some(e) => decimal(e as nat),
        None => Seq::<char>::empty(),
    }
}

pub fn range_value(start: u64, end: Option<u64>) -> (r: String)
    ensures
        r@ == range_of(start, end),
{
    let mut out = String::from_str("bytes=");
    push_decimal(&mut out, start);
    push_char(&mut out, '-');
    match end {
        Some(e) => push_decimal(&mut out, e),
        None => {},
    }
    assert(out@ =~= range_of(start, end));
    out
}

/// Headers of a HEAD answer that describe the transfer rather than the
/// object, and are left out of the object's metadata.
pub open spec fn is_transfer_header(name: Seq<char>) -> bool {
    ||| name == "server"@
    ||| name == "date"@
    ||| name == "content-type"@
    ||| name == "content-length"@
    ||| name == "connection"@
    ||| name == "x-oss-request-id"@
    ||| name == "accept-ranges"@
}

pub fn transfer_header(name: &str) -> (r: bool)
    ensures
        r == is_transfer_header(name@),
{
    str_eq(name, "server") || str_eq(name, "date") || str_eq(name, "content-type") || str_eq(
        name,
        "content-length",
    ) || str_eq(name, "connection") || str_eq(name, "x-oss-request-id") || str_eq(
        name,
        "accept-ranges",
    )
}

/// The value of a hexadecimal digit byte, in either letter case.
pub open spec fn hex_value(b: u8) -> Option<int> {
    if 48 <= b && b <= 57 {
        Some(b - 48)
    } else if 97 <= b && b <= 102 {
        Some(b - 87)
    } else if 65 <= b && b <= 70 {
        Some(b - 55)
    } else {
        None
    }
}

/// Percent-decoding: `%` and two hexadecimal digits become that byte; every
/// other byte, a `%` without two digits after it included, stays as it is.
pub open spec fn percent_decoded(b: Seq<u8>) -> Seq<u8>
    decreases b.len(),
{
    if b.len() == 0 {
        seq![]
    } else if b[0] == 37 && b.len() >= 3 && hex_value(b[1]) is Some && hex_value(b[2]) is Some {
        seq![(hex_value(b[1])->Some_0 * 16 + hex_value(b[2])->Some_0) as u8] + percent_decoded(
            b.skip(3),
        )
    } else {
        seq![b[0]] + percent_decoded(b.skip(1))
    }
}

/// Relies on `percent_encoding::percent_decode` and `decode_utf8`: the bytes
/// are percent-decoded, then read as UTF-8; text that is not UTF-8 is an
/// error, here `None`.
#[verifier::external_body]
fn percent_decode_utf8(bytes: &[u8]) -> (r: Option<String>)
    ensures
        r is Some <==> vstd::utf8::valid_utf8(percent_decoded(bytes@)),
        r matches Some(s) ==> s@ == vstd::utf8::decode_utf8(percent_decoded(bytes@)),
{
    percent_encoding::percent_decode(bytes).decode_utf8().ok().map(|s| s.into_owned())
}

/// The target of a symbolic link, from the percent-encoded
/// `x-oss-symlink-target` header; a missing header reads as empty. A target
/// that is not UTF-8 once decoded is an unreadable answer.
pub fn symlink_target(header: Option<&[u8]>) -> (r: Result<String, Error>)
    ensures
        header is None ==> (r matches Ok(t) && t@.len() == 0),
        header matches Some(h) ==> (r is Ok <==> vstd::utf8::valid_utf8(percent_decoded(h@))),
        header matches Some(h) ==> (r matches Ok(t) ==> t@ == vstd::utf8::decode_utf8(
            percent_decoded(h@),
        )),
        r matches Err(e) ==> e == Error::OssInvalidResponse(None),
{
    match header {
        None => Ok(String::new()),
        Some(h) => match percent_decode_utf8(h) {
            Some(t) => Ok(t),
            None => Err(Error::OssInvalidResponse(None)),
        },
    }
}

/// One version of an object in a version listing.
#[derive(Debug, Clone, PartialEq, Eq)]
pub struct ObjectVersion {
    pub key: String,
    pub version_id: String,
    pub is_latest: bool,
    pub last_modified: String,
    pub e_tag: String,
    pub size: u64,
    pub storage_class: String,
}

/// A delete marker in a version listing.
#[derive(Debug, Clone, PartialEq, Eq)]
pub struct DeleteMarker {
    pub key: String,
    pub version_id: String,
    pub is_latest: bool,
    pub last_modified: String,
}

/// Every version and delete marker of one object.
#[derive(Debug, Clone, PartialEq, Eq)]
pub struct ObjectVersionsResult {
    pub version: Vec<ObjectVersion>,
    pub delete_marker: Vec<DeleteMarker>,
}

/// The versions of `s` whose key is `object`, in order.
pub open spec fn versions_of_key(object: Seq<char>, s: Seq<ObjectVersion>) -> Seq<ObjectVersion>
    decreases s.len(),
{
    if s.len() == 0 {
        seq![]
    } else if s.last().key@ == object {
        versions_of_key(object, s.drop_last()).push(s.last())
    } else {
        versions_of_key(object, s.drop_last())
    }
}

/// The delete markers of `s` whose key is `object`, in order.
pub open spec fn markers_of_key(object: Seq<char>, s: Seq<DeleteMarker>) -> Seq<DeleteMarker>
    decreases s.len(),
{
    if s.len() == 0 {
        seq![]
    } else if s.last().key@ == object {
        markers_of_key(object, s.drop_last()).push(s.last())
    } else {
        markers_of_key(object, s.drop_last())
    }
}

/// `a` is `b` with the quotes of its ETag removed.
pub open spec fn trimmed_version(a: ObjectVersion, b: ObjectVersion) -> bool {
    &&& a.key@ == b.key@
    &&& a.version_id@ == b.version_id@
    &&& a.is_latest == b.is_latest
    &&& a.last_modified@ == b.last_modified@
    &&& a.e_tag@ == unquoted(b.e_tag@)
    &&& a.size == b.size
    &&& a.storage_class@ == b.storage_class@
}

/// The versions of one page that belong to `object` (a listing by prefix
/// also returns longer keys), in order, their ETags without quotes.
pub fn versions_of(object: &str, page: &Vec<ObjectVersion>) -> (r: Vec<ObjectVersion>)
    ensures
        r@.len() == versions_of_key(object@, page@).len(),
        forall|i: int| 0 <= i < r@.len() ==> trimmed_version(#[trigger] r@[i], versions_of_key(object@, page@)[i]),
{
    let mut out: Vec<ObjectVersion> = Vec::new();
    let mut i: usize = 0;
    while i < page.len()
        invariant
            i <= page.len(),
            out@.len() == versions_of_key(object@, page@.take(i as int)).len(),
            forall|k: int| 0 <= k < out@.len() ==> trimmed_version(#[trigger] out@[k], versions_of_key(object@, page@.take(i as int))[k]),
        decreases page.len() - i,
    {
        assert(page@.take(i + 1).drop_last() =~= page@.take(i as int));
        let v = &page[i];
        if str_eq(v.key.as_str(), object) {
            let t = ObjectVersion {
                key: v.key.clone(),
                version_id: v.version_id.clone(),
                is_latest: v.is_latest,
                last_modified: v.last_modified.clone(),
                e_tag: trim_etag(v.e_tag.as_str()),
                size: v.size,
                storage_class: v.storage_class.clone(),
            };
            out.push(t);
        }
        i = i + 1;
    }
    assert(page@.take(i as int) =~= page@);
    out
}

/// The delete markers of one page that belong to `object`, in order.
pub fn markers_of(object: &str, page: &Vec<DeleteMarker>) -> (r: Vec<DeleteMarker>)
    ensures
        r@ == markers_of_key(object@, page@),
{
    let mut out: Vec<DeleteMarker> = Vec::new();
    let mut i: usize = 0;
    while i < page.len()
        invariant
            i <= page.len(),
            out@ == markers_of_key(object@, page@.take(i as int)),
        decreases page.len() - i,
    {
        assert(page@.take(i + 1).drop_last() =~= page@.take(i as int));
        let m = &page[i];
        if str_eq(m.key.as_str(), object) {
            out.push(
                DeleteMarker {
                    key: m.key.clone(),
                    version_id: m.version_id.clone(),
                    is_latest: m.is_latest,
                    last_modified: m.last_modified.clone(),
                },
            );
        }
        i = i + 1;
    }
    assert(page@.take(i as int) =~= page@);
    out
}

/// An ETag as sent by the service, without its surrounding quotes.
pub open spec fn unquoted(s: Seq<char>) -> Seq<char> {
    let a = if s.len() > 0 && s[0] == '"' {
        s.drop_first()
    } else {
        s
    };
    if a.len() > 0 && a.last() == '"' {
        a.drop_last()
    } else {
        a
    }
}

/// Removes one leading and one trailing double quote.
pub fn trim_etag(s: &str) -> (r: String)
    ensures
        r@ == unquoted(s@),
{
    let n = s.unicode_len();
    let mut from: usize = 0;
    let mut to: usize = n;
    if n > 0 && s.get_char(0) == '"' {
        from = 1;
    }
    if to > from && s.get_char(to - 1) == '"' {
        to = to - 1;
    }
    let r = s.substring_char(from, to);
    let out = String::from_str(r);
    assert(out@ =~= unquoted(s@));
    out
}

} // verus!
