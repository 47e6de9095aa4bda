//! Request assembly: credentials and addressing, the header and query maps
//! of one request, its URL, and the two ways of signing it.
use vstd::prelude::*;
use crate::canonical::{
    canonical_headers, canonical_headers_of, canonical_resource, canonical_resource_of,
    extension_entries, header_value, is_sub_resource_name, lemma_allow_list_exclusion,
    lemma_header_order_case_invariance, lemma_pairs_view_push, header_value_of, names_distinct, pair_view, pairs_view,
    string_to_sign, string_to_sign_of, sub_resource_entries, Pair,
};
use crate::common::{url_encode, url_encoded};
use crate::error::Error;
use crate::signer::{authorization, authorization_of, fits_hmac, sign, signature_of};
use crate::text::{decimal, decimal_string, push_char, str_eq};

verus! {

/// The endpoint used until another is set.
pub open spec fn default_endpoint() -> Seq<char> {
    "oss.aliyuncs.com"@
}

/// Credentials and addressing shared by the requests of one client handle.
#[derive(Debug, Clone)]
pub struct Oss {
    pub ak_id: String,
    pub ak_secret: String,
    pub security_token: Option<String>,
    pub endpoint: String,
    pub bucket: Option<String>,
    pub object: Option<String>,
    pub enable_https: bool,
}

pub open spec fn opt_view(o: Option<String>) -> Option<Seq<char>> {
    match o {
        Some(s) => Some(s@),
        None => None,
    }
}

pub struct OssView {
    pub ak_id: Seq<char>,
    pub ak_secret: Seq<char>,
    pub security_token: Option<Seq<char>>,
    pub endpoint: Seq<char>,
    pub bucket: Option<Seq<char>>,
    pub object: Option<Seq<char>>,
    pub enable_https: bool,
}

impl View for Oss {
    type V = OssView;

    open spec fn view(&self) -> OssView {
        OssView {
            ak_id: self.ak_id@,
            ak_secret: self.ak_secret@,
            security_token: opt_view(self.security_token),
            endpoint: self.endpoint@,
            bucket: opt_view(self.bucket),
            object: opt_view(self.object),
            enable_https: self.enable_https,
        }
    }
}

fn copy_opt(o: &Option<String>) -> (r: Option<String>)
    ensures
        opt_view(r) == opt_view(*o),
{
    match o {
        Some(s) => Some(s.clone()),
        None => None,
    }
}

impl Oss {
    /// Credentials for the given key pair, on the default endpoint over HTTPS,
    /// with no bucket or object. An empty secret is refused.
    pub fn new(ak_id: &str, ak_secret: &str) -> (r: Result<Oss, Error>)
        ensures
            ak_secret@.len() == 0 <==> r is Err,
            r matches Err(e) ==> e == Error::EmptySecret,
            r matches Ok(o) ==> o@ == (OssView {
                ak_id: ak_id@,
                ak_secret: ak_secret@,
                security_token: None,
                endpoint: default_endpoint(),
                bucket: None,
                object: None,
                enable_https: true,
            }),
    {
        if ak_secret.unicode_len() == 0 {
            return Err(Error::EmptySecret);
        }
        Ok(Oss {
            ak_id: String::from_str(ak_id),
            ak_secret: String::from_str(ak_secret),
            security_token: None,
            endpoint: String::from_str("oss.aliyuncs.com"),
            bucket: None,
            object: None,
            enable_https: true,
        })
    }

    /// A copy with the same view.
    pub fn duplicate(&self) -> (r: Oss)
        ensures
            r@ == self@,
    {
        Oss {
            ak_id: self.ak_id.clone(),
            ak_secret: self.ak_secret.clone(),
            security_token: copy_opt(&self.security_token),
            endpoint: self.endpoint.clone(),
            bucket: copy_opt(&self.bucket),
            object: copy_opt(&self.object),
            enable_https: self.enable_https,
        }
    }

    pub fn set_bucket(&mut self, bucket: &str)
        ensures
            final(self)@ == (OssView { bucket: Some(bucket@), ..old(self)@ }),
    {
        self.bucket = Some(String::from_str(bucket));
    }

    pub fn set_endpoint(&mut self, endpoint: &str)
        ensures
            final(self)@ == (OssView { endpoint: endpoint@, ..old(self)@ }),
    {
        self.endpoint = String::from_str(endpoint);
    }

    pub fn set_object(&mut self, object: &str)
        ensures
            final(self)@ == (OssView { object: Some(object@), ..old(self)@ }),
    {
        self.object = Some(String::from_str(object));
    }

    pub fn set_https(&mut self, https: bool)
        ensures
            final(self)@ == (OssView { enable_https: https, ..old(self)@ }),
    {
        self.enable_https = https;
    }

    /// Sets the session token sent with each request.
    pub fn set_security_token(&mut self, token: &str)
        ensures
            final(self)@ == (OssView { security_token: Some(token@), ..old(self)@ }),
    {
        self.security_token = Some(String::from_str(token));
    }
}

/// HTTP method of a request.
#[derive(Debug, Clone, Copy, PartialEq, Eq, Structural)]
pub enum Method {
    Get,
    Put,
    Post,
    Delete,
    Head,
}

impl Method {
    pub open spec fn text(&self) -> Seq<char> {
        match self {
            Method::Get => "GET"@,
            Method::Put => "PUT"@,
            Method::Post => "POST"@,
            Method::Delete => "DELETE"@,
            Method::Head => "HEAD"@,
        }
    }

    /// The upper-case verb.
    pub fn as_str(&self) -> (r: &'static str)
        ensures
            r@ == self.text(),
    {
        match self {
            Method::Get => "GET",
            Method::Put => "PUT",
            Method::Post => "POST",
            Method::Delete => "DELETE",
            Method::Head => "HEAD",
        }
    }
}

/// `s` with the pair for `k` set to `v`: replaced where `k` is present,
/// appended otherwise.
pub open spec fn upsert(s: Seq<Pair>, k: Seq<char>, v: Seq<char>) -> Seq<Pair> {
    if exists|i: int| 0 <= i < s.len() && s[i].0 == k {
        s.update(choose|i: int| 0 <= i < s.len() && s[i].0 == k, (k, v))
    } else {
        s.push((k, v))
    }
}

/// Sets `key` to `value` in a name-unique pair list.
pub fn upsert_pair(list: &mut Vec<(String, String)>, key: &str, value: &str)
    requires
        names_distinct(pairs_view(old(list)@)),
    ensures
        pairs_view(final(list)@) == upsert(pairs_view(old(list)@), key@, value@),
        names_distinct(pairs_view(final(list)@)),
{
    let ghost s = pairs_view(list@);
    let mut i: usize = 0;
    while i < list.len()
        invariant
            s == pairs_view(list@),
            s == pairs_view(old(list)@),
            names_distinct(s),
            i <= list.len(),
            forall|k: int| 0 <= k < i ==> (#[trigger] s[k]).0 != key@,
        decreases list.len() - i,
    {
        if str_eq(list[i].0.as_str(), key) {
            assert(s[i as int] == pair_view(list@[i as int]));
            assert(s[i as int].0 == key@);
            let ghost j = choose|j: int| 0 <= j < s.len() && s[j].0 == key@;
            assert(j == i as int) by {
                if j < i {
                    assert(s[j].0 != key@);
                } else if j > i {
                    assert(s[i as int].0 != s[j].0);
                }
            }
            list.set(i, (String::from_str(key), String::from_str(value)));
            assert(pairs_view(list@) =~= s.update(i as int, (key@, value@)));
            return;
        }
        i = i + 1;
    }
    list.push((String::from_str(key), String::from_str(value)));
    assert(pairs_view(list@) =~= s.push((key@, value@)));
}

/// `name` or `name=<percent-encoded value>`, as the query string writes a parameter.
pub open spec fn query_param_text(e: Pair) -> Seq<char> {
    if e.1.len() == 0 {
        e.0
    } else {
        e.0 + seq!['='] + url_encoded(e.1)
    }
}

/// The query parameters in order, joined by `&`.
pub open spec fn query_string_of(q: Seq<Pair>) -> Seq<char>
    decreases q.len(),
{
    if q.len() == 0 {
        seq![]
    } else if q.len() == 1 {
        query_param_text(q[0])
    } else {
        query_string_of(q.drop_last()) + seq!['&'] + query_param_text(q.last())
    }
}

/// The request URL: `scheme://[bucket.]endpoint/<encoded key>[?query]`.
pub open spec fn uri_of(oss: OssView, q: Seq<Pair>) -> Seq<char> {
    let scheme = if oss.enable_https {
        "https://"@
    } else {
        "http://"@
    };
    let host = match oss.bucket {
        Some(b) => b + seq!['.'] + oss.endpoint,
        None => oss.endpoint,
    };
    let key = match oss.object {
        Some(o) => url_encoded(o),
        None => url_encoded(Seq::<char>::empty()),
    };
    let qs = query_string_of(q);
    scheme + host + seq!['/'] + key + if qs.len() == 0 {
        Seq::<char>::empty()
    } else {
        seq!['?'] + qs
    }
}

/// One request: credentials and addressing, method, headers, query
/// parameters and an in-memory body.
#[derive(Debug)]
pub struct OssRequest {
    pub oss: Oss,
    pub method: Method,
    pub headers: Vec<(String, String)>,
    pub querys: Vec<(String, String)>,
    pub body: Vec<u8>,
}

/// Header and query names are each unique.
pub open spec fn request_wf(headers: Seq<(String, String)>, querys: Seq<(String, String)>) -> bool {
    names_distinct(pairs_view(headers)) && names_distinct(pairs_view(querys))
}

impl OssRequest {
    pub open spec fn wf(&self) -> bool {
        request_wf(self.headers@, self.querys@)
    }

    pub open spec fn header_pairs(&self) -> Seq<Pair> {
        pairs_view(self.headers@)
    }

    pub open spec fn query_pairs(&self) -> Seq<Pair> {
        pairs_view(self.querys@)
    }

    /// Whether the request can be canonicalized: no two extension headers
    /// share a lower-cased name, and no two sub-resources share a name.
    pub open spec fn signable(&self) -> bool {
        names_distinct(extension_entries(self.header_pairs()))
            && names_distinct(sub_resource_entries(self.query_pairs()))
    }

    /// The canonical resource of this request.
    pub open spec fn resource(&self) -> Seq<char> {
        canonical_resource_of(self.oss@.bucket, self.oss@.object, self.query_pairs())
    }

    /// The text signed for header authentication at `date`.
    pub open spec fn header_string_to_sign(&self, date: Seq<char>) -> Seq<char> {
        string_to_sign_of(
            self.method.text(),
            header_value_of(self.header_pairs(), "Content-MD5"@),
            header_value_of(self.header_pairs(), "Content-Type"@),
            date,
            canonical_headers_of(self.header_pairs()),
            self.resource(),
        )
    }

    /// The text signed for a pre-signed URL expiring at `expires`.
    pub open spec fn query_string_to_sign(&self, expires: Seq<char>) -> Seq<char> {
        string_to_sign_of(
            self.method.text(),
            Seq::<char>::empty(),
            Seq::<char>::empty(),
            expires,
            canonical_headers_of(self.header_pairs()),
            self.resource(),
        )
    }

    /// An empty request with the given method.
    pub fn new(oss: Oss, method: Method) -> (r: OssRequest)
        ensures
            r.oss == oss,
            r.method == method,
            r.headers@.len() == 0,
            r.querys@.len() == 0,
            r.body@.len() == 0,
            r.wf(),
    {
        OssRequest { oss, method, headers: Vec::new(), querys: Vec::new(), body: Vec::new() }
    }

    pub fn set_endpoint(&mut self, endpoint: &str)
        ensures
            final(self).oss@ == (OssView { endpoint: endpoint@, ..old(self).oss@ }),
            final(self).method == old(self).method,
            final(self).headers == old(self).headers,
            final(self).querys == old(self).querys,
            final(self).body == old(self).body,
    {
        self.oss.set_endpoint(endpoint);
    }

    pub fn set_https(&mut self, https: bool)
        ensures
            final(self).oss@ == (OssView { enable_https: https, ..old(self).oss@ }),
            final(self).method == old(self).method,
            final(self).headers == old(self).headers,
            final(self).querys == old(self).querys,
            final(self).body == old(self).body,
    {
        self.oss.set_https(https);
    }

    /// Sets a header, replacing one of the same name.
    pub fn insert_header(&mut self, key: &str, value: &str)
        requires
            old(self).wf(),
        ensures
            final(self).wf(),
            final(self).header_pairs() == upsert(old(self).header_pairs(), key@, value@),
            final(self).oss == old(self).oss,
            final(self).method == old(self).method,
            final(self).querys == old(self).querys,
            final(self).body == old(self).body,
    {
        upsert_pair(&mut self.headers, key, value);
    }

    /// Sets a query parameter, replacing one of the same name.
    pub fn insert_query(&mut self, key: &str, value: &str)
        requires
            old(self).wf(),
        ensures
            final(self).wf(),
            final(self).query_pairs() == upsert(old(self).query_pairs(), key@, value@),
            final(self).oss == old(self).oss,
            final(self).method == old(self).method,
            final(self).headers == old(self).headers,
            final(self).body == old(self).body,
    {
        upsert_pair(&mut self.querys, key, value);
    }

    pub fn set_body(&mut self, body: Vec<u8>)
        ensures
            final(self).body == body,
            final(self).oss == old(self).oss,
            final(self).method == old(self).method,
            final(self).headers == old(self).headers,
            final(self).querys == old(self).querys,
    {
        self.body = body;
    }

    /// The request URL; query values are percent-encoded, in insertion order.
    pub fn uri(&self) -> (r: String)
        ensures
            r@ == uri_of(self.oss@, self.query_pairs()),
    {
        let mut out = if self.oss.enable_https {
            String::from_str("https://")
        } else {
            String::from_str("http://")
        };
        match &self.oss.bucket {
            Some(b) => {
                out.append(b.as_str());
                push_char(&mut out, '.');
            },
            None => {},
        }
        out.append(self.oss.endpoint.as_str());
        push_char(&mut out, '/');
        let key = match &self.oss.object {
            Some(o) => url_encode(o.as_str()),
            None => url_encode(""),
        };
        proof {
            reveal_strlit("");
        }
        out.append(key.as_str());
        let mut qs = String::new();
        let mut i: usize = 0;
        while i < self.querys.len()
            invariant
                i <= self.querys.len(),
                qs@ == query_string_of(pairs_view(self.querys@.take(i as int))),
            decreases self.querys.len() - i,
        {
            proof {
                lemma_pairs_view_push(self.querys@, i as int);
            }
            if i > 0 {
                push_char(&mut qs, '&');
            }
            qs.append(self.querys[i].0.as_str());
            if self.querys[i].1.unicode_len() > 0 {
                push_char(&mut qs, '=');
                let v = url_encode(self.querys[i].1.as_str());
                qs.append(v.as_str());
            }
            proof {
                if i == 0 {
                    assert(pairs_view(self.querys@.take(1)).len() == 1);
                }
            }
            i = i + 1;
        }
        assert(self.querys@.take(i as int) =~= self.querys@);
        if qs.unicode_len() > 0 {
            push_char(&mut out, '?');
            out.append(qs.as_str());
        }
        assert(out@ =~= uri_of(self.oss@, self.query_pairs()));
        out
    }

    /// The extension-header block and the canonical resource, or which of
    /// the two could not be formed.
    fn canonical_parts(&self) -> (r: Result<(String, String), Error>)
        ensures
            r is Ok <==> self.signable(),
            r matches Err(e) ==> if !names_distinct(extension_entries(self.header_pairs())) {
                e == Error::DuplicateHeader
            } else {
                e == Error::DuplicateQuery
            },
            r matches Ok(p) ==> p.0@ == canonical_headers_of(self.header_pairs()) && p.1@
                == self.resource(),
    {
        let headers = match canonical_headers(&self.headers) {
            Ok(h) => h,
            Err(()) => {
                return Err(Error::DuplicateHeader);
            },
        };
        let bucket = match &self.oss.bucket {
            Some(b) => Some(b.as_str()),
            None => None,
        };
        let object = match &self.oss.object {
            Some(o) => Some(o.as_str()),
            None => None,
        };
        let resource = match canonical_resource(bucket, object, &self.querys) {
            Ok(r) => r,
            Err(()) => {
                return Err(Error::DuplicateQuery);
            },
        };
        Ok((headers, resource))
    }

    /// Signs with header authentication at `date` (an RFC 1123 time): sets
    /// `Date` and `Authorization: OSS <key id>:<signature>`.
    pub fn header_sign_at(&mut self, date: &str) -> (r: Result<(), Error>)
        requires
            old(self).wf(),
        ensures
            r is Ok <==> old(self).signable() && fits_hmac(
                old(self).oss@.ak_secret,
                old(self).header_string_to_sign(date@),
            ),
            r matches Err(e) ==> if !names_distinct(extension_entries(old(self).header_pairs())) {
                e == Error::DuplicateHeader
            } else if !names_distinct(sub_resource_entries(old(self).query_pairs())) {
                e == Error::DuplicateQuery
            } else {
                e == Error::InputTooLong
            },
            r is Err ==> *final(self) == *old(self),
            r is Ok ==> final(self).header_pairs() == upsert(
                upsert(old(self).header_pairs(), "Date"@, date@),
                "Authorization"@,
                authorization_of(
                    old(self).oss@.ak_id,
                    signature_of(old(self).oss@.ak_secret, old(self).header_string_to_sign(date@)),
                ),
            ),
            final(self).wf(),
            final(self).oss == old(self).oss,
            final(self).method == old(self).method,
            final(self).querys == old(self).querys,
            final(self).body == old(self).body,
    {
        let (headers, resource) = self.canonical_parts()?;
        let md5 = header_value(&self.headers, "Content-MD5");
        let content_type = header_value(&self.headers, "Content-Type");
        let text = string_to_sign(
            self.method.as_str(),
            md5.as_str(),
            content_type.as_str(),
            date,
            headers.as_str(),
            resource.as_str(),
        );
        let signature = match sign(text.as_str(), self.oss.ak_secret.as_str()) {
            Some(s) => s,
            None => {
                return Err(Error::InputTooLong);
            },
        };
        let auth = authorization(self.oss.ak_id.as_str(), signature.as_str());
        self.insert_header("Date", date);
        self.insert_header("Authorization", auth.as_str());
        Ok(())
    }

    /// Signs for a pre-signed URL expiring at `expires` (seconds since the
    /// Unix epoch): sets the `Expires`, `OSSAccessKeyId` and `Signature` query
    /// parameters. The content lines of the signed text are left empty.
    pub fn query_sign(&mut self, expires: u64) -> (r: Result<(), Error>)
        requires
            old(self).wf(),
        ensures
            r is Ok <==> old(self).signable() && fits_hmac(
                old(self).oss@.ak_secret,
                old(self).query_string_to_sign(decimal(expires as nat)),
            ),
            r matches Err(e) ==> if !names_distinct(extension_entries(old(self).header_pairs())) {
                e == Error::DuplicateHeader
            } else if !names_distinct(sub_resource_entries(old(self).query_pairs())) {
                e == Error::DuplicateQuery
            } else {
                e == Error::InputTooLong
            },
            r is Err ==> *final(self) == *old(self),
            r is Ok ==> final(self).query_pairs() == upsert(
                upsert(
                    upsert(old(self).query_pairs(), "Expires"@, decimal(expires as nat)),
                    "OSSAccessKeyId"@,
                    old(self).oss@.ak_id,
                ),
                "Signature"@,
                signature_of(
                    old(self).oss@.ak_secret,
                    old(self).query_string_to_sign(decimal(expires as nat)),
                ),
            ),
            final(self).wf(),
            final(self).oss == old(self).oss,
            final(self).method == old(self).method,
            final(self).headers == old(self).headers,
            final(self).body == old(self).body,
    {
        let (headers, resource) = self.canonical_parts()?;
        let expires_text = decimal_string(expires);
        let text = string_to_sign(
            self.method.as_str(),
            "",
            "",
            expires_text.as_str(),
            headers.as_str(),
            resource.as_str(),
        );
        proof {
            reveal_strlit("");
        }
        let signature = match sign(text.as_str(), self.oss.ak_secret.as_str()) {
            Some(s) => s,
            None => {
                return Err(Error::InputTooLong);
            },
        };
        let id = self.oss.ak_id.clone();
        self.insert_query("Expires", expires_text.as_str());
        self.insert_query("OSSAccessKeyId", id.as_str());
        self.insert_query("Signature", signature.as_str());
        Ok(())
    }
}

/// Signing is a function of the request: two requests with the same method,
/// credentials, addressing, headers and query parameters sign the same text
/// to the same signature, for header and for query authentication.
pub proof fn lemma_signing_deterministic(a: OssRequest, b: OssRequest, date: Seq<char>)
    requires
        a.method == b.method,
        a.oss@ == b.oss@,
        a.header_pairs() == b.header_pairs(),
        a.query_pairs() == b.query_pairs(),
    ensures
        a.header_string_to_sign(date) == b.header_string_to_sign(date),
        signature_of(a.oss@.ak_secret, a.header_string_to_sign(date)) == signature_of(
            b.oss@.ak_secret,
            b.header_string_to_sign(date),
        ),
        a.query_string_to_sign(date) == b.query_string_to_sign(date),
        signature_of(a.oss@.ak_secret, a.query_string_to_sign(date)) == signature_of(
            b.oss@.ak_secret,
            b.query_string_to_sign(date),
        ),
{
}

/// A query parameter that is not a sub-resource changes neither signed text:
/// a request with it and one without it sign the same text at the same time.
/// It still appears in the URL, which lists every parameter.
pub proof fn lemma_signing_ignores_excluded_param(
    a: OssRequest,
    b: OssRequest,
    date: Seq<char>,
    before: Seq<Pair>,
    param: Pair,
    after: Seq<Pair>,
)
    requires
        a.method == b.method,
        a.oss@ == b.oss@,
        a.header_pairs() == b.header_pairs(),
        a.query_pairs() == before.push(param) + after,
        b.query_pairs() == before + after,
        !is_sub_resource_name(param.0),
    ensures
        a.header_string_to_sign(date) == b.header_string_to_sign(date),
        a.query_string_to_sign(date) == b.query_string_to_sign(date),
{
    lemma_allow_list_exclusion(a.oss@.bucket, a.oss@.object, before, param, after);
}

/// Requests whose extension headers differ only in order and in the letter
/// case of their names, with the same Content-MD5 and Content-Type values,
/// sign the same text at the same time.
pub proof fn lemma_signing_header_order_case_invariant(a: OssRequest, b: OssRequest, date: Seq<char>)
    requires
        a.method == b.method,
        a.oss@ == b.oss@,
        a.query_pairs() == b.query_pairs(),
        extension_entries(a.header_pairs()).to_set() == extension_entries(b.header_pairs()).to_set(),
        header_value_of(a.header_pairs(), "Content-MD5"@) == header_value_of(
            b.header_pairs(),
            "Content-MD5"@,
        ),
        header_value_of(a.header_pairs(), "Content-Type"@) == header_value_of(
            b.header_pairs(),
            "Content-Type"@,
        ),
    ensures
        a.header_string_to_sign(date) == b.header_string_to_sign(date),
        a.query_string_to_sign(date) == b.query_string_to_sign(date),
{
    lemma_header_order_case_invariance(a.header_pairs(), b.header_pairs());
}

/// A copy of a pair list.
pub fn copy_pairs(v: &Vec<(String, String)>) -> (r: Vec<(String, String)>)
    ensures
        pairs_view(r@) == pairs_view(v@),
{
    let mut out: Vec<(String, String)> = Vec::new();
    let mut i: usize = 0;
    while i < v.len()
        invariant
            i <= v.len(),
            pairs_view(out@) == pairs_view(v@.take(i as int)),
        decreases v.len() - i,
    {
        proof {
            lemma_pairs_view_push(v@, i as int);
        }
        let ghost before = pairs_view(out@);
        out.push((v[i].0.clone(), v[i].1.clone()));
        assert(pairs_view(out@) =~= before.push(pair_view(v@[i as int])));
        i = i + 1;
    }
    assert(v@.take(i as int) =~= v@);
    out
}

impl OssRequest {
    /// A copy of the request.
    pub fn duplicate(&self) -> (r: OssRequest)
        ensures
            r.oss@ == self.oss@,
            r.method == self.method,
            r.header_pairs() == self.header_pairs(),
            r.query_pairs() == self.query_pairs(),
            r.body@ == self.body@,
    {
        let mut body: Vec<u8> = Vec::new();
        let mut i: usize = 0;
        while i < self.body.len()
            invariant
                i <= self.body.len(),
                body@ == self.body@.take(i as int),
            decreases self.body.len() - i,
        {
            body.push(self.body[i]);
            assert(body@ =~= self.body@.take(i + 1));
            i = i + 1;
        }
        assert(self.body@.take(i as int) =~= self.body@);
        OssRequest {
            oss: self.oss.duplicate(),
            method: self.method,
            headers: copy_pairs(&self.headers),
            querys: copy_pairs(&self.querys),
            body,
        }
    }
}

/// The `%a, %e %b %Y %H:%M:%S GMT` text of a time given in seconds since the
/// Unix epoch, when chrono can represent that time.
pub uninterp spec fn gmt_date_of(ts: i64) -> Option<Seq<char>>;

/// Relies on chrono's `DateTime::from_timestamp` and `format` with
/// `%a, %e %b %Y %H:%M:%S GMT`: the text depends on the timestamp alone.
#[verifier::external_body]
pub(crate) fn format_gmt_date(ts: i64) -> (r: Option<String>)
    ensures
        opt_view(r) == gmt_date_of(ts),
{
    chrono::DateTime::from_timestamp(ts, 0).map(|d| d.format("%a, %e %b %Y %H:%M:%S GMT").to_string())
}

/// `h` with `name` set to the date text of `ts`; unchanged when the time
/// cannot be represented.
pub open spec fn with_date(h: Seq<Pair>, name: Seq<char>, ts: i64) -> Seq<Pair> {
    match gmt_date_of(ts) {
        Some(d) => upsert(h, name, d),
        None => h,
    }
}

impl OssRequest {
    /// Sets header `name` to the date text of `ts`, when it can be formed.
    pub fn insert_date_header(&mut self, name: &str, ts: i64)
        requires
            old(self).wf(),
        ensures
            final(self).wf(),
            final(self).header_pairs() == with_date(old(self).header_pairs(), name@, ts),
            final(self).oss == old(self).oss,
            final(self).method == old(self).method,
            final(self).querys == old(self).querys,
            final(self).body == old(self).body,
    {
        match format_gmt_date(ts) {
            Some(d) => self.insert_header(name, d.as_str()),
            None => {},
        }
    }
}

/// Relies on chrono's `Utc::now` formatted as `%a, %d %b %Y %H:%M:%S GMT`:
/// the current time as an RFC 1123 date. Nothing is promised of its value.
/// chrono panics here only when the system clock reads before 1970. Every
/// field of the format has a fixed width but the year, which has at most six
/// digits and a sign, so the text is at most 32 characters long.
#[verifier::external_body]
fn http_date_now() -> (r: String)
    ensures
        r@.len() <= 40,
{
    chrono::Utc::now().format("%a, %d %b %Y %H:%M:%S GMT").to_string()
}

impl OssRequest {
    /// Adds the `x-oss-security-token` header when the credentials carry a
    /// session token.
    pub fn attach_security_token(&mut self)
        requires
            old(self).wf(),
        ensures
            final(self).wf(),
            final(self).header_pairs() == match old(self).oss@.security_token {
                Some(t) => upsert(old(self).header_pairs(), "x-oss-security-token"@, t),
                None => old(self).header_pairs(),
            },
            final(self).oss == old(self).oss,
            final(self).method == old(self).method,
            final(self).querys == old(self).querys,
            final(self).body == old(self).body,
    {
        match &self.oss.security_token {
            Some(t) => {
                let t = t.clone();
                self.insert_header("x-oss-security-token", t.as_str());
            },
            None => {},
        }
    }

    /// Signs with header authentication at the current time; what is signed
    /// is what `header_sign_at` signs for that time.
    pub fn header_sign(&mut self) -> (r: Result<(), Error>)
        requires
            old(self).wf(),
        ensures
            !old(self).signable() ==> r is Err,
            r is Err ==> *final(self) == *old(self),
            exists|date: Seq<char>|
                {
                    &&& date.len() <= 40
                    &&& (r is Ok <==> old(self).signable() && fits_hmac(
                        old(self).oss@.ak_secret,
                        old(self).header_string_to_sign(date),
                    ))
                    &&& (r is Ok ==> final(self).header_pairs() == upsert(
                        upsert(old(self).header_pairs(), "Date"@, date),
                        "Authorization"@,
                        authorization_of(
                            old(self).oss@.ak_id,
                            signature_of(
                                old(self).oss@.ak_secret,
                                old(self).header_string_to_sign(date),
                            ),
                        ),
                    ))
                },
            final(self).wf(),
            final(self).oss == old(self).oss,
            final(self).method == old(self).method,
            final(self).querys == old(self).querys,
            final(self).body == old(self).body,
    {
        let date = http_date_now();
        let r = self.header_sign_at(date.as_str());
        proof {
            let d = date@;
            assert(d.len() <= 40);
            let text = old(self).header_string_to_sign(d);
            assert(r is Ok <==> old(self).signable() && fits_hmac(old(self).oss@.ak_secret, text));
        }
        r
    }
}

} // verus!
