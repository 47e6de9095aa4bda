//! The canonicalizer: turns a request's method, resource, query parameters
//! and headers into the exact text that is signed.
use vstd::prelude::*;
use vstd::string::{StrSliceExecFns, StringExecFns};
use crate::text::{
    ascii_lower_seq, has_prefix_ignore_case, push_char, starts_with_ignore_case, to_ascii_lower, lemma_name_lt_asymmetric,
    lemma_name_lt_irreflexive, lemma_name_lt_total, lemma_name_lt_transitive, name_lt, str_eq,
    str_lt,
};

verus! {

/// A name/value pair as plain character sequences.
pub type Pair = (Seq<char>, Seq<char>);

pub open spec fn pair_view(e: (String, String)) -> Pair {
    (e.0@, e.1@)
}

pub open spec fn pairs_view(v: Seq<(String, String)>) -> Seq<Pair> {
    v.map_values(|e: (String, String)| pair_view(e))
}

/// Names strictly increase along the sequence.
pub open spec fn sorted_by_name(s: Seq<Pair>) -> bool {
    forall|i: int, j: int| 0 <= i < j < s.len() ==> name_lt(#[trigger] s[i].0, #[trigger] s[j].0)
}

/// No two positions carry the same name.
pub open spec fn names_distinct(s: Seq<Pair>) -> bool {
    forall|i: int, j: int| 0 <= i < j < s.len() ==> #[trigger] s[i].0 != #[trigger] s[j].0
}

/// The pairs of `s` in increasing order of name.
pub open spec fn name_ordered(s: Seq<Pair>) -> Seq<Pair> {
    choose|t: Seq<Pair>| sorted_by_name(t) && t.to_set() == s.to_set()
}

/// Two sequences sorted by name that hold the same pairs are equal.
pub proof fn lemma_sorted_unique(a: Seq<Pair>, b: Seq<Pair>)
    requires
        sorted_by_name(a),
        sorted_by_name(b),
        a.to_set() == b.to_set(),
    ensures
        a == b,
    decreases a.len(),
{
    if a.len() == 0 || b.len() == 0 {
        if b.len() > 0 {
            assert(b.to_set().contains(b[0]));
        }
        if a.len() > 0 {
            assert(a.to_set().contains(a[0]));
        }
        assert(a =~= b);
    } else {
        assert(a.to_set().contains(a[0]));
        assert(b.to_set().contains(b[0]));
        let j = choose|j: int| 0 <= j < b.len() && b[j] == a[0];
        let k = choose|k: int| 0 <= k < a.len() && a[k] == b[0];
        lemma_name_lt_irreflexive(a[0].0);
        lemma_name_lt_irreflexive(b[0].0);
        lemma_name_lt_asymmetric(a[0].0, b[0].0);
        if j > 0 {
            assert(name_lt(b[0].0, b[j].0));
            if k > 0 {
                assert(name_lt(a[0].0, a[k].0));
            }
        }
        assert(a[0] == b[0]);
        let ta = a.drop_first();
        let tb = b.drop_first();
        assert forall|x: Pair| ta.to_set().contains(x) implies tb.to_set().contains(x) by {
            let m = choose|m: int| 0 <= m < ta.len() && ta[m] == x;
            assert(a[m + 1] == x);
            assert(a.to_set().contains(x));
            let n = choose|n: int| 0 <= n < b.len() && b[n] == x;
            assert(name_lt(a[0].0, a[m + 1].0));
            lemma_name_lt_irreflexive(x.0);
            assert(n != 0);
            assert(tb[n - 1] == x);
        }
        assert forall|x: Pair| tb.to_set().contains(x) implies ta.to_set().contains(x) by {
            let m = choose|m: int| 0 <= m < tb.len() && tb[m] == x;
            assert(b[m + 1] == x);
            assert(b.to_set().contains(x));
            let n = choose|n: int| 0 <= n < a.len() && a[n] == x;
            assert(name_lt(b[0].0, b[m + 1].0));
            lemma_name_lt_irreflexive(x.0);
            assert(n != 0);
            assert(ta[n - 1] == x);
        }
        assert(ta.to_set() =~= tb.to_set());
        lemma_sorted_unique(ta, tb);
        assert(a =~= seq![a[0]] + ta);
        assert(b =~= seq![b[0]] + tb);
    }
}

/// A sequence sorted by name is the name order of every sequence with its pairs.
pub proof fn lemma_name_ordered(s: Seq<Pair>, t: Seq<Pair>)
    requires
        sorted_by_name(t),
        t.to_set() == s.to_set(),
    ensures
        name_ordered(s) == t,
{
    let c = name_ordered(s);
    assert(sorted_by_name(c) && c.to_set() == s.to_set());
    lemma_sorted_unique(c, t);
}

proof fn lemma_push_to_set(s: Seq<Pair>, e: Pair)
    ensures
        s.push(e).to_set() == s.to_set().insert(e),
{
    assert forall|x: Pair| s.push(e).to_set().contains(x) implies s.to_set().insert(e).contains(x) by {
        let m = choose|m: int| 0 <= m < s.push(e).len() && s.push(e)[m] == x;
        if m < s.len() {
            assert(s[m] == x);
        }
    }
    assert forall|x: Pair| s.to_set().insert(e).contains(x) implies s.push(e).to_set().contains(x) by {
        if x == e {
            assert(s.push(e)[s.len() as int] == x);
        } else {
            let m = choose|m: int| 0 <= m < s.len() && s[m] == x;
            assert(s.push(e)[m] == x);
        }
    }
    assert(s.push(e).to_set() =~= s.to_set().insert(e));
}

/// The sub-resource names: query parameters that select an operation or
/// override a response header, and so take part in the signature.
pub open spec fn is_sub_resource_name(n: Seq<char>) -> bool {
    ||| n == "acl"@
    ||| n == "uploads"@
    ||| n == "location"@
    ||| n == "cors"@
    ||| n == "logging"@
    ||| n == "website"@
    ||| n == "referer"@
    ||| n == "lifecycle"@
    ||| n == "delete"@
    ||| n == "append"@
    ||| n == "tagging"@
    ||| n == "objectMeta"@
    ||| n == "uploadId"@
    ||| n == "partNumber"@
    ||| n == "security-token"@
    ||| n == "position"@
    ||| n == "img"@
    ||| n == "style"@
    ||| n == "styleName"@
    ||| n == "replication"@
    ||| n == "replicationProgress"@
    ||| n == "replicationLocation"@
    ||| n == "cname"@
    ||| n == "bucketInfo"@
    ||| n == "comp"@
    ||| n == "qos"@
    ||| n == "live"@
    ||| n == "status"@
    ||| n == "vod"@
    ||| n == "startTime"@
    ||| n == "endTime"@
    ||| n == "symlink"@
    ||| n == "x-oss-process"@
    ||| n == "response-content-type"@
    ||| n == "x-oss-traffic-limit"@
    ||| n == "response-content-language"@
    ||| n == "response-expires"@
    ||| n == "response-cache-control"@
    ||| n == "response-content-disposition"@
    ||| n == "response-content-encoding"@
    ||| n == "udf"@
    ||| n == "udfName"@
    ||| n == "udfImage"@
    ||| n == "udfId"@
    ||| n == "udfImageDesc"@
    ||| n == "udfApplication"@
    ||| n == "udfApplicationLog"@
    ||| n == "restore"@
    ||| n == "callback"@
    ||| n == "callback-var"@
    ||| n == "qosInfo"@
    ||| n == "policy"@
    ||| n == "stat"@
    ||| n == "encryption"@
    ||| n == "versions"@
    ||| n == "versioning"@
    ||| n == "versionId"@
    ||| n == "requestPayment"@
    ||| n == "x-oss-request-payer"@
    ||| n == "sequential"@
    ||| n == "inventory"@
    ||| n == "inventoryId"@
    ||| n == "continuation-token"@
    ||| n == "asyncFetch"@
    ||| n == "worm"@
    ||| n == "wormId"@
    ||| n == "wormExtend"@
    ||| n == "withHashContext"@
    ||| n == "x-oss-enable-md5"@
    ||| n == "x-oss-enable-sha1"@
    ||| n == "x-oss-enable-sha256"@
    ||| n == "x-oss-hash-ctx"@
    ||| n == "x-oss-md5-ctx"@
    ||| n == "transferAcceleration"@
    ||| n == "regionList"@
    ||| n == "cloudboxes"@
    ||| n == "x-oss-ac-source-ip"@
    ||| n == "x-oss-ac-subnet-mask"@
    ||| n == "x-oss-ac-vpc-id"@
    ||| n == "x-oss-ac-forward-allow"@
    ||| n == "metaQuery"@
    ||| n == "resourceGroup"@
    ||| n == "rtc"@
}

/// Whether `n` is a sub-resource name.
pub fn is_sub_resource(n: &str) -> (r: bool)
    ensures
        r == is_sub_resource_name(n@),
{
    str_eq(n, "acl")
        || str_eq(n, "uploads")
        || str_eq(n, "location")
        || str_eq(n, "cors")
        || str_eq(n, "logging")
        || str_eq(n, "website")
        || str_eq(n, "referer")
        || str_eq(n, "lifecycle")
        || str_eq(n, "delete")
        || str_eq(n, "append")
        || str_eq(n, "tagging")
        || str_eq(n, "objectMeta")
        || str_eq(n, "uploadId")
        || str_eq(n, "partNumber")
        || str_eq(n, "security-token")
        || str_eq(n, "position")
        || str_eq(n, "img")
        || str_eq(n, "style")
        || str_eq(n, "styleName")
        || str_eq(n, "replication")
        || str_eq(n, "replicationProgress")
        || str_eq(n, "replicationLocation")
        || str_eq(n, "cname")
        || str_eq(n, "bucketInfo")
        || str_eq(n, "comp")
        || str_eq(n, "qos")
        || str_eq(n, "live")
        || str_eq(n, "status")
        || str_eq(n, "vod")
        || str_eq(n, "startTime")
        || str_eq(n, "endTime")
        || str_eq(n, "symlink")
        || str_eq(n, "x-oss-process")
        || str_eq(n, "response-content-type")
        || str_eq(n, "x-oss-traffic-limit")
        || str_eq(n, "response-content-language")
        || str_eq(n, "response-expires")
        || str_eq(n, "response-cache-control")
        || str_eq(n, "response-content-disposition")
        || str_eq(n, "response-content-encoding")
        || str_eq(n, "udf")
        || str_eq(n, "udfName")
        || str_eq(n, "udfImage")
        || str_eq(n, "udfId")
        || str_eq(n, "udfImageDesc")
        || str_eq(n, "udfApplication")
        || str_eq(n, "udfApplicationLog")
        || str_eq(n, "restore")
        || str_eq(n, "callback")
        || str_eq(n, "callback-var")
        || str_eq(n, "qosInfo")
        || str_eq(n, "policy")
        || str_eq(n, "stat")
        || str_eq(n, "encryption")
        || str_eq(n, "versions")
        || str_eq(n, "versioning")
        || str_eq(n, "versionId")
        || str_eq(n, "requestPayment")
        || str_eq(n, "x-oss-request-payer")
        || str_eq(n, "sequential")
        || str_eq(n, "inventory")
        || str_eq(n, "inventoryId")
        || str_eq(n, "continuation-token")
        || str_eq(n, "asyncFetch")
        || str_eq(n, "worm")
        || str_eq(n, "wormId")
        || str_eq(n, "wormExtend")
        || str_eq(n, "withHashContext")
        || str_eq(n, "x-oss-enable-md5")
        || str_eq(n, "x-oss-enable-sha1")
        || str_eq(n, "x-oss-enable-sha256")
        || str_eq(n, "x-oss-hash-ctx")
        || str_eq(n, "x-oss-md5-ctx")
        || str_eq(n, "transferAcceleration")
        || str_eq(n, "regionList")
        || str_eq(n, "cloudboxes")
        || str_eq(n, "x-oss-ac-source-ip")
        || str_eq(n, "x-oss-ac-subnet-mask")
        || str_eq(n, "x-oss-ac-vpc-id")
        || str_eq(n, "x-oss-ac-forward-allow")
        || str_eq(n, "metaQuery")
        || str_eq(n, "resourceGroup")
        || str_eq(n, "rtc")
}

/// The prefix that marks an extension header.
pub open spec fn oss_prefix() -> Seq<char> {
    seq!['x', '-', 'o', 's', 's', '-']
}

/// Whether a header name carries the extension prefix, in any letter case.
pub open spec fn is_extension_header(n: Seq<char>) -> bool {
    has_prefix_ignore_case(n, oss_prefix())
}

/// The extension headers of `h`, in their order, names lower-cased.
pub open spec fn extension_entries(h: Seq<Pair>) -> Seq<Pair>
    decreases h.len(),
{
    if h.len() == 0 {
        seq![]
    } else {
        let rest = extension_entries(h.drop_last());
        let e = h.last();
        if is_extension_header(e.0) {
            rest.push((ascii_lower_seq(e.0), e.1))
        } else {
            rest
        }
    }
}

/// The query parameters of `q` whose names are sub-resource names, in their order.
pub open spec fn sub_resource_entries(q: Seq<Pair>) -> Seq<Pair>
    decreases q.len(),
{
    if q.len() == 0 {
        seq![]
    } else {
        let rest = sub_resource_entries(q.drop_last());
        if is_sub_resource_name(q.last().0) {
            rest.push(q.last())
        } else {
            rest
        }
    }
}

/// One `name:value` line per pair, each ended by a newline.
pub open spec fn header_lines(s: Seq<Pair>) -> Seq<char>
    decreases s.len(),
{
    if s.len() == 0 {
        seq![]
    } else {
        header_lines(s.drop_last()) + s.last().0 + seq![':'] + s.last().1 + seq!['\n']
    }
}

/// A query parameter as it is written in a resource: the bare name when the
/// value is empty, `name=value` otherwise.
pub open spec fn param_text(e: Pair) -> Seq<char> {
    if e.1.len() == 0 {
        e.0
    } else {
        e.0 + seq!['='] + e.1
    }
}

/// The parameters joined by `&`.
pub open spec fn param_list(s: Seq<Pair>) -> Seq<char>
    decreases s.len(),
{
    if s.len() == 0 {
        seq![]
    } else if s.len() == 1 {
        param_text(s[0])
    } else {
        param_list(s.drop_last()) + seq!['&'] + param_text(s.last())
    }
}

/// The canonical extension-header block of a header set, when no two
/// extension headers share a name once lower-cased.
pub open spec fn canonical_headers_of(h: Seq<Pair>) -> Seq<char> {
    header_lines(name_ordered(extension_entries(h)))
}

/// The sub-resource part of the canonical resource.
pub open spec fn canonical_sub_resource_of(q: Seq<Pair>) -> Seq<char> {
    param_list(name_ordered(sub_resource_entries(q)))
}

/// The last value among the headers whose name equals `name` in any letter case,
/// or the empty sequence.
pub open spec fn header_value_of(h: Seq<Pair>, name: Seq<char>) -> Seq<char>
    decreases h.len(),
{
    if h.len() == 0 {
        seq![]
    } else if ascii_lower_seq(h.last().0) == ascii_lower_seq(name) {
        h.last().1
    } else {
        header_value_of(h.drop_last(), name)
    }
}

/// The canonical resource: `/`, then `bucket/` when there is a bucket, then the
/// object key when there is one, then `?` and the sub-resources when there are any.
pub open spec fn canonical_resource_of(
    bucket: Option<Seq<char>>,
    object: Option<Seq<char>>,
    q: Seq<Pair>,
) -> Seq<char> {
    let base = seq!['/'] + match bucket {
        Some(b) => b + seq!['/'],
        None => Seq::<char>::empty(),
    } + match object {
        Some(o) => o,
        None => Seq::<char>::empty(),
    };
    let sub = canonical_sub_resource_of(q);
    if sub.len() == 0 {
        base
    } else {
        base + seq!['?'] + sub
    }
}

/// The text that is signed.
pub open spec fn string_to_sign_of(
    method: Seq<char>,
    content_md5: Seq<char>,
    content_type: Seq<char>,
    date: Seq<char>,
    headers: Seq<char>,
    resource: Seq<char>,
) -> Seq<char> {
    method + seq!['\n'] + content_md5 + seq!['\n'] + content_type + seq!['\n'] + date + seq!['\n']
        + headers + resource
}

pub proof fn lemma_pairs_view_push(v: Seq<(String, String)>, i: int)
    requires
        0 <= i < v.len(),
    ensures
        pairs_view(v.take(i + 1)) == pairs_view(v.take(i)).push(pair_view(v[i])),
        pairs_view(v.take(i + 1)).drop_last() == pairs_view(v.take(i)),
        pairs_view(v.take(i + 1)).last() == pair_view(v[i]),
{
    assert(pairs_view(v.take(i + 1)) =~= pairs_view(v.take(i)).push(pair_view(v[i])));
}

/// The extension headers of `headers`, names lower-cased.
pub fn extension_headers(headers: &Vec<(String, String)>) -> (r: Vec<(String, String)>)
    ensures
        pairs_view(r@) == extension_entries(pairs_view(headers@)),
{
    let mut out: Vec<(String, String)> = Vec::new();
    let mut i: usize = 0;
    while i < headers.len()
        invariant
            i <= headers.len(),
            pairs_view(out@) == extension_entries(pairs_view(headers@.take(i as int))),
        decreases headers.len() - i,
    {
        proof {
            lemma_pairs_view_push(headers@, i as int);
        }
        let name = &headers[i].0;
        if starts_with_ignore_case(name, "x-oss-") {
            proof {
                reveal_strlit("x-oss-");
                assert("x-oss-"@ =~= oss_prefix());
            }
            let lowered = to_ascii_lower(name);
            let ghost before = pairs_view(out@);
            out.push((lowered, headers[i].1.clone()));
            assert(pairs_view(out@) =~= before.push((lowered@, headers@[i as int].1@)));
        } else {
            proof {
                reveal_strlit("x-oss-");
                assert("x-oss-"@ =~= oss_prefix());
            }
        }
        i = i + 1;
    }
    assert(headers@.take(i as int) =~= headers@);
    out
}

/// The query parameters of `query` that are sub-resources.
pub fn sub_resources(query: &Vec<(String, String)>) -> (r: Vec<(String, String)>)
    ensures
        pairs_view(r@) == sub_resource_entries(pairs_view(query@)),
{
    let mut out: Vec<(String, String)> = Vec::new();
    let mut i: usize = 0;
    while i < query.len()
        invariant
            i <= query.len(),
            pairs_view(out@) == sub_resource_entries(pairs_view(query@.take(i as int))),
        decreases query.len() - i,
    {
        proof {
            lemma_pairs_view_push(query@, i as int);
        }
        if is_sub_resource(&query[i].0) {
            let ghost before = pairs_view(out@);
            out.push((query[i].0.clone(), query[i].1.clone()));
            assert(pairs_view(out@) =~= before.push(pair_view(query@[i as int])));
        }
        i = i + 1;
    }
    assert(query@.take(i as int) =~= query@);
    out
}

/// Renders `name:value\n` for each pair.
pub fn render_header_lines(entries: &Vec<(String, String)>) -> (r: String)
    ensures
        r@ == header_lines(pairs_view(entries@)),
{
    let mut out = String::new();
    let mut i: usize = 0;
    while i < entries.len()
        invariant
            i <= entries.len(),
            out@ == header_lines(pairs_view(entries@.take(i as int))),
        decreases entries.len() - i,
    {
        proof {
            lemma_pairs_view_push(entries@, i as int);
        }
        out.append(entries[i].0.as_str());
        push_char(&mut out, ':');
        out.append(entries[i].1.as_str());
        push_char(&mut out, '\n');
        i = i + 1;
    }
    assert(entries@.take(i as int) =~= entries@);
    out
}

/// Renders the parameters joined by `&`.
pub fn render_params(entries: &Vec<(String, String)>) -> (r: String)
    ensures
        r@ == param_list(pairs_view(entries@)),
{
    let mut out = String::new();
    let mut i: usize = 0;
    while i < entries.len()
        invariant
            i <= entries.len(),
            out@ == param_list(pairs_view(entries@.take(i as int))),
        decreases entries.len() - i,
    {
        proof {
            lemma_pairs_view_push(entries@, i as int);
        }
        if i > 0 {
            push_char(&mut out, '&');
        }
        out.append(entries[i].0.as_str());
        if entries[i].1.unicode_len() > 0 {
            push_char(&mut out, '=');
            out.append(entries[i].1.as_str());
        }
        proof {
            let t = pairs_view(entries@.take(i + 1));
            if i == 0 {
                assert(t.len() == 1);
            }
        }
        i = i + 1;
    }
    assert(entries@.take(i as int) =~= entries@);
    out
}

/// The canonical extension-header block: the extension headers with names
/// lower-cased, sorted by name, one `name:value\n` line each. Fails when two
/// of them share a name once lower-cased.
pub fn canonical_headers(headers: &Vec<(String, String)>) -> (r: Result<String, ()>)
    ensures
        r is Ok <==> names_distinct(extension_entries(pairs_view(headers@))),
        r matches Ok(s) ==> s@ == canonical_headers_of(pairs_view(headers@)),
{
    let ext = extension_headers(headers);
    match sort_by_name(&ext) {
        Ok(sorted) => {
            proof {
                lemma_name_ordered(pairs_view(ext@), pairs_view(sorted@));
            }
            Ok(render_header_lines(&sorted))
        },
        Err(()) => Err(()),
    }
}

/// The sub-resource text: the sub-resource parameters sorted by name, each
/// `name` or `name=value`, joined by `&`. Fails when two share a name.
pub fn canonical_sub_resource(query: &Vec<(String, String)>) -> (r: Result<String, ()>)
    ensures
        r is Ok <==> names_distinct(sub_resource_entries(pairs_view(query@))),
        r matches Ok(s) ==> s@ == canonical_sub_resource_of(pairs_view(query@)),
{
    let sub = sub_resources(query);
    match sort_by_name(&sub) {
        Ok(sorted) => {
            proof {
                lemma_name_ordered(pairs_view(sub@), pairs_view(sorted@));
            }
            Ok(render_params(&sorted))
        },
        Err(()) => Err(()),
    }
}

/// The value of the last header named `name` in any letter case, or "".
pub fn header_value(headers: &Vec<(String, String)>, name: &str) -> (r: String)
    ensures
        r@ == header_value_of(pairs_view(headers@), name@),
{
    let target = to_ascii_lower(name);
    let mut found = String::new();
    let mut i: usize = 0;
    while i < headers.len()
        invariant
            i <= headers.len(),
            target@ == ascii_lower_seq(name@),
            found@ == header_value_of(pairs_view(headers@.take(i as int)), name@),
        decreases headers.len() - i,
    {
        proof {
            lemma_pairs_view_push(headers@, i as int);
        }
        let lowered = to_ascii_lower(&headers[i].0);
        if str_eq(lowered.as_str(), target.as_str()) {
            found = headers[i].1.clone();
        }
        i = i + 1;
    }
    assert(headers@.take(i as int) =~= headers@);
    found
}

/// The canonical resource of a request. Fails when two sub-resource
/// parameters share a name.
pub fn canonical_resource(
    bucket: Option<&str>,
    object: Option<&str>,
    query: &Vec<(String, String)>,
) -> (r: Result<String, ()>)
    ensures
        r is Ok <==> names_distinct(sub_resource_entries(pairs_view(query@))),
        r matches Ok(s) ==> s@ == canonical_resource_of(
            match bucket {
                Some(b) => Some(b@),
                None => None,
            },
            match object {
                Some(o) => Some(o@),
                None => None,
            },
            pairs_view(query@),
        ),
{
    let sub = canonical_sub_resource(query)?;
    let mut out = String::new();
    push_char(&mut out, '/');
    match bucket {
        Some(b) => {
            out.append(b);
            push_char(&mut out, '/');
        },
        None => {},
    }
    match object {
        Some(o) => {
            out.append(o);
        },
        None => {},
    }
    if sub.unicode_len() > 0 {
        push_char(&mut out, '?');
        out.append(sub.as_str());
    }
    proof {
        let bv = match bucket {
            Some(b) => Some(b@),
            None => None,
        };
        let ov = match object {
            Some(o) => Some(o@),
            None => None,
        };
        assert(out@ =~= canonical_resource_of(bv, ov, pairs_view(query@)));
    }
    Ok(out)
}

/// Joins the six parts of the text that is signed.
pub fn string_to_sign(
    method: &str,
    content_md5: &str,
    content_type: &str,
    date: &str,
    headers: &str,
    resource: &str,
) -> (r: String)
    ensures
        r@ == string_to_sign_of(method@, content_md5@, content_type@, date@, headers@, resource@),
{
    let mut out = String::from_str(method);
    push_char(&mut out, '\n');
    out.append(content_md5);
    push_char(&mut out, '\n');
    out.append(content_type);
    push_char(&mut out, '\n');
    out.append(date);
    push_char(&mut out, '\n');
    out.append(headers);
    out.append(resource);
    assert(out@ =~= string_to_sign_of(method@, content_md5@, content_type@, date@, headers@, resource@));
    out
}

proof fn lemma_sub_resource_entries_skip(q1: Seq<Pair>, e: Pair, q2: Seq<Pair>)
    requires
        !is_sub_resource_name(e.0),
    ensures
        sub_resource_entries(q1.push(e) + q2) == sub_resource_entries(q1 + q2),
    decreases q2.len(),
{
    if q2.len() == 0 {
        assert(q1.push(e) + q2 =~= q1.push(e));
        assert(q1 + q2 =~= q1);
        assert(q1.push(e).drop_last() =~= q1);
    } else {
        let init = q2.drop_last();
        lemma_sub_resource_entries_skip(q1, e, init);
        assert((q1.push(e) + q2).drop_last() =~= q1.push(e) + init);
        assert((q1 + q2).drop_last() =~= q1 + init);
        assert((q1.push(e) + q2).last() == q2.last());
        assert((q1 + q2).last() == q2.last());
    }
}

/// A query parameter whose name is not a sub-resource name never takes part
/// in the canonical resource: adding it anywhere leaves the resource as it was.
pub proof fn lemma_allow_list_exclusion(
    bucket: Option<Seq<char>>,
    object: Option<Seq<char>>,
    before: Seq<Pair>,
    param: Pair,
    after: Seq<Pair>,
)
    requires
        !is_sub_resource_name(param.0),
    ensures
        canonical_resource_of(bucket, object, before.push(param) + after) == canonical_resource_of(
            bucket,
            object,
            before + after,
        ),
{
    lemma_sub_resource_entries_skip(before, param, after);
}

/// The extension-header block depends only on which lower-cased extension
/// headers are present, not on their order nor on the letter case of the
/// names given.
pub proof fn lemma_header_order_case_invariance(h1: Seq<Pair>, h2: Seq<Pair>)
    requires
        extension_entries(h1).to_set() == extension_entries(h2).to_set(),
    ensures
        canonical_headers_of(h1) == canonical_headers_of(h2),
{
}

/// `x` is what the header `e` contributes to the extension-header block.
pub open spec fn contributes(e: Pair, x: Pair) -> bool {
    is_extension_header(e.0) && (ascii_lower_seq(e.0), e.1) == x
}

proof fn lemma_extension_entries_contains(h: Seq<Pair>, x: Pair)
    ensures
        extension_entries(h).contains(x) <==> exists|i: int|
            0 <= i < h.len() && #[trigger] contributes(h[i], x),
    decreases h.len(),
{
    if h.len() > 0 {
        let init = h.drop_last();
        lemma_extension_entries_contains(init, x);
        let rest = extension_entries(init);
        if extension_entries(h).contains(x) {
            let k = choose|k: int| 0 <= k < extension_entries(h).len() && extension_entries(h)[k] == x;
            if k < rest.len() {
                assert(rest[k] == x);
                let i = choose|i: int| 0 <= i < init.len() && #[trigger] contributes(init[i], x);
                assert(contributes(h[i], x));
            } else {
                assert(contributes(h[h.len() - 1], x));
            }
        }
        if exists|i: int| 0 <= i < h.len() && #[trigger] contributes(h[i], x) {
            let i = choose|i: int| 0 <= i < h.len() && #[trigger] contributes(h[i], x);
            if i < init.len() {
                assert(contributes(init[i], x));
                let k = choose|k: int| 0 <= k < rest.len() && rest[k] == x;
                assert(extension_entries(h)[k] == x);
            } else {
                let ext = extension_entries(h);
                assert(ext[ext.len() - 1] == x);
            }
        }
    }
}

/// Reordering the headers leaves the extension-header block as it was.
pub proof fn lemma_header_order_invariance(h1: Seq<Pair>, h2: Seq<Pair>)
    requires
        h1.to_multiset() == h2.to_multiset(),
    ensures
        canonical_headers_of(h1) == canonical_headers_of(h2),
{
    h1.to_multiset_ensures();
    h2.to_multiset_ensures();
    assert forall|x: Pair| extension_entries(h1).to_set().contains(x) implies extension_entries(
        h2,
    ).to_set().contains(x) by {
        lemma_extension_entries_contains(h1, x);
        lemma_extension_entries_contains(h2, x);
        let i = choose|i: int| 0 <= i < h1.len() && #[trigger] contributes(h1[i], x);
        assert(h1.contains(h1[i]));
        assert(h1.to_multiset().count(h1[i]) > 0);
        assert(h2.contains(h1[i]));
        let j = choose|j: int| 0 <= j < h2.len() && h2[j] == h1[i];
        assert(contributes(h2[j], x));
    }
    assert forall|x: Pair| extension_entries(h2).to_set().contains(x) implies extension_entries(
        h1,
    ).to_set().contains(x) by {
        lemma_extension_entries_contains(h1, x);
        lemma_extension_entries_contains(h2, x);
        let j = choose|j: int| 0 <= j < h2.len() && #[trigger] contributes(h2[j], x);
        assert(h2.contains(h2[j]));
        assert(h2.to_multiset().count(h2[j]) > 0);
        assert(h1.contains(h2[j]));
        let i = choose|i: int| 0 <= i < h1.len() && h1[i] == h2[j];
        assert(contributes(h1[i], x));
    }
    assert(extension_entries(h1).to_set() =~= extension_entries(h2).to_set());
}

/// Header lists that differ only in the letter case of their names have the
/// same extension headers.
pub proof fn lemma_header_case_insensitive(h1: Seq<Pair>, h2: Seq<Pair>)
    requires
        h1.len() == h2.len(),
        forall|i: int| 0 <= i < h1.len() ==> ascii_lower_seq(#[trigger] h1[i].0) == ascii_lower_seq(h2[i].0)
            && h1[i].1 == h2[i].1,
    ensures
        extension_entries(h1) == extension_entries(h2),
    decreases h1.len(),
{
    if h1.len() > 0 {
        let n = h1.len() - 1;
        lemma_header_case_insensitive(h1.drop_last(), h2.drop_last());
        let a = h1[n].0;
        let b = h2[n].0;
        assert(ascii_lower_seq(a) == ascii_lower_seq(b));
        assert(ascii_lower_seq(a).len() == a.len());
        assert(ascii_lower_seq(b).len() == b.len());
        let p = oss_prefix().len() as int;
        if p <= a.len() {
            assert(ascii_lower_seq(a.take(p)) =~= ascii_lower_seq(a).take(p));
            assert(ascii_lower_seq(b.take(p)) =~= ascii_lower_seq(b).take(p));
        }
    }
}

/// Sorts pairs by name. Fails exactly when two pairs share a name.
pub fn sort_by_name(entries: &Vec<(String, String)>) -> (r: Result<Vec<(String, String)>, ()>)
    ensures
        r is Ok <==> names_distinct(pairs_view(entries@)),
        r matches Ok(out) ==> sorted_by_name(pairs_view(out@)) && pairs_view(out@).to_set()
            == pairs_view(entries@).to_set(),
{
    let ghost src = pairs_view(entries@);
    let mut out: Vec<(String, String)> = Vec::new();
    let mut i: usize = 0;
    while i < entries.len()
        invariant
            src == pairs_view(entries@),
            i <= entries.len(),
            sorted_by_name(pairs_view(out@)),
            pairs_view(out@).to_set() == src.take(i as int).to_set(),
            names_distinct(src.take(i as int)),
        decreases entries.len() - i,
    {
        let name = &entries[i].0;
        let value = &entries[i].1;
        let ghost cur = pairs_view(out@);
        let ghost e = src[i as int];
        assert(e == (name@, value@));
        let mut p: usize = 0;
        let mut scanning = true;
        while scanning && p < out.len()
            invariant
                cur == pairs_view(out@),
                p <= out.len(),
                forall|k: int| 0 <= k < p ==> name_lt(#[trigger] cur[k].0, name@),
                !scanning ==> p < out.len() && !name_lt(cur[p as int].0, name@),
            decreases out.len() - p + if scanning { 1int } else { 0int },
        {
            if str_lt(&out[p].0, name) {
                p = p + 1;
            } else {
                scanning = false;
            }
        }
        if p < out.len() && str_eq(&out[p].0, name) {
            proof {
                assert(cur.to_set().contains(cur[p as int]));
                let j = choose|j: int| 0 <= j < i && src.take(i as int)[j] == cur[p as int];
                assert(src[j].0 == src[i as int].0);
            }
            return Err(());
        }
        proof {
            if p < out.len() {
                lemma_name_lt_total(cur[p as int].0, name@);
                assert forall|k: int| p <= k < cur.len() implies name_lt(name@, #[trigger] cur[k].0) by {
                    if k > p {
                        lemma_name_lt_transitive(name@, cur[p as int].0, cur[k].0);
                    }
                }
            }
        }
        let item = (name.clone(), value.clone());
        out.insert(p, item);
        proof {
            let nxt = pairs_view(out@);
            assert(nxt =~= cur.insert(p as int, e));
            assert forall|a: int, b: int| 0 <= a < b < nxt.len() implies name_lt(
                #[trigger] nxt[a].0,
                #[trigger] nxt[b].0,
            ) by {
                if b < p {
                } else if b == p {
                } else if a < p {
                    lemma_name_lt_transitive(cur[a].0, name@, cur[b - 1].0);
                } else if a == p {
                } else {
                }
            }
            assert(src.take(i + 1) =~= src.take(i as int).push(e));
            assert(nxt.to_set() =~= cur.to_set().insert(e)) by {
                assert forall|x: Pair| nxt.to_set().contains(x) implies cur.to_set().insert(e).contains(x) by {
                    let m = choose|m: int| 0 <= m < nxt.len() && nxt[m] == x;
                    if m < p {
                        assert(cur[m] == x);
                    } else if m > p {
                        assert(cur[m - 1] == x);
                    }
                }
                assert forall|x: Pair| cur.to_set().insert(e).contains(x) implies nxt.to_set().contains(x) by {
                    if x == e {
                        assert(nxt[p as int] == x);
                    } else {
                        let m = choose|m: int| 0 <= m < cur.len() && cur[m] == x;
                        if m < p {
                            assert(nxt[m] == x);
                        } else {
                            assert(nxt[m + 1] == x);
                        }
                    }
                }
            }
            lemma_push_to_set(src.take(i as int), e);
            let pre = src.take(i + 1);
            assert forall|a: int, b: int| 0 <= a < b < pre.len() implies #[trigger] pre[a].0
                != #[trigger] pre[b].0 by {
                if b == i {
                    assert(src.take(i as int).to_set().contains(pre[a]));
                    assert(cur.to_set().contains(pre[a]));
                    let m = choose|m: int| 0 <= m < cur.len() && cur[m] == pre[a];
                    lemma_name_lt_irreflexive(name@);
                    if m < p {
                    } else {
                    }
                } else {
                    assert(pre[a] == src.take(i as int)[a]);
                    assert(pre[b] == src.take(i as int)[b]);
                }
            }
        }
        i = i + 1;
    }
    assert(src.take(i as int) =~= src);
    Ok(out)
}

} // verus!
