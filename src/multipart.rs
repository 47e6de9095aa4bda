//! Multipart uploads: the part manifest sent on completion, the size limits
//! checked before a part is sent, and the session that ties them together.
use vstd::prelude::*;
use crate::error::Error;
use crate::text::{decimal, push_decimal};

verus! {

/// Part numbers run from 1 to this bound.
pub const MAX_PART_NUMBER: u32 = 10000;

/// Smallest part read from a file.
pub const MIN_PART_SIZE: u64 = 102_400;

/// Bound (exclusive) on a part read from a file, and on appended content.
pub const MAX_PART_SIZE: u64 = 5_368_709_120;

/// Bound (exclusive) on a part, or an object, uploaded from memory.
pub const MAX_CONTENT_SIZE: u64 = 5_000_000_000;

/// A part: its number and its ETag.
pub type PartRef = (u32, Seq<char>);

pub open spec fn part_view(p: (u32, String)) -> PartRef {
    (p.0, p.1@)
}

pub open spec fn parts_view(v: Seq<(u32, String)>) -> Seq<PartRef> {
    v.map_values(|p: (u32, String)| part_view(p))
}

pub open spec fn valid_part_number(n: u32) -> bool {
    1 <= n && n <= MAX_PART_NUMBER
}

/// Part numbers strictly increase along the sequence.
pub open spec fn ascending(s: Seq<PartRef>) -> bool {
    forall|i: int, j: int| 0 <= i < j < s.len() ==> (#[trigger] s[i]).0 < (#[trigger] s[j]).0
}

pub open spec fn numbers_distinct(s: Seq<PartRef>) -> bool {
    forall|i: int, j: int| 0 <= i < j < s.len() ==> (#[trigger] s[i]).0 != (#[trigger] s[j]).0
}

/// The parts of `s` in ascending part-number order.
pub open spec fn part_ordered(s: Seq<PartRef>) -> Seq<PartRef> {
    choose|t: Seq<PartRef>| ascending(t) && t.to_set() == s.to_set()
}

pub open spec fn part_xml(p: PartRef) -> Seq<char> {
    "<Part><PartNumber>"@ + decimal(p.0 as nat) + "</PartNumber><ETag>"@ + p.1 + "</ETag></Part>"@
}

pub open spec fn parts_xml(s: Seq<PartRef>) -> Seq<char>
    decreases s.len(),
{
    if s.len() == 0 {
        seq![]
    } else {
        parts_xml(s.drop_last()) + part_xml(s.last())
    }
}

/// The completion body for parts already in order.
pub open spec fn manifest_xml(s: Seq<PartRef>) -> Seq<char> {
    "<CompleteMultipartUpload>"@ + parts_xml(s) + "</CompleteMultipartUpload>"@
}

/// Two ascending part lists holding the same parts are equal.
pub proof fn lemma_ascending_unique(a: Seq<PartRef>, b: Seq<PartRef>)
    requires
        ascending(a),
        ascending(b),
        a.to_set() == b.to_set(),
    ensures
        a == b,
    decreases a.len(),
{
    if a.len() == 0 || b.len() == 0 {
        if b.len() > 0 {
            assert(b.to_set().contains(b[0]));
        }
        if a.len() > 0 {
            assert(a.to_set().contains(a[0]));
        }
        assert(a =~= b);
    } else {
        assert(a.to_set().contains(a[0]));
        assert(b.to_set().contains(b[0]));
        let j = choose|j: int| 0 <= j < b.len() && b[j] == a[0];
        let k = choose|k: int| 0 <= k < a.len() && a[k] == b[0];
        if j > 0 {
            assert(b[0].0 < b[j].0);
            if k > 0 {
                assert(a[0].0 < a[k].0);
            }
        }
        assert(a[0] == b[0]);
        let ta = a.drop_first();
        let tb = b.drop_first();
        assert forall|x: PartRef| ta.to_set().contains(x) implies tb.to_set().contains(x) by {
            let m = choose|m: int| 0 <= m < ta.len() && ta[m] == x;
            assert(a[m + 1] == x);
            assert(a.to_set().contains(x));
            let n = choose|n: int| 0 <= n < b.len() && b[n] == x;
            assert(a[0].0 < a[m + 1].0);
            assert(n != 0);
            assert(tb[n - 1] == x);
        }
        assert forall|x: PartRef| tb.to_set().contains(x) implies ta.to_set().contains(x) by {
            let m = choose|m: int| 0 <= m < tb.len() && tb[m] == x;
            assert(b[m + 1] == x);
            assert(b.to_set().contains(x));
            let n = choose|n: int| 0 <= n < a.len() && a[n] == x;
            assert(b[0].0 < b[m + 1].0);
            assert(n != 0);
            assert(ta[n - 1] == x);
        }
        assert(ta.to_set() =~= tb.to_set());
        lemma_ascending_unique(ta, tb);
        assert(a =~= seq![a[0]] + ta);
        assert(b =~= seq![b[0]] + tb);
    }
}

proof fn lemma_part_ordered(s: Seq<PartRef>, t: Seq<PartRef>)
    requires
        ascending(t),
        t.to_set() == s.to_set(),
    ensures
        part_ordered(s) == t,
{
    let c = part_ordered(s);
    assert(ascending(c) && c.to_set() == s.to_set());
    lemma_ascending_unique(c, t);
}

proof fn lemma_push_to_set(s: Seq<PartRef>, e: PartRef)
    ensures
        s.push(e).to_set() == s.to_set().insert(e),
{
    assert forall|x: PartRef| s.push(e).to_set().contains(x) implies s.to_set().insert(e).contains(x) by {
        let m = choose|m: int| 0 <= m < s.push(e).len() && s.push(e)[m] == x;
        if m < s.len() {
            assert(s[m] == x);
        }
    }
    assert forall|x: PartRef| s.to_set().insert(e).contains(x) implies s.push(e).to_set().contains(x) by {
        if x == e {
            assert(s.push(e)[s.len() as int] == x);
        } else {
            let m = choose|m: int| 0 <= m < s.len() && s[m] == x;
            assert(s.push(e)[m] == x);
        }
    }
    assert(s.push(e).to_set() =~= s.to_set().insert(e));
}

/// Sorts parts by number. Fails with a number that occurs twice.
pub fn sort_parts(parts: &Vec<(u32, String)>) -> (r: Result<Vec<(u32, String)>, u32>)
    ensures
        r is Ok <==> numbers_distinct(parts_view(parts@)),
        r matches Err(n) ==> exists|i: int, j: int|
            0 <= i < j < parts@.len() && parts@[i].0 == n && parts@[j].0 == n,
        r matches Ok(out) ==> ascending(parts_view(out@)) && parts_view(out@).to_set()
            == parts_view(parts@).to_set(),
{
    let ghost src = parts_view(parts@);
    let mut out: Vec<(u32, String)> = Vec::new();
    let mut i: usize = 0;
    while i < parts.len()
        invariant
            src == parts_view(parts@),
            i <= parts.len(),
            ascending(parts_view(out@)),
            parts_view(out@).to_set() == src.take(i as int).to_set(),
            numbers_distinct(src.take(i as int)),
        decreases parts.len() - i,
    {
        let n = parts[i].0;
        let ghost cur = parts_view(out@);
        let ghost e = src[i as int];
        let mut p: usize = 0;
        while p < out.len() && out[p].0 < n
            invariant
                cur == parts_view(out@),
                p <= out.len(),
                forall|k: int| 0 <= k < p ==> (#[trigger] cur[k]).0 < n,
            decreases out.len() - p,
        {
            p = p + 1;
        }
        if p < out.len() && out[p].0 == n {
            proof {
                assert(cur[p as int].0 == n);
                assert(cur.to_set().contains(cur[p as int]));
                let j = choose|j: int| 0 <= j < i && src.take(i as int)[j] == cur[p as int];
                assert(src[j].0 == src[i as int].0);
                assert(parts@[j].0 == n && parts@[i as int].0 == n);
            }
            return Err(n);
        }
        out.insert(p, (n, parts[i].1.clone()));
        proof {
            let nxt = parts_view(out@);
            assert(nxt =~= cur.insert(p as int, e));
            assert forall|a: int, b: int| 0 <= a < b < nxt.len() implies (#[trigger] nxt[a]).0 < (
            #[trigger] nxt[b]).0 by {
                if a < p && b > p {
                    assert(cur[a].0 < n);
                }
            }
            assert(src.take(i + 1) =~= src.take(i as int).push(e));
            assert(nxt.to_set() =~= cur.to_set().insert(e)) by {
                assert forall|x: PartRef| nxt.to_set().contains(x) implies cur.to_set().insert(e).contains(x) by {
                    let m = choose|m: int| 0 <= m < nxt.len() && nxt[m] == x;
                    if m < p {
                        assert(cur[m] == x);
                    } else if m > p {
                        assert(cur[m - 1] == x);
                    }
                }
                assert forall|x: PartRef| cur.to_set().insert(e).contains(x) implies nxt.to_set().contains(x) by {
                    if x == e {
                        assert(nxt[p as int] == x);
                    } else {
                        let m = choose|m: int| 0 <= m < cur.len() && cur[m] == x;
                        if m < p {
                            assert(nxt[m] == x);
                        } else {
                            assert(nxt[m + 1] == x);
                        }
                    }
                }
            }
            lemma_push_to_set(src.take(i as int), e);
            let pre = src.take(i + 1);
            assert forall|a: int, b: int| 0 <= a < b < pre.len() implies (#[trigger] pre[a]).0 != (
            #[trigger] pre[b]).0 by {
                if b == i {
                    assert(src.take(i as int).to_set().contains(pre[a]));
                    assert(cur.to_set().contains(pre[a]));
                    let m = choose|m: int| 0 <= m < cur.len() && cur[m] == pre[a];
                    assert(pre[b] == e);
                    if m >= p {
                        assert(cur[p as int].0 > n);
                        if m > p {
                            assert(cur[p as int].0 < cur[m].0);
                        }
                    }
                } else {
                    assert(pre[a] == src.take(i as int)[a]);
                    assert(pre[b] == src.take(i as int)[b]);
                }
            }
        }
        i = i + 1;
    }
    assert(src.take(i as int) =~= src);
    Ok(out)
}

/// Renders the completion body for parts already in order.
pub fn render_manifest(parts: &Vec<(u32, String)>) -> (r: String)
    ensures
        r@ == manifest_xml(parts_view(parts@)),
{
    let mut out = String::from_str("<CompleteMultipartUpload>");
    let ghost head = out@;
    let mut i: usize = 0;
    while i < parts.len()
        invariant
            i <= parts.len(),
            head == "<CompleteMultipartUpload>"@,
            out@ == head + parts_xml(parts_view(parts@.take(i as int))),
        decreases parts.len() - i,
    {
        assert(parts_view(parts@.take(i + 1)) =~= parts_view(parts@.take(i as int)).push(
            part_view(parts@[i as int]),
        ));
        assert(parts_view(parts@.take(i + 1)).drop_last() =~= parts_view(parts@.take(i as int)));
        out.append("<Part><PartNumber>");
        push_decimal(&mut out, parts[i].0 as u64);
        out.append("</PartNumber><ETag>");
        out.append(parts[i].1.as_str());
        out.append("</ETag></Part>");
        assert(out@ =~= head + parts_xml(parts_view(parts@.take(i + 1))));
        i = i + 1;
    }
    assert(parts@.take(i as int) =~= parts@);
    out.append("</CompleteMultipartUpload>");
    assert(out@ =~= manifest_xml(parts_view(parts@)));
    out
}

/// The first part number outside 1..=10000, scanning in order.
pub open spec fn first_invalid_part(s: Seq<PartRef>) -> Option<u32>
    decreases s.len(),
{
    if s.len() == 0 {
        None
    } else if !valid_part_number(s[0].0) {
        Some(s[0].0)
    } else {
        first_invalid_part(s.drop_first())
    }
}

/// The completion body: the parts in ascending part-number order, whatever
/// order they were given in. An empty list, a part number outside 1..=10000
/// and a repeated part number are refused before anything is sent.
pub fn complete_manifest(parts: &Vec<(u32, String)>) -> (r: Result<String, Error>)
    ensures
        parts@.len() == 0 ==> r == Err::<String, Error>(Error::NoParts),
        parts@.len() > 0 ==> (first_invalid_part(parts_view(parts@)) matches Some(n) ==> r == Err::<
            String,
            Error,
        >(Error::InvalidPartNumber(n))),
        parts@.len() > 0 && first_invalid_part(parts_view(parts@)) is None ==> (r is Ok
            <==> numbers_distinct(parts_view(parts@))),
        r matches Err(Error::DuplicatePart(n)) ==> exists|i: int, j: int|
            0 <= i < j < parts@.len() && parts@[i].0 == n && parts@[j].0 == n,
        r matches Ok(s) ==> s@ == manifest_xml(part_ordered(parts_view(parts@))),
{
    if parts.len() == 0 {
        return Err(Error::NoParts);
    }
    let ghost src = parts_view(parts@);
    let mut i: usize = 0;
    assert(src.skip(0) =~= src);
    while i < parts.len()
        invariant
            src == parts_view(parts@),
            i <= parts.len(),
            first_invalid_part(src) == first_invalid_part(src.skip(i as int)),
        decreases parts.len() - i,
    {
        assert(src.skip(i as int)[0] == src[i as int]);
        assert(src.skip(i as int).drop_first() =~= src.skip(i + 1));
        let n = parts[i].0;
        if n < 1 || n > MAX_PART_NUMBER {
            return Err(Error::InvalidPartNumber(n));
        }
        i = i + 1;
    }
    assert(src.skip(i as int).len() == 0);
    match sort_parts(parts) {
        Ok(sorted) => {
            proof {
                lemma_part_ordered(parts_view(parts@), parts_view(sorted@));
            }
            Ok(render_manifest(&sorted))
        },
        Err(n) => Err(Error::DuplicatePart(n)),
    }
}

/// Checks the size of a part read from a file: at least 100 KiB, below 5 GiB.
pub fn check_part_file_size(size: u64) -> (r: Result<(), Error>)
    ensures
        r is Ok <==> MIN_PART_SIZE <= size && size < MAX_PART_SIZE,
        r matches Err(e) ==> e == Error::InvalidFileSize,
{
    if size >= MAX_PART_SIZE || size < MIN_PART_SIZE {
        Err(Error::InvalidFileSize)
    } else {
        Ok(())
    }
}

/// Checks the size of a part uploaded from memory.
pub fn check_part_content_size(size: u64) -> (r: Result<(), Error>)
    ensures
        r is Ok <==> size < MAX_CONTENT_SIZE,
        r matches Err(e) ==> e == Error::InvalidFileSize,
{
    if size >= MAX_CONTENT_SIZE {
        Err(Error::InvalidFileSize)
    } else {
        Ok(())
    }
}

/// Where a multipart upload stands.
#[derive(Debug, Clone, Copy, PartialEq, Eq, Structural)]
pub enum UploadState {
    /// Created; no part recorded yet.
    Initiated,
    /// At least one part recorded.
    PartsUploading,
    /// Completed: the upload id is no longer valid.
    Completed,
    /// Aborted: the upload id is no longer valid.
    Aborted,
}

impl UploadState {
    pub open spec fn is_closed(&self) -> bool {
        *self == UploadState::Completed || *self == UploadState::Aborted
    }
}

/// `s` with part `n` set to `e`: replaced where `n` is present, appended otherwise.
pub open spec fn upsert_part(s: Seq<PartRef>, n: u32, e: Seq<char>) -> Seq<PartRef> {
    if exists|i: int| 0 <= i < s.len() && s[i].0 == n {
        s.update(choose|i: int| 0 <= i < s.len() && s[i].0 == n, (n, e))
    } else {
        s.push((n, e))
    }
}

/// One multipart upload: its service-issued id and the ETags of the parts
/// uploaded so far. A session left neither completed nor aborted holds
/// storage that is billed until it is aborted.
#[derive(Debug)]
pub struct UploadSession {
    upload_id: String,
    parts: Vec<(u32, String)>,
    state: UploadState,
}

impl UploadSession {
    pub closed spec fn id(&self) -> Seq<char> {
        self.upload_id@
    }

    pub closed spec fn recorded(&self) -> Seq<PartRef> {
        parts_view(self.parts@)
    }

    pub closed spec fn spec_state(&self) -> UploadState {
        self.state
    }

    /// Recorded part numbers are valid and unique.
    pub closed spec fn wf(&self) -> bool {
        &&& numbers_distinct(self.recorded())
        &&& forall|i: int| 0 <= i < self.recorded().len() ==> valid_part_number(
            (#[trigger] self.recorded()[i]).0,
        )
        &&& (self.spec_state() == UploadState::Initiated ==> self.recorded().len() == 0)
    }

    /// A session for the id returned by the initiating call.
    pub fn new(upload_id: &str) -> (r: UploadSession)
        ensures
            r.wf(),
            r.id() == upload_id@,
            r.recorded().len() == 0,
            r.spec_state() == UploadState::Initiated,
    {
        let s = UploadSession {
            upload_id: String::from_str(upload_id),
            parts: Vec::new(),
            state: UploadState::Initiated,
        };
        assert(s.recorded() =~= Seq::<PartRef>::empty());
        s
    }

    pub fn upload_id(&self) -> (r: &str)
        ensures
            r@ == self.id(),
    {
        self.upload_id.as_str()
    }

    pub fn state(&self) -> (r: UploadState)
        ensures
            r == self.spec_state(),
    {
        self.state
    }

    /// The recorded parts, in the order they were first recorded.
    pub fn parts(&self) -> (r: &Vec<(u32, String)>)
        ensures
            parts_view(r@) == self.recorded(),
    {
        &self.parts
    }

    /// Records the ETag of an uploaded part; a part uploaded again replaces
    /// the earlier ETag. Refused once the session is closed, or for a part
    /// number outside 1..=10000; a refusal changes nothing.
    pub fn record_part(&mut self, part_number: u32, etag: &str) -> (r: Result<(), Error>)
        requires
            old(self).wf(),
        ensures
            final(self).wf(),
            final(self).id() == old(self).id(),
            old(self).spec_state().is_closed() ==> r == Err::<(), Error>(Error::UploadClosed),
            !old(self).spec_state().is_closed() && !valid_part_number(part_number) ==> r == Err::<
                (),
                Error,
            >(Error::InvalidPartNumber(part_number)),
            !old(self).spec_state().is_closed() && valid_part_number(part_number) ==> r is Ok,
            r is Err ==> final(self).recorded() == old(self).recorded() && final(self).spec_state()
                == old(self).spec_state(),
            r is Ok ==> final(self).recorded() == upsert_part(
                old(self).recorded(),
                part_number,
                etag@,
            ) && final(self).spec_state() == UploadState::PartsUploading,
    {
        if self.state == UploadState::Completed || self.state == UploadState::Aborted {
            return Err(Error::UploadClosed);
        }
        if part_number < 1 || part_number > MAX_PART_NUMBER {
            return Err(Error::InvalidPartNumber(part_number));
        }
        let ghost s = parts_view(self.parts@);
        let mut i: usize = 0;
        while i < self.parts.len()
            invariant
                s == parts_view(self.parts@),
                self.parts@ == old(self).parts@,
                self.upload_id == old(self).upload_id,
                self.state == old(self).state,
                !old(self).spec_state().is_closed(),
                valid_part_number(part_number),
                old(self).wf(),
                numbers_distinct(s),
                i <= self.parts.len(),
                forall|k: int| 0 <= k < i ==> (#[trigger] s[k]).0 != part_number,
            decreases self.parts.len() - i,
        {
            if self.parts[i].0 == part_number {
                assert(s[i as int].0 == part_number);
                let ghost j = choose|j: int| 0 <= j < s.len() && s[j].0 == part_number;
                assert(j == i as int) by {
                    if j < i {
                        assert(s[j].0 != part_number);
                    } else if j > i {
                        assert(s[i as int].0 != s[j].0);
                    }
                }
                self.parts.set(i, (part_number, String::from_str(etag)));
                assert(parts_view(self.parts@) =~= s.update(i as int, (part_number, etag@)));
                self.state = UploadState::PartsUploading;
                return Ok(());
            }
            i = i + 1;
        }
        self.parts.push((part_number, String::from_str(etag)));
        assert(parts_view(self.parts@) =~= s.push((part_number, etag@)));
        self.state = UploadState::PartsUploading;
        Ok(())
    }

    /// Closes the session by completion and returns the completion body, the
    /// recorded parts in ascending part-number order. Refused, changing
    /// nothing, once closed or when no part was recorded.
    pub fn complete(&mut self) -> (r: Result<String, Error>)
        requires
            old(self).wf(),
        ensures
            final(self).wf(),
            final(self).id() == old(self).id(),
            final(self).recorded() == old(self).recorded(),
            old(self).spec_state().is_closed() ==> r == Err::<String, Error>(Error::UploadClosed),
            !old(self).spec_state().is_closed() && old(self).recorded().len() == 0 ==> r == Err::<
                String,
                Error,
            >(Error::NoParts),
            !old(self).spec_state().is_closed() && old(self).recorded().len() > 0 ==> r is Ok,
            r is Err ==> final(self).spec_state() == old(self).spec_state(),
            r matches Ok(s) ==> s@ == manifest_xml(part_ordered(old(self).recorded()))
                && final(self).spec_state() == UploadState::Completed,
    {
        if self.state == UploadState::Completed || self.state == UploadState::Aborted {
            return Err(Error::UploadClosed);
        }
        proof {
            let s = parts_view(self.parts@);
            if s.len() > 0 {
                lemma_all_valid_no_first_invalid(s);
            }
        }
        let manifest = complete_manifest(&self.parts)?;
        self.state = UploadState::Completed;
        Ok(manifest)
    }

    /// Closes the session by abort. Refused, changing nothing, once closed:
    /// a second abort is reported rather than ignored.
    pub fn abort(&mut self) -> (r: Result<(), Error>)
        requires
            old(self).wf(),
        ensures
            final(self).wf(),
            final(self).id() == old(self).id(),
            final(self).recorded() == old(self).recorded(),
            old(self).spec_state().is_closed() <==> r is Err,
            r matches Err(e) ==> e == Error::UploadClosed && final(self).spec_state() == old(
                self,
            ).spec_state(),
            r is Ok ==> final(self).spec_state() == UploadState::Aborted,
    {
        if self.state == UploadState::Completed || self.state == UploadState::Aborted {
            return Err(Error::UploadClosed);
        }
        self.state = UploadState::Aborted;
        Ok(())
    }
}

proof fn lemma_all_valid_no_first_invalid(s: Seq<PartRef>)
    requires
        forall|i: int| 0 <= i < s.len() ==> valid_part_number((#[trigger] s[i]).0),
    ensures
        first_invalid_part(s) is None,
    decreases s.len(),
{
    if s.len() > 0 {
        assert(valid_part_number(s[0].0));
        assert forall|i: int| 0 <= i < s.drop_first().len() implies valid_part_number(
            (#[trigger] s.drop_first()[i]).0,
        ) by {
            assert(s.drop_first()[i] == s[i + 1]);
        }
        lemma_all_valid_no_first_invalid(s.drop_first());
    }
}

} // verus!
