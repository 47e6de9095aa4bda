//! Chunked transfer: splitting a body into bounded chunks, counting what has
//! been sent for progress reports, and collecting received chunks in order.
use vstd::prelude::*;

verus! {

/// Size of the chunks a streamed upload is read in.
pub const UPLOAD_CHUNK_SIZE: usize = 16384;

/// The chunks joined in order.
pub open spec fn concat(chunks: Seq<Seq<u8>>) -> Seq<u8>
    decreases chunks.len(),
{
    if chunks.len() == 0 {
        seq![]
    } else {
        concat(chunks.drop_last()) + chunks.last()
    }
}

/// The running count reported after each chunk.
pub open spec fn sent_after(chunks: Seq<Seq<u8>>, k: int) -> nat {
    concat(chunks.take(k)).len()
}

pub open spec fn chunks_view(v: Seq<Vec<u8>>) -> Seq<Seq<u8>> {
    v.map_values(|c: Vec<u8>| c@)
}

/// Splits `data` into chunks of at most `chunk_size` bytes, none empty, that
/// join back to `data`.
pub fn split_chunks(data: &Vec<u8>, chunk_size: usize) -> (r: Vec<Vec<u8>>)
    requires
        chunk_size > 0,
    ensures
        concat(chunks_view(r@)) == data@,
        forall|i: int| 0 <= i < r@.len() ==> 0 < (#[trigger] r@[i])@.len() <= chunk_size,
{
    let mut out: Vec<Vec<u8>> = Vec::new();
    let mut start: usize = 0;
    while start < data.len()
        invariant
            chunk_size > 0,
            start <= data@.len(),
            concat(chunks_view(out@)) == data@.take(start as int),
            forall|i: int| 0 <= i < out@.len() ==> 0 < (#[trigger] out@[i])@.len() <= chunk_size,
        decreases data@.len() - start,
    {
        let end = if data.len() - start > chunk_size {
            start + chunk_size
        } else {
            data.len()
        };
        let mut chunk: Vec<u8> = Vec::new();
        let mut k: usize = start;
        while k < end
            invariant
                start <= k <= end,
                end <= data@.len(),
                chunk@ == data@.subrange(start as int, k as int),
            decreases end - k,
        {
            chunk.push(data[k]);
            assert(chunk@ =~= data@.subrange(start as int, k + 1));
            k = k + 1;
        }
        let ghost before = chunks_view(out@);
        out.push(chunk);
        assert(chunks_view(out@) =~= before.push(data@.subrange(start as int, end as int)));
        assert(chunks_view(out@).drop_last() =~= before);
        assert(data@.take(end as int) =~= data@.take(start as int) + data@.subrange(
            start as int,
            end as int,
        ));
        start = end;
    }
    assert(data@.take(start as int) =~= data@);
    out
}

/// Counts the bytes sent of a transfer of known total size.
#[derive(Debug, Clone, Copy)]
pub struct Progress {
    sent: u64,
    total: u64,
}

impl Progress {
    pub closed spec fn spec_sent(&self) -> u64 {
        self.sent
    }

    pub closed spec fn spec_total(&self) -> u64 {
        self.total
    }

    pub fn new(total: u64) -> (r: Progress)
        ensures
            r.spec_sent() == 0,
            r.spec_total() == total,
    {
        Progress { sent: 0, total }
    }

    pub fn sent(&self) -> (r: u64)
        ensures
            r == self.spec_sent(),
    {
        self.sent
    }

    pub fn total(&self) -> (r: u64)
        ensures
            r == self.spec_total(),
    {
        self.total
    }

    /// Counts a chunk of `n` bytes and returns `(sent so far, total)`, the
    /// values a progress observer is given.
    pub fn advance(&mut self, n: u64) -> (r: (u64, u64))
        requires
            old(self).spec_sent() + n <= u64::MAX,
        ensures
            final(self).spec_sent() == old(self).spec_sent() + n,
            final(self).spec_total() == old(self).spec_total(),
            r == (final(self).spec_sent(), final(self).spec_total()),
    {
        self.sent = self.sent + n;
        (self.sent, self.total)
    }
}

/// Collects received chunks, in order, into one buffer.
#[derive(Debug)]
pub struct ChunkSink {
    data: Vec<u8>,
}

impl ChunkSink {
    pub closed spec fn contents(&self) -> Seq<u8> {
        self.data@
    }

    pub fn new() -> (r: ChunkSink)
        ensures
            r.contents().len() == 0,
    {
        ChunkSink { data: Vec::new() }
    }

    /// Appends one chunk.
    pub fn write_chunk(&mut self, chunk: &[u8])
        ensures
            final(self).contents() == old(self).contents() + chunk@,
    {
        let mut i: usize = 0;
        let ghost start = self.data@;
        while i < chunk.len()
            invariant
                i <= chunk@.len(),
                self.data@ == start + chunk@.take(i as int),
            decreases chunk@.len() - i,
        {
            self.data.push(chunk[i]);
            assert(chunk@.take(i + 1) =~= chunk@.take(i as int).push(chunk@[i as int]));
            assert(self.data@ =~= start + chunk@.take(i + 1));
            i = i + 1;
        }
        assert(chunk@.take(i as int) =~= chunk@);
    }

    pub fn into_bytes(self) -> (r: Vec<u8>)
        ensures
            r@ == self.contents(),
    {
        self.data
    }
}

/// Chunks reassembled in order give back the bytes they were cut from, and
/// the running count after the last chunk is the total size.
pub proof fn lemma_chunked_transfer_integrity(data: Seq<u8>, chunks: Seq<Seq<u8>>)
    requires
        concat(chunks) == data,
    ensures
        sent_after(chunks, chunks.len() as int) == data.len(),
        forall|k: int| 0 <= k < chunks.len() ==> sent_after(chunks, k + 1) == sent_after(chunks, k)
            + (#[trigger] chunks[k]).len(),
{
    assert(chunks.take(chunks.len() as int) =~= chunks);
    assert forall|k: int| 0 <= k < chunks.len() implies sent_after(chunks, k + 1) == sent_after(
        chunks,
        k,
    ) + (#[trigger] chunks[k]).len() by {
        assert(chunks.take(k + 1).drop_last() =~= chunks.take(k));
    }
}

/// Whether a destination path names a network location (`scheme://...`).
pub open spec fn is_network_path(path: Seq<char>) -> bool {
    exists|i: int| 0 <= i && i + 3 <= path.len() && #[trigger] scheme_separator_at(path, i)
}

/// `://` starts at position `i`.
pub open spec fn scheme_separator_at(path: Seq<char>, i: int) -> bool {
    path[i] == ':' && path[i + 1] == '/' && path[i + 2] == '/'
}

pub fn network_path(path: &str) -> (r: bool)
    ensures
        r == is_network_path(path@),
{
    let n = path.unicode_len();
    let mut i: usize = 0;
    while i < n && n - i >= 3
        invariant
            n == path@.len(),
            i <= n,
            forall|k: int| 0 <= k < i && k + 3 <= n ==> !#[trigger] scheme_separator_at(path@, k),
        decreases n - i,
    {
        if path.get_char(i) == ':' && path.get_char(i + 1) == '/' && path.get_char(i + 2) == '/' {
            assert(scheme_separator_at(path@, i as int));
            return true;
        }
        i = i + 1;
    }
    false
}

} // verus!
