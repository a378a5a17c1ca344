//! Splitting a file into chunks on the sending side.

use vstd::prelude::*;
use crate::protocol::{ChunkView, FileChunk, CHUNK_SIZE};

verus! {

/// `s / c` rounded up.
pub open spec fn ceil_div(s: int, c: int) -> int {
    (s + c - 1) / c
}

/// Number of chunks of a file of `size` bytes, in chunks of `c` bytes.
///
/// An empty file still has one (empty) chunk, so that its completion is signalled.
pub open spec fn chunk_count(size: int, c: int) -> int {
    if size == 0 {
        1
    } else {
        ceil_div(size, c)
    }
}

/// Length of chunk `i` of a file of `size` bytes: `c`, but for the last chunk,
/// which holds what is left.
pub open spec fn chunk_len(size: int, c: int, i: int) -> int {
    if i + 1 < chunk_count(size, c) {
        c
    } else {
        size - (chunk_count(size, c) - 1) * c
    }
}

/// The bytes that chunk `i` of `data` carries.
pub open spec fn chunk_payload(data: Seq<u8>, c: int, i: int) -> Seq<u8> {
    data.subrange(i * c, i * c + chunk_len(data.len() as int, c, i))
}

/// The chunks of file `index` whose contents are `data`, in order.
pub open spec fn file_chunks(index: int, data: Seq<u8>, c: int) -> Seq<ChunkView> {
    Seq::new(
        chunk_count(data.len() as int, c) as nat,
        |i: int|
            ChunkView {
                file_index: index,
                chunk_number: i,
                total_chunks: chunk_count(data.len() as int, c),
                data: chunk_payload(data, c, i),
            },
    )
}

/// The payloads of `chunks`, concatenated in order.
pub open spec fn joined(chunks: Seq<ChunkView>) -> Seq<u8>
    decreases chunks.len(),
{
    if chunks.len() == 0 {
        Seq::empty()
    } else {
        joined(chunks.drop_last()) + chunks.last().data
    }
}

proof fn lemma_ceil_div_bounds(s: int, c: int)
    requires
        s > 0,
        c > 0,
    ensures
        ceil_div(s, c) >= 1,
        (ceil_div(s, c) - 1) * c < s <= ceil_div(s, c) * c,
        ceil_div(s, c) == s / c + (if s % c == 0 { 0int } else { 1int }),
{
    let k = ceil_div(s, c);
    let q = s / c;
    let r = s % c;
    assert(s == q * c + r && 0 <= r < c) by (nonlinear_arith)
        requires
            q == s / c,
            r == s % c,
            c > 0,
    ;
    if r == 0 {
        assert(s + c - 1 == q * c + (c - 1)) by (nonlinear_arith)
            requires
                s == q * c + r,
                r == 0,
        ;
        assert(k == q) by (nonlinear_arith)
            requires
                k == (s + c - 1) / c,
                s + c - 1 == q * c + (c - 1),
                c > 0,
        ;
    } else {
        assert(s + c - 1 == (q + 1) * c + (r - 1)) by (nonlinear_arith)
            requires
                s == q * c + r,
        ;
        assert(k == q + 1) by (nonlinear_arith)
            requires
                k == (s + c - 1) / c,
                s + c - 1 == (q + 1) * c + (r - 1),
                0 <= r - 1 < c,
        ;
    }
    assert(k >= 1 && (k - 1) * c < s <= k * c) by (nonlinear_arith)
        requires
            s == q * c + r,
            0 <= r < c,
            s > 0,
            r == 0 ==> k == q,
            r != 0 ==> k == q + 1,
    ;
}

/// Where the last chunk of a file of `size` bytes starts and ends.
pub proof fn lemma_chunk_geometry(size: int, c: int)
    requires
        size >= 0,
        c > 0,
    ensures
        chunk_count(size, c) >= 1,
        (chunk_count(size, c) - 1) * c <= size,
        size <= chunk_count(size, c) * c,
        size > 0 ==> (chunk_count(size, c) - 1) * c < size,
{
    if size > 0 {
        lemma_ceil_div_bounds(size, c);
    }
}

/// For a file of `s > 0` bytes and chunks of `c` bytes: `ceil(s / c)` chunks,
/// all but the last exactly `c` bytes, the last `s mod c` bytes, or `c` when
/// `c` divides `s`.
pub proof fn lemma_chunk_sizes(s: int, c: int)
    requires
        s > 0,
        c > 0,
    ensures
        chunk_count(s, c) == ceil_div(s, c),
        forall|i: int| 0 <= i < chunk_count(s, c) - 1 ==> chunk_len(s, c, i) == c,
        chunk_len(s, c, chunk_count(s, c) - 1) == (if s % c == 0 { c } else { s % c }),
{
    lemma_ceil_div_bounds(s, c);
    let k = ceil_div(s, c);
    let q = s / c;
    let r = s % c;
    assert(s == q * c + r) by (nonlinear_arith)
        requires
            q == s / c,
            r == s % c,
            c > 0,
    ;
    if r == 0 {
        assert(s - (k - 1) * c == c) by (nonlinear_arith)
            requires
                k == q,
                s == q * c + r,
                r == 0,
        ;
    } else {
        assert(s - (k - 1) * c == r) by (nonlinear_arith)
            requires
                k == q + 1,
                s == q * c + r,
        ;
    }
}

/// An empty file has exactly one chunk, which is empty and is its last.
pub proof fn lemma_empty_file_one_chunk(index: int, c: int)
    requires
        c > 0,
    ensures
        file_chunks(index, Seq::<u8>::empty(), c).len() == 1,
        file_chunks(index, Seq::<u8>::empty(), c)[0].total_chunks == 1,
        file_chunks(index, Seq::<u8>::empty(), c)[0].chunk_number + 1
            == file_chunks(index, Seq::<u8>::empty(), c)[0].total_chunks,
        file_chunks(index, Seq::<u8>::empty(), c)[0].data.len() == 0,
{
}

/// The first `n` chunks of `data`, joined, are the first `n * c` bytes of it
/// (or all of it).
pub proof fn lemma_joined_prefix(index: int, data: Seq<u8>, c: int, n: int)
    requires
        c > 0,
        0 <= n <= chunk_count(data.len() as int, c),
    ensures
        joined(file_chunks(index, data, c).take(n))
            == data.subrange(0, if n < chunk_count(data.len() as int, c) { n * c } else { data.len() as int }),
    decreases n,
{
    let size = data.len() as int;
    let k = chunk_count(size, c);
    let chunks = file_chunks(index, data, c);
    lemma_chunk_geometry(size, c);
    if n == 0 {
        assert(chunks.take(0) =~= Seq::<ChunkView>::empty());
        assert(data.subrange(0, 0) =~= Seq::<u8>::empty());
        assert(0 * c == 0);
    } else {
        lemma_joined_prefix(index, data, c, n - 1);
        assert(chunks.take(n).drop_last() =~= chunks.take(n - 1));
        let start = (n - 1) * c;
        assert((n - 1) * c + c == n * c) by (nonlinear_arith);
        if n < k {
            assert(n * c <= (k - 1) * c) by (nonlinear_arith)
                requires
                    n <= k - 1,
                    c > 0,
            ;
        }
        assert(0 <= start) by (nonlinear_arith)
            requires
                n >= 1,
                c > 0,
                start == (n - 1) * c,
        ;
        let end = if n < k { n * c } else { size };
        assert(chunks.take(n).last() == chunks[n - 1]);
        assert(chunks[n - 1].data == chunk_payload(data, c, n - 1));
        assert(chunk_payload(data, c, n - 1) == data.subrange(start, end));
        assert(joined(chunks.take(n)) == joined(chunks.take(n - 1)) + chunks[n - 1].data);
        assert(joined(chunks.take(n - 1)) == data.subrange(0, start));
        assert(data.subrange(0, start) + data.subrange(start, end) =~= data.subrange(0, end));
    }
}

/// Joining every chunk of a file gives back the file, byte for byte.
pub proof fn lemma_chunks_reassemble(index: int, data: Seq<u8>, c: int)
    requires
        c > 0,
    ensures
        joined(file_chunks(index, data, c)) == data,
{
    let chunks = file_chunks(index, data, c);
    let k = chunk_count(data.len() as int, c);
    lemma_chunk_geometry(data.len() as int, c);
    lemma_joined_prefix(index, data, c, k);
    assert(chunks.take(k) =~= chunks);
    assert(data.subrange(0, data.len() as int) =~= data);
}

/// Number of chunks of a file of `file_size` bytes.
pub fn total_chunks_for(file_size: u64) -> (r: u64)
    ensures
        r == chunk_count(file_size as int, CHUNK_SIZE as int),
{
    proof {
        if file_size > 0 {
            lemma_ceil_div_bounds(file_size as int, CHUNK_SIZE as int);
        }
    }
    if file_size == 0 {
        1
    } else if file_size % (CHUNK_SIZE as u64) == 0 {
        file_size / (CHUNK_SIZE as u64)
    } else {
        file_size / (CHUNK_SIZE as u64) + 1
    }
}

/// State of a chunker, as mathematical values.
pub struct ChunkerView {
    pub file_index: int,
    pub file_size: int,
    /// Number of the next chunk to produce.
    pub next: int,
}

/// The chunks of one file, produced one at a time as its bytes are read.
///
/// The chunk count is fixed before the first chunk and carried by all of them.
pub struct FileChunker {
    file_index: usize,
    file_size: u64,
    total_chunks: u64,
    next: u64,
}

impl View for FileChunker {
    type V = ChunkerView;

    closed spec fn view(&self) -> ChunkerView {
        ChunkerView {
            file_index: self.file_index as int,
            file_size: self.file_size as int,
            next: self.next as int,
        }
    }
}

impl FileChunker {
    /// Internal consistency: the count matches the size and production has not overrun it.
    pub closed spec fn wf(&self) -> bool {
        &&& self.total_chunks == chunk_count(self.file_size as int, CHUNK_SIZE as int)
        &&& self.next <= self.total_chunks
    }

    /// Number of chunks of this file.
    pub fn total_chunks(&self) -> (r: u64)
        requires
            self.wf(),
        ensures
            r == chunk_count(self@.file_size, CHUNK_SIZE as int),
    {
        self.total_chunks
    }

    /// Whether every chunk has been produced.
    pub fn is_done(&self) -> (r: bool)
        requires
            self.wf(),
        ensures
            r == (self@.next >= chunk_count(self@.file_size, CHUNK_SIZE as int)),
    {
        self.next >= self.total_chunks
    }

    /// How many bytes of the file the next chunk carries, or `None` when all
    /// chunks have been produced.
    pub fn next_len(&self) -> (r: Option<usize>)
        requires
            self.wf(),
        ensures
            r is None <==> self@.next >= chunk_count(self@.file_size, CHUNK_SIZE as int),
            r is Some ==> r->Some_0 == chunk_len(self@.file_size, CHUNK_SIZE as int, self@.next),
    {
        if self.next >= self.total_chunks {
            return None;
        }
        proof {
            lemma_chunk_geometry(self.file_size as int, CHUNK_SIZE as int);
            let n = self.next as int;
            let k = self.total_chunks as int;
            let c = CHUNK_SIZE as int;
            if n + 1 == k {
                assert((k - 1) * c <= self.file_size);
            }
        }
        if self.next + 1 < self.total_chunks {
            Some(CHUNK_SIZE)
        } else {
            let done: u64 = (self.total_chunks - 1) * (CHUNK_SIZE as u64);
            Some((self.file_size - done) as usize)
        }
    }

    /// Produces the next chunk from the `data` read for it.
    ///
    /// Gives `None`, and changes nothing, once all chunks are out or when
    /// `data` is not as long as `next_len` says.
    pub fn next_chunk(&mut self, data: Vec<u8>) -> (r: Option<FileChunk>)
        requires
            old(self).wf(),
        ensures
            final(self).wf(),
            r is Some <==> old(self)@.next < chunk_count(old(self)@.file_size, CHUNK_SIZE as int)
                && data@.len() == chunk_len(old(self)@.file_size, CHUNK_SIZE as int, old(self)@.next),
            r is Some ==> r->Some_0@ == (ChunkView {
                file_index: old(self)@.file_index,
                chunk_number: old(self)@.next,
                total_chunks: chunk_count(old(self)@.file_size, CHUNK_SIZE as int),
                data: data@,
            }) && final(self)@ == (ChunkerView { next: old(self)@.next + 1, ..old(self)@ }),
            r is None ==> final(self)@ == old(self)@,
    {
        match self.next_len() {
            None => None,
            Some(len) => {
                if data.len() != len {
                    return None;
                }
                let chunk = FileChunk {
                    file_index: self.file_index,
                    chunk_number: self.next,
                    total_chunks: self.total_chunks,
                    data,
                };
                self.next = self.next + 1;
                Some(chunk)
            },
        }
    }
}

/// Starts the chunk sequence of file `file_index`, of `file_size` bytes.
pub fn send_file(file_index: usize, file_size: u64) -> (r: FileChunker)
    ensures
        r.wf(),
        r@ == (ChunkerView { file_index: file_index as int, file_size: file_size as int, next: 0 }),
{
    FileChunker { file_index, file_size, total_chunks: total_chunks_for(file_size), next: 0 }
}

/// Fed the consecutive slices of a file that `next_len` asks for, a chunker
/// produces exactly that file's chunk sequence.
pub proof fn lemma_chunker_follows_file(index: int, data: Seq<u8>, i: int)
    requires
        0 <= i < chunk_count(data.len() as int, CHUNK_SIZE as int),
    ensures
        file_chunks(index, data, CHUNK_SIZE as int)[i] == (ChunkView {
            file_index: index,
            chunk_number: i,
            total_chunks: chunk_count(data.len() as int, CHUNK_SIZE as int),
            data: chunk_payload(data, CHUNK_SIZE as int, i),
        }),
        chunk_payload(data, CHUNK_SIZE as int, i).len() == chunk_len(data.len() as int, CHUNK_SIZE as int, i),
{
    lemma_chunk_geometry(data.len() as int, CHUNK_SIZE as int);
    let c = CHUNK_SIZE as int;
    let k = chunk_count(data.len() as int, c);
    if i + 1 < k {
        assert(i * c + c <= (k - 1) * c) by (nonlinear_arith)
            requires
                i + 1 <= k - 1,
                c > 0,
        ;
    }
    assert(0 <= i * c) by (nonlinear_arith)
        requires
            i >= 0,
            c > 0,
    ;
    assert(i * c <= (k - 1) * c) by (nonlinear_arith)
        requires
            i <= k - 1,
            c > 0,
    ;
}

} // verus!
