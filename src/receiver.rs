//! Receiving side of a transfer: demultiplexing chunks by file, tracking
//! each file's progress, and judging completion and integrity.
//!
//! The engine decides; its caller performs the file operations that each
//! step names, writing every payload as soon as it is accepted.

use vstd::prelude::*;
use crate::protocol::{ChunkView, FileChunk, FileList, CHUNK_SIZE};
use crate::chunking::{
    chunk_count, file_chunks, joined, lemma_chunk_geometry, lemma_chunks_reassemble, lemma_joined_prefix,
};
use crate::digest::{digests_match, sha256_of};

verus! {

/// Why a chunk or a finished file was refused.
#[derive(Debug, Clone, Copy, PartialEq, Eq, Structural)]
pub enum ReceiveError {
    /// A chunk for another file reached this file's record.
    IndexMismatch { expected: usize, got: usize },
    /// A chunk names a file the manifest does not have: the stream is aborted.
    InvalidFileIndex { index: usize, file_count: usize },
    /// A file's chunk or byte count would pass `u64::MAX`.
    CounterOverflow,
    /// A written file's digest differs from the one the manifest declares.
    HashMismatch { index: usize },
}

/// Progress of one file being received.
#[derive(Debug, Clone, Copy, PartialEq, Eq, Structural)]
pub struct FileReceiver {
    pub file_index: usize,
    /// Chunk count announced by the first chunk seen (0 before any).
    pub expected_chunks: u64,
    pub received_chunks: u64,
    pub bytes_written: u64,
}

impl FileReceiver {
    /// Whether the counters can take one more chunk of `len` bytes.
    pub open spec fn can_take(&self, len: int) -> bool {
        self.received_chunks < u64::MAX && self.bytes_written + len <= u64::MAX
    }

    /// The record after it has taken chunk `c`.
    pub open spec fn taken(&self, c: ChunkView) -> FileReceiver {
        FileReceiver {
            file_index: self.file_index,
            expected_chunks: if self.expected_chunks == 0 {
                c.total_chunks as u64
            } else {
                self.expected_chunks
            },
            received_chunks: (self.received_chunks + 1) as u64,
            bytes_written: (self.bytes_written + c.data.len()) as u64,
        }
    }

    /// Whether every announced chunk has arrived.
    pub open spec fn spec_is_complete(&self) -> bool {
        self.expected_chunks > 0 && self.received_chunks >= self.expected_chunks
    }

    /// A record for file `file_index` that has received nothing.
    pub fn new(file_index: usize) -> (r: FileReceiver)
        ensures
            r == (FileReceiver { file_index, expected_chunks: 0, received_chunks: 0, bytes_written: 0 }),
    {
        FileReceiver { file_index, expected_chunks: 0, received_chunks: 0, bytes_written: 0 }
    }

    /// Counts a chunk of this file whose payload has been written.
    ///
    /// The first chunk seen fixes the expected chunk count.
    pub fn write_chunk(&mut self, chunk: &FileChunk) -> (r: Result<(), ReceiveError>)
        ensures
            chunk.file_index != old(self).file_index ==> r == Err::<(), ReceiveError>(
                ReceiveError::IndexMismatch { expected: old(self).file_index, got: chunk.file_index },
            ),
            chunk.file_index == old(self).file_index && !old(self).can_take(chunk.data@.len() as int)
                ==> r == Err::<(), ReceiveError>(ReceiveError::CounterOverflow),
            r is Err ==> *final(self) == *old(self),
            r is Ok <==> chunk.file_index == old(self).file_index && old(self).can_take(chunk.data@.len() as int),
            r is Ok ==> *final(self) == old(self).taken(chunk@),
    {
        if chunk.file_index != self.file_index {
            return Err(ReceiveError::IndexMismatch { expected: self.file_index, got: chunk.file_index });
        }
        if self.received_chunks == u64::MAX || chunk.data.len() as u64 > u64::MAX - self.bytes_written {
            return Err(ReceiveError::CounterOverflow);
        }
        if self.expected_chunks == 0 {
            self.expected_chunks = chunk.total_chunks;
        }
        self.received_chunks = self.received_chunks + 1;
        self.bytes_written = self.bytes_written + chunk.data.len() as u64;
        Ok(())
    }

    /// Whether every announced chunk has arrived.
    pub fn is_complete(&self) -> (r: bool)
        ensures
            r == self.spec_is_complete(),
    {
        self.expected_chunks > 0 && self.received_chunks >= self.expected_chunks
    }

    /// Judges a finished file against the digest the manifest declares.
    ///
    /// `actual_hash` is the digest of the file as written, recomputed after
    /// it was closed. With no declared digest there is nothing to check.
    pub fn finalize(&self, expected_hash: Option<[u8; 32]>, actual_hash: Option<[u8; 32]>) -> (r: Result<(), ReceiveError>)
        ensures
            r is Ok <==> match expected_hash {
                None => true,
                Some(e) => actual_hash is Some && actual_hash->Some_0@ == e@,
            },
            r is Err ==> r->Err_0 == (ReceiveError::HashMismatch { index: self.file_index }),
    {
        match expected_hash {
            None => Ok(()),
            Some(e) => match actual_hash {
                None => Err(ReceiveError::HashMismatch { index: self.file_index }),
                Some(a) => {
                    if digests_match(&e, &a) {
                        Ok(())
                    } else {
                        Err(ReceiveError::HashMismatch { index: self.file_index })
                    }
                },
            },
        }
    }
}

/// The receiver's knowledge of one manifest file.
pub struct SlotView {
    /// An output file is open and being written.
    pub open: bool,
    /// The file's last chunk has arrived since it was opened.
    pub complete: bool,
    pub record: FileReceiver,
    /// Digest the manifest declares for the file.
    pub declared_hash: Option<[u8; 32]>,
    /// Bytes written to the output file since it was opened.
    pub written: Seq<u8>,
}

/// Whether `c` closes its file: its number is the last of the announced count.
pub open spec fn is_last_chunk(c: ChunkView) -> bool {
    c.chunk_number + 1 == c.total_chunks
}

/// The slot a chunk is written into: the open one, or a freshly created file.
pub open spec fn target_slot(s: SlotView, index: int) -> SlotView {
    if s.open {
        s
    } else {
        SlotView {
            open: true,
            complete: false,
            record: FileReceiver {
                file_index: index as usize,
                expected_chunks: 0,
                received_chunks: 0,
                bytes_written: 0,
            },
            written: Seq::empty(),
            ..s
        }
    }
}

/// Whether chunk `c` names a file of the manifest.
pub open spec fn in_manifest(slots: Seq<SlotView>, c: ChunkView) -> bool {
    0 <= c.file_index < slots.len()
}

/// Whether chunk `c` is accepted: it names a manifest file whose counters can take it.
pub open spec fn accepts(slots: Seq<SlotView>, c: ChunkView) -> bool {
    in_manifest(slots, c) && target_slot(slots[c.file_index], c.file_index).record.can_take(
        c.data.len() as int,
    )
}

/// The receiver after chunk `c` arrives: unchanged if the chunk is refused;
/// otherwise its payload is appended to its file, which is opened first if
/// needed and closed as complete if this was its last chunk.
pub open spec fn receive_step(slots: Seq<SlotView>, c: ChunkView) -> Seq<SlotView> {
    if accepts(slots, c) {
        let i = c.file_index;
        let base = target_slot(slots[i], i);
        let w = SlotView { record: base.record.taken(c), written: base.written + c.data, ..base };
        let done = is_last_chunk(c);
        slots.update(i, SlotView { open: !done, complete: done, ..w })
    } else {
        slots
    }
}

/// The receiver after `chunks` arrive in order.
pub open spec fn receive_all(slots: Seq<SlotView>, chunks: Seq<ChunkView>) -> Seq<SlotView>
    decreases chunks.len(),
{
    if chunks.len() == 0 {
        slots
    } else {
        receive_step(receive_all(slots, chunks.drop_last()), chunks.last())
    }
}

/// What the caller must do for an accepted chunk, in this order: create the
/// output file if asked, write the payload, and if the file is complete,
/// flush and close it and check it against `expected_hash` when one is given.
#[derive(Debug, Clone, Copy)]
pub struct ChunkStep {
    pub file_index: usize,
    pub create: bool,
    pub complete: bool,
    pub expected_hash: Option<[u8; 32]>,
}

/// Streaming reassembly of the files of one manifest from one inbound stream.
pub struct StreamReceiver {
    records: Vec<FileReceiver>,
    open: Vec<bool>,
    complete: Vec<bool>,
    hashes: Vec<Option<[u8; 32]>>,
    written: Ghost<Seq<Seq<u8>>>,
}

impl View for StreamReceiver {
    type V = Seq<SlotView>;

    closed spec fn view(&self) -> Seq<SlotView> {
        Seq::new(
            self.records@.len(),
            |i: int|
                SlotView {
                    open: self.open@[i],
                    complete: self.complete@[i],
                    record: self.records@[i],
                    declared_hash: self.hashes@[i],
                    written: self.written@[i],
                },
        )
    }
}

impl StreamReceiver {
    /// Internal consistency of the per-file tables.
    pub closed spec fn wf(&self) -> bool {
        &&& self.open@.len() == self.records@.len()
        &&& self.complete@.len() == self.records@.len()
        &&& self.hashes@.len() == self.records@.len()
        &&& self.written@.len() == self.records@.len()
        &&& forall|i: int| 0 <= i < self.records@.len() ==> self.records@[i].file_index == i
    }

    /// A receiver for the files of `manifest`, none of them opened yet.
    pub fn new(manifest: &FileList) -> (r: StreamReceiver)
        ensures
            r.wf(),
            r@.len() == manifest.files@.len(),
            forall|i: int|
                0 <= i < r@.len() ==> r@[i] == (SlotView {
                    open: false,
                    complete: false,
                    record: FileReceiver {
                        file_index: i as usize,
                        expected_chunks: 0,
                        received_chunks: 0,
                        bytes_written: 0,
                    },
                    declared_hash: manifest.files@[i].hash,
                    written: Seq::empty(),
                }),
    {
        let mut r = StreamReceiver {
            records: Vec::new(),
            open: Vec::new(),
            complete: Vec::new(),
            hashes: Vec::new(),
            written: Ghost(Seq::empty()),
        };
        let mut i: usize = 0;
        while i < manifest.files.len()
            invariant
                0 <= i <= manifest.files@.len(),
                r.wf(),
                r@.len() == i,
                forall|j: int|
                    0 <= j < i ==> r@[j] == (SlotView {
                        open: false,
                        complete: false,
                        record: FileReceiver {
                            file_index: j as usize,
                            expected_chunks: 0,
                            received_chunks: 0,
                            bytes_written: 0,
                        },
                        declared_hash: manifest.files@[j].hash,
                        written: Seq::empty(),
                    }),
            decreases manifest.files@.len() - i,
        {
            let ghost before = r@;
            r.records.push(FileReceiver::new(i));
            r.open.push(false);
            r.complete.push(false);
            r.hashes.push(manifest.files[i].hash);
            r.written = Ghost(r.written@.push(Seq::empty()));
            assert(r@ =~= before.push(SlotView {
                open: false,
                complete: false,
                record: FileReceiver { file_index: i, expected_chunks: 0, received_chunks: 0, bytes_written: 0 },
                declared_hash: manifest.files@[i as int].hash,
                written: Seq::empty(),
            }));
            i = i + 1;
        }
        r
    }

    /// Number of files in the manifest.
    pub fn file_count(&self) -> (r: usize)
        requires
            self.wf(),
        ensures
            r == self@.len(),
    {
        self.records.len()
    }

    /// Takes the next chunk read from the stream.
    ///
    /// A chunk naming a file outside the manifest is a protocol error that
    /// aborts the stream; nothing is changed, so files received so far stay
    /// as they are.
    pub fn accept_chunk(&mut self, chunk: &FileChunk) -> (r: Result<ChunkStep, ReceiveError>)
        requires
            old(self).wf(),
        ensures
            final(self).wf(),
            final(self)@ == receive_step(old(self)@, chunk@),
            !in_manifest(old(self)@, chunk@) <==> r == Err::<ChunkStep, ReceiveError>(
                ReceiveError::InvalidFileIndex { index: chunk.file_index, file_count: old(self)@.len() as usize },
            ),
            in_manifest(old(self)@, chunk@) && !accepts(old(self)@, chunk@) <==> r == Err::<ChunkStep, ReceiveError>(
                ReceiveError::CounterOverflow,
            ),
            r is Ok <==> accepts(old(self)@, chunk@),
            r is Ok ==> {
                let s = r->Ok_0;
                &&& s.file_index == chunk.file_index
                &&& s.create == !old(self)@[chunk.file_index as int].open
                &&& s.complete == is_last_chunk(chunk@)
                &&& s.expected_hash == (if is_last_chunk(chunk@) {
                    old(self)@[chunk.file_index as int].declared_hash
                } else {
                    None
                })
            },
    {
        let i = chunk.file_index;
        if i >= self.records.len() {
            return Err(ReceiveError::InvalidFileIndex { index: i, file_count: self.records.len() });
        }
        let create = !self.open[i];
        let mut rec = if create {
            FileReceiver::new(i)
        } else {
            self.records[i]
        };
        let ghost before: Seq<u8> = if create { Seq::empty() } else { self.written@[i as int] };
        assert(old(self)@[i as int].open == !create);
        assert(target_slot(old(self)@[i as int], i as int).record == rec);
        assert(target_slot(old(self)@[i as int], i as int).written == before);
        match rec.write_chunk(chunk) {
            Err(e) => {
                assert(self@ =~= receive_step(old(self)@, chunk@));
                return Err(e);
            },
            Ok(()) => {},
        }
        let last = chunk.total_chunks > 0 && chunk.chunk_number == chunk.total_chunks - 1;
        self.records.set(i, rec);
        self.open.set(i, !last);
        self.complete.set(i, last);
        self.written = Ghost(self.written@.update(i as int, before + chunk.data@));
        assert(self@ =~= receive_step(old(self)@, chunk@));
        let expected_hash = if last {
            self.hashes[i]
        } else {
            None
        };
        Ok(ChunkStep { file_index: i, create, complete: last, expected_hash })
    }

    /// Whether file `index` has received its last chunk since it was opened.
    pub fn is_file_complete(&self, index: usize) -> (r: bool)
        requires
            self.wf(),
        ensures
            r == (index < self@.len() && self@[index as int].complete),
    {
        index < self.complete.len() && self.complete[index]
    }

    /// Progress record of file `index`.
    pub fn record(&self, index: usize) -> (r: Option<FileReceiver>)
        requires
            self.wf(),
        ensures
            r is Some <==> index < self@.len(),
            r is Some ==> r->Some_0 == self@[index as int].record,
    {
        if index < self.records.len() {
            Some(self.records[index])
        } else {
            None
        }
    }

    /// At the end of the stream: the files still open, in manifest order.
    ///
    /// They did not receive their last chunk, so they are incomplete and must
    /// not be verified; the caller flushes and closes them.
    pub fn open_files(&self) -> (r: Vec<usize>)
        requires
            self.wf(),
        ensures
            forall|k: int| 0 <= k < r@.len() ==> r@[k] < self@.len() && self@[r@[k] as int].open,
            forall|i: int| 0 <= i < self@.len() && self@[i].open ==> r@.contains(i as usize),
            forall|k: int, l: int| 0 <= k < l < r@.len() ==> r@[k] < r@[l],
    {
        let mut r: Vec<usize> = Vec::new();
        let mut i: usize = 0;
        while i < self.open.len()
            invariant
                self.wf(),
                0 <= i <= self@.len(),
                forall|k: int| 0 <= k < r@.len() ==> r@[k] < i && self@[r@[k] as int].open,
                forall|j: int| 0 <= j < i && self@[j].open ==> r@.contains(j as usize),
                forall|k: int, l: int| 0 <= k < l < r@.len() ==> r@[k] < r@[l],
            decreases self@.len() - i,
        {
            let ghost prev = r@;
            if self.open[i] {
                r.push(i);
            }
            assert forall|j: int| 0 <= j <= i && self@[j].open implies r@.contains(j as usize) by {
                if j < i {
                    let k = choose|k: int| 0 <= k < prev.len() && prev[k] == j as usize;
                    assert(r@[k] == j as usize);
                } else {
                    assert(r@[r@.len() - 1] == i);
                }
            }
            i = i + 1;
        }
        r
    }
}

proof fn lemma_receive_file_prefix(slots: Seq<SlotView>, index: int, data: Seq<u8>, n: int)
    requires
        0 <= index < slots.len(),
        !slots[index].open,
        data.len() <= u64::MAX,
        0 <= n <= chunk_count(data.len() as int, CHUNK_SIZE as int),
    ensures
        ({
            let k = chunk_count(data.len() as int, CHUNK_SIZE as int);
            let after = receive_all(slots, file_chunks(index, data, CHUNK_SIZE as int).take(n));
            &&& after.len() == slots.len()
            &&& forall|j: int| 0 <= j < slots.len() && j != index ==> after[j] == slots[j]
            &&& after[index].declared_hash == slots[index].declared_hash
            &&& n == 0 ==> after[index] == slots[index]
            &&& n > 0 ==> {
                &&& after[index].written == joined(file_chunks(index, data, CHUNK_SIZE as int).take(n))
                &&& after[index].record.received_chunks == n
                &&& after[index].record.bytes_written == after[index].written.len()
                &&& after[index].record.expected_chunks == k
                &&& after[index].open == (n < k)
                &&& after[index].complete == (n == k)
            }
        }),
    decreases n,
{
    let c = CHUNK_SIZE as int;
    let k = chunk_count(data.len() as int, c);
    let chunks = file_chunks(index, data, c);
    lemma_chunk_geometry(data.len() as int, c);
    assert(k <= data.len() || k == 1) by (nonlinear_arith)
        requires
            data.len() > 0 ==> (k - 1) * c < data.len(),
            data.len() == 0 ==> k == 1,
            c > 0,
            k >= 1,
    ;
    if n == 0 {
        assert(chunks.take(0) =~= Seq::<ChunkView>::empty());
    } else {
        lemma_receive_file_prefix(slots, index, data, n - 1);
        assert(chunks.take(n).drop_last() =~= chunks.take(n - 1));
        assert(chunks.take(n).last() == chunks[n - 1]);
        let prev = receive_all(slots, chunks.take(n - 1));
        let ch = chunks[n - 1];
        lemma_joined_prefix(index, data, c, n);
        assert(joined(chunks.take(n)) == joined(chunks.take(n - 1)) + ch.data);
        let base = target_slot(prev[index], index);
        if n == 1 {
            assert(base.record.received_chunks == 0);
            assert(base.written == Seq::<u8>::empty());
            assert(chunks.take(0) =~= Seq::<ChunkView>::empty());
            assert(Seq::<u8>::empty() + ch.data =~= ch.data);
        }
        assert(base.record.received_chunks == n - 1);
        assert(base.written == joined(chunks.take(n - 1)));
        assert(joined(chunks.take(n)).len() <= data.len());
        assert(base.record.can_take(ch.data.len() as int));
        assert(accepts(prev, ch));
        let after = receive_all(slots, chunks.take(n));
        assert(after == receive_step(prev, ch));
        assert(ch.chunk_number == n - 1 && ch.total_chunks == k);
        assert(after[index].record == base.record.taken(ch));
        assert(after[index].record.expected_chunks == k);
        assert(after[index].open == (n < k));
    }
}

/// Chunking a file and feeding its chunks, in order, to a receiver on which
/// that file is not open reproduces the file byte for byte and completes it,
/// so its recomputed digest is the sender's; every other file is left as it was.
pub proof fn lemma_transfer_round_trip(slots: Seq<SlotView>, index: int, data: Seq<u8>)
    requires
        0 <= index < slots.len(),
        !slots[index].open,
        data.len() <= u64::MAX,
    ensures
        ({
            let after = receive_all(slots, file_chunks(index, data, CHUNK_SIZE as int));
            &&& after.len() == slots.len()
            &&& after[index].complete
            &&& !after[index].open
            &&& after[index].written == data
            &&& sha256_of(after[index].written) == sha256_of(data)
            &&& after[index].declared_hash == slots[index].declared_hash
            &&& forall|j: int| 0 <= j < slots.len() && j != index ==> after[j] == slots[j]
        }),
{
    let c = CHUNK_SIZE as int;
    let k = chunk_count(data.len() as int, c);
    let chunks = file_chunks(index, data, c);
    lemma_chunk_geometry(data.len() as int, c);
    lemma_receive_file_prefix(slots, index, data, k);
    assert(chunks.take(k) =~= chunks);
    lemma_chunks_reassemble(index, data, c);
}

/// A file whose stream ends before its last chunk stays open and is never
/// marked complete, so it is never verified.
pub proof fn lemma_partial_file_incomplete(slots: Seq<SlotView>, index: int, data: Seq<u8>, n: int)
    requires
        0 <= index < slots.len(),
        !slots[index].open,
        !slots[index].complete,
        data.len() <= u64::MAX,
        0 <= n < chunk_count(data.len() as int, CHUNK_SIZE as int),
    ensures
        !receive_all(slots, file_chunks(index, data, CHUNK_SIZE as int).take(n))[index].complete,
        n > 0 ==> receive_all(slots, file_chunks(index, data, CHUNK_SIZE as int).take(n))[index].open,
{
    lemma_receive_file_prefix(slots, index, data, n);
}

/// A chunk naming a file outside the manifest changes nothing.
pub proof fn lemma_foreign_chunk_changes_nothing(slots: Seq<SlotView>, c: ChunkView)
    requires
        !in_manifest(slots, c),
    ensures
        receive_step(slots, c) == slots,
{
}

} // verus!
