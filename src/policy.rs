//! Transport selection and the size policy of a transfer.

use vstd::prelude::*;
use crate::protocol::{FileList, FileMetadata, TransportProtocol, MAX_FILE_SIZE, MAX_TOTAL_SIZE};

verus! {

/// More files than this always use the multiplexed transport.
pub const MANY_FILES_THRESHOLD: usize = 5;

/// Transfers smaller than this (100 MiB) always use the multiplexed transport.
pub const SMALL_TOTAL_SIZE_THRESHOLD: u64 = 100 * 1024 * 1024;

/// The transport chosen for a transfer of `file_count` files and `total_size` bytes.
pub open spec fn transport_for(file_count: int, total_size: int) -> TransportProtocol {
    if file_count > MANY_FILES_THRESHOLD || total_size < SMALL_TOTAL_SIZE_THRESHOLD {
        TransportProtocol::Quic
    } else {
        TransportProtocol::Tcp
    }
}

/// Combined size of a sequence of files.
pub open spec fn sum_sizes(files: Seq<FileMetadata>) -> int
    decreases files.len(),
{
    if files.len() == 0 {
        0
    } else {
        sum_sizes(files.drop_last()) + files.last().size
    }
}

/// Whether some file of `files` is over the per-file cap.
pub open spec fn has_oversized(files: Seq<FileMetadata>) -> bool {
    exists|i: int| 0 <= i < files.len() && files[i].size > MAX_FILE_SIZE
}

/// The first file of `files` that is over the per-file cap.
pub open spec fn first_oversized(files: Seq<FileMetadata>, i: int) -> bool {
    &&& 0 <= i < files.len()
    &&& files[i].size > MAX_FILE_SIZE
    &&& forall|j: int| 0 <= j < i ==> files[j].size <= MAX_FILE_SIZE
}

/// Why a set of files cannot be sent.
#[derive(Debug, Clone, Copy, PartialEq, Eq, Structural)]
pub enum AnalysisError {
    /// No file was given.
    NoFiles,
    /// The file at `index` is larger than `MAX_FILE_SIZE`.
    FileTooLarge { index: usize, size: u64 },
    /// The files together are larger than `MAX_TOTAL_SIZE`.
    TotalTooLarge,
}

proof fn lemma_sum_sizes_monotone(files: Seq<FileMetadata>, i: int)
    requires
        0 <= i <= files.len(),
    ensures
        sum_sizes(files.subrange(0, i)) <= sum_sizes(files),
    decreases files.len() - i,
{
    if i < files.len() {
        lemma_sum_sizes_monotone(files, i + 1);
        assert(files.subrange(0, i + 1).drop_last() =~= files.subrange(0, i));
    } else {
        assert(files.subrange(0, i) =~= files);
    }
}

/// Picks the transport for `file_count` files of `total_size` bytes in all.
///
/// Depends on these two numbers alone.
pub fn select_transport(file_count: usize, total_size: u64) -> (r: TransportProtocol)
    ensures
        r == transport_for(file_count as int, total_size as int),
{
    if file_count > MANY_FILES_THRESHOLD || total_size < SMALL_TOTAL_SIZE_THRESHOLD {
        TransportProtocol::Quic
    } else {
        TransportProtocol::Tcp
    }
}

/// Applies the size policy to the files of a transfer, in order, and picks
/// its transport.
///
/// On success the manifest holds the files as given and their combined size.
pub fn analyze_files(files: Vec<FileMetadata>) -> (r: Result<(TransportProtocol, FileList), AnalysisError>)
    ensures
        r == Err::<(TransportProtocol, FileList), AnalysisError>(AnalysisError::NoFiles)
            <==> files@.len() == 0,
        r is Err && r->Err_0 is FileTooLarge <==> files@.len() > 0 && has_oversized(files@),
        r is Err && r->Err_0 is FileTooLarge ==> first_oversized(files@, r->Err_0->index as int)
            && r->Err_0->size == files@[r->Err_0->index as int].size,
        r == Err::<(TransportProtocol, FileList), AnalysisError>(AnalysisError::TotalTooLarge)
            <==> files@.len() > 0 && !has_oversized(files@) && sum_sizes(files@) > MAX_TOTAL_SIZE,
        r is Ok ==> {
            let (protocol, list) = r->Ok_0;
            &&& list.files@ == files@
            &&& list.total_size == sum_sizes(files@)
            &&& protocol == transport_for(files@.len() as int, sum_sizes(files@))
        },
{
    if files.len() == 0 {
        return Err(AnalysisError::NoFiles);
    }
    let mut i: usize = 0;
    while i < files.len()
        invariant
            0 <= i <= files@.len(),
            forall|j: int| 0 <= j < i ==> files@[j].size <= MAX_FILE_SIZE,
        decreases files@.len() - i,
    {
        if files[i].size > MAX_FILE_SIZE {
            return Err(AnalysisError::FileTooLarge { index: i, size: files[i].size });
        }
        i = i + 1;
    }
    let mut total: u64 = 0;
    let mut k: usize = 0;
    while k < files.len()
        invariant
            0 <= k <= files@.len(),
            total == sum_sizes(files@.subrange(0, k as int)),
            total <= MAX_TOTAL_SIZE,
            !has_oversized(files@),
        decreases files@.len() - k,
    {
        proof {
            assert(files@.subrange(0, k + 1).drop_last() =~= files@.subrange(0, k as int));
            assert(files@[k as int].size <= MAX_FILE_SIZE);
        }
        total = total + files[k].size;
        k = k + 1;
        if total > MAX_TOTAL_SIZE {
            proof {
                lemma_sum_sizes_monotone(files@, k as int);
            }
            return Err(AnalysisError::TotalTooLarge);
        }
    }
    proof {
        assert(files@.subrange(0, files@.len() as int) =~= files@);
    }
    let protocol = select_transport(files.len(), total);
    Ok((protocol, FileList { files, total_size: total }))
}

/// The choice of transport is a function of the file count and total size:
/// equal inputs always give the same transport.
pub proof fn lemma_transport_choice_deterministic(
    count_a: int,
    size_a: int,
    count_b: int,
    size_b: int,
)
    requires
        count_a == count_b,
        size_a == size_b,
    ensures
        transport_for(count_a, size_a) == transport_for(count_b, size_b),
{
}

} // verus!
