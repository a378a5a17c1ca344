use fastdrop::chunking::send_file;
use fastdrop::digest::FileHasher;
use fastdrop::protocol::{FileChunk, FileList, FileMetadata, CHUNK_SIZE};
use fastdrop::receiver::{FileReceiver, ReceiveError, StreamReceiver};

fn digest(data: &[u8]) -> [u8; 32] {
    let mut h = FileHasher::new();
    h.update(data);
    h.finish()
}

fn manifest(contents: &[Vec<u8>]) -> FileList {
    let files: Vec<FileMetadata> = contents
        .iter()
        .enumerate()
        .map(|(i, c)| FileMetadata { name: format!("f{}", i), size: c.len() as u64, hash: Some(digest(c)) })
        .collect();
    let total_size = contents.iter().map(|c| c.len() as u64).sum();
    FileList { files, total_size }
}

fn chunks_of(index: usize, data: &[u8]) -> Vec<FileChunk> {
    let mut chunker = send_file(index, data.len() as u64);
    let mut out = Vec::new();
    let mut offset = 0usize;
    while let Some(len) = chunker.next_len() {
        out.push(chunker.next_chunk(data[offset..offset + len].to_vec()).unwrap());
        offset += len;
    }
    out
}

fn chunk(file_index: usize, chunk_number: u64, total_chunks: u64, data: Vec<u8>) -> FileChunk {
    FileChunk { file_index, chunk_number, total_chunks, data }
}

#[test]
fn file_receiver_counts_chunks() {
    let mut r = FileReceiver::new(2);
    assert!(!r.is_complete());
    r.write_chunk(&chunk(2, 0, 2, vec![1, 2, 3])).unwrap();
    assert_eq!(r.expected_chunks, 2);
    assert_eq!(r.received_chunks, 1);
    assert_eq!(r.bytes_written, 3);
    assert!(!r.is_complete());
    r.write_chunk(&chunk(2, 1, 2, vec![4])).unwrap();
    assert!(r.is_complete());
    assert_eq!(r.bytes_written, 4);
}

#[test]
fn file_receiver_refuses_other_index() {
    let mut r = FileReceiver::new(0);
    assert_eq!(
        r.write_chunk(&chunk(1, 0, 1, vec![1])),
        Err(ReceiveError::IndexMismatch { expected: 0, got: 1 })
    );
    assert_eq!(r.received_chunks, 0);
}

#[test]
fn file_receiver_counter_overflow() {
    let mut r = FileReceiver { file_index: 0, expected_chunks: 1, received_chunks: 0, bytes_written: u64::MAX };
    assert_eq!(r.write_chunk(&chunk(0, 0, 1, vec![1])), Err(ReceiveError::CounterOverflow));
}

#[test]
fn finalize_checks_digest() {
    let r = FileReceiver::new(3);
    let d = digest(b"abc");
    assert_eq!(r.finalize(None, None), Ok(()));
    assert_eq!(r.finalize(Some(d), Some(d)), Ok(()));
    assert_eq!(r.finalize(Some(d), Some(digest(b"abd"))), Err(ReceiveError::HashMismatch { index: 3 }));
    assert_eq!(r.finalize(Some(d), None), Err(ReceiveError::HashMismatch { index: 3 }));
}

#[test]
fn reassembly_reproduces_files() {
    let contents: Vec<Vec<u8>> = vec![
        (0..(2 * CHUNK_SIZE + 17)).map(|i| (i % 251) as u8).collect(),
        Vec::new(),
        b"tail".to_vec(),
    ];
    let list = manifest(&contents);
    let mut rx = StreamReceiver::new(&list);
    let mut written: Vec<Vec<u8>> = vec![Vec::new(); 3];
    let mut verified = vec![false; 3];
    for (i, data) in contents.iter().enumerate() {
        for c in chunks_of(i, data) {
            let step = rx.accept_chunk(&c).unwrap();
            if step.create {
                written[step.file_index].clear();
            }
            written[step.file_index].extend_from_slice(&c.data);
            if step.complete {
                let actual = digest(&written[step.file_index]);
                let rec = rx.record(step.file_index).unwrap();
                rec.finalize(step.expected_hash, Some(actual)).unwrap();
                verified[step.file_index] = step.expected_hash.is_some();
            }
        }
    }
    assert_eq!(written, contents);
    assert_eq!(verified, vec![true, true, true]);
    for i in 0..3 {
        assert!(rx.is_file_complete(i));
    }
    assert!(rx.open_files().is_empty());
    assert_eq!(rx.record(0).unwrap().received_chunks, 3);
    assert_eq!(rx.record(0).unwrap().bytes_written, 2 * CHUNK_SIZE as u64 + 17);
}

#[test]
fn empty_file_completes() {
    let list = manifest(&[Vec::new()]);
    let mut rx = StreamReceiver::new(&list);
    let chunks = chunks_of(0, &[]);
    assert_eq!(chunks.len(), 1);
    let step = rx.accept_chunk(&chunks[0]).unwrap();
    assert!(step.create);
    assert!(step.complete);
    assert_eq!(step.expected_hash, Some(digest(&[])));
    assert!(rx.is_file_complete(0));
}

#[test]
fn out_of_range_index_aborts_and_keeps_files() {
    let contents = vec![b"one".to_vec(), b"two".to_vec(), b"three".to_vec()];
    let list = manifest(&contents);
    let mut rx = StreamReceiver::new(&list);
    for i in 0..2 {
        for c in chunks_of(i, &contents[i]) {
            rx.accept_chunk(&c).unwrap();
        }
    }
    let err = rx.accept_chunk(&chunk(99, 0, 1, vec![1, 2, 3])).unwrap_err();
    assert_eq!(err, ReceiveError::InvalidFileIndex { index: 99, file_count: 3 });
    assert!(rx.is_file_complete(0));
    assert!(rx.is_file_complete(1));
    assert!(!rx.is_file_complete(2));
    assert_eq!(rx.record(1).unwrap().bytes_written, 3);
}

#[test]
fn stream_closing_early_leaves_file_incomplete() {
    let list = manifest(&[vec![0u8; 10]]);
    let mut rx = StreamReceiver::new(&list);
    let first = rx.accept_chunk(&chunk(0, 0, 3, vec![1])).unwrap();
    assert!(first.create && !first.complete && first.expected_hash.is_none());
    let second = rx.accept_chunk(&chunk(0, 1, 3, vec![2])).unwrap();
    assert!(!second.create && !second.complete && second.expected_hash.is_none());
    assert!(!rx.is_file_complete(0));
    assert_eq!(rx.open_files(), vec![0]);
    assert_eq!(rx.record(0).unwrap().received_chunks, 2);
    assert!(!rx.record(0).unwrap().is_complete());
}

#[test]
fn interleaved_chunks_are_demultiplexed() {
    let list = manifest(&[b"ab".to_vec(), b"cd".to_vec()]);
    let mut rx = StreamReceiver::new(&list);
    rx.accept_chunk(&chunk(1, 0, 2, b"c".to_vec())).unwrap();
    rx.accept_chunk(&chunk(0, 0, 2, b"a".to_vec())).unwrap();
    assert_eq!(rx.open_files(), vec![0, 1]);
    let s = rx.accept_chunk(&chunk(1, 1, 2, b"d".to_vec())).unwrap();
    assert!(s.complete);
    assert_eq!(rx.open_files(), vec![0]);
    assert_eq!(rx.file_count(), 2);
}
