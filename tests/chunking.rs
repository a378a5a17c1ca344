use fastdrop::chunking::{send_file, total_chunks_for};
use fastdrop::protocol::CHUNK_SIZE;

const C: u64 = CHUNK_SIZE as u64;

#[test]
fn chunk_count_rounds_up() {
    assert_eq!(total_chunks_for(1), 1);
    assert_eq!(total_chunks_for(C), 1);
    assert_eq!(total_chunks_for(C + 1), 2);
    assert_eq!(total_chunks_for(10 * C), 10);
    assert_eq!(total_chunks_for(5 * C / 2), 3);
}

#[test]
fn empty_file_has_one_empty_chunk() {
    let mut chunker = send_file(4, 0);
    assert_eq!(chunker.total_chunks(), 1);
    assert_eq!(chunker.next_len(), Some(0));
    let chunk = chunker.next_chunk(Vec::new()).unwrap();
    assert_eq!(chunk.file_index, 4);
    assert_eq!(chunk.chunk_number, 0);
    assert_eq!(chunk.total_chunks, 1);
    assert!(chunk.data.is_empty());
    assert!(chunker.is_done());
    assert_eq!(chunker.next_len(), None);
}

#[test]
fn chunk_lengths_for_partial_last_chunk() {
    let size = 2 * C + C / 2;
    let mut chunker = send_file(1, size);
    let mut lens = Vec::new();
    let mut numbers = Vec::new();
    while let Some(len) = chunker.next_len() {
        let chunk = chunker.next_chunk(vec![0u8; len]).unwrap();
        assert_eq!(chunk.total_chunks, 3);
        lens.push(chunk.data.len() as u64);
        numbers.push(chunk.chunk_number);
    }
    assert_eq!(lens, vec![C, C, C / 2]);
    assert_eq!(numbers, vec![0, 1, 2]);
}

#[test]
fn chunk_lengths_for_exact_multiple() {
    let mut chunker = send_file(0, 2 * C);
    assert_eq!(chunker.next_len(), Some(CHUNK_SIZE));
    chunker.next_chunk(vec![1u8; CHUNK_SIZE]).unwrap();
    assert_eq!(chunker.next_len(), Some(CHUNK_SIZE));
    chunker.next_chunk(vec![1u8; CHUNK_SIZE]).unwrap();
    assert_eq!(chunker.next_len(), None);
}

#[test]
fn small_file_single_chunk() {
    let mut chunker = send_file(2, 1024);
    assert_eq!(chunker.next_len(), Some(1024));
    let chunk = chunker.next_chunk(vec![9u8; 1024]).unwrap();
    assert_eq!(chunk.total_chunks, 1);
    assert_eq!(chunk.data, vec![9u8; 1024]);
}

#[test]
fn wrong_length_data_is_refused() {
    let mut chunker = send_file(0, 10);
    assert!(chunker.next_chunk(vec![0u8; 9]).is_none());
    assert_eq!(chunker.next_len(), Some(10));
    assert!(chunker.next_chunk(vec![0u8; 10]).is_some());
    assert!(chunker.next_chunk(Vec::new()).is_none());
}
