use fastdrop::policy::{analyze_files, select_transport, AnalysisError};
use fastdrop::protocol::{FileMetadata, TransportProtocol, MAX_FILE_SIZE};

const MIB: u64 = 1024 * 1024;

fn meta(name: &str, size: u64) -> FileMetadata {
    FileMetadata { name: name.to_string(), size, hash: None }
}

#[test]
fn many_small_files_pick_quic() {
    assert_eq!(select_transport(6, 1024), TransportProtocol::Quic);
}

#[test]
fn few_large_files_pick_tcp() {
    assert_eq!(select_transport(2, 200 * MIB), TransportProtocol::Tcp);
}

#[test]
fn few_small_files_pick_quic() {
    assert_eq!(select_transport(2, 50 * MIB), TransportProtocol::Quic);
}

#[test]
fn thresholds_are_exclusive() {
    assert_eq!(select_transport(5, 100 * MIB), TransportProtocol::Tcp);
    assert_eq!(select_transport(5, 100 * MIB - 1), TransportProtocol::Quic);
    assert_eq!(select_transport(6, 100 * MIB), TransportProtocol::Quic);
}

#[test]
fn same_shape_same_transport() {
    for _ in 0..3 {
        assert_eq!(select_transport(2, 200 * MIB), TransportProtocol::Tcp);
        assert_eq!(select_transport(3, 15 * MIB), TransportProtocol::Quic);
    }
}

#[test]
fn analyze_three_files() {
    let files = vec![meta("a.bin", 10 * MIB), meta("b.bin", 5 * MIB), meta("c.txt", 1024)];
    let (protocol, list) = analyze_files(files).unwrap();
    assert_eq!(protocol, TransportProtocol::Quic);
    assert_eq!(list.files.len(), 3);
    assert_eq!(list.total_size, 15 * MIB + 1024);
    assert_eq!(list.files[2].name, "c.txt");
}

#[test]
fn analyze_two_large_files() {
    let files = vec![meta("a", 100 * MIB), meta("b", 100 * MIB)];
    let (protocol, list) = analyze_files(files).unwrap();
    assert_eq!(protocol, TransportProtocol::Tcp);
    assert_eq!(list.total_size, 200 * MIB);
}

#[test]
fn analyze_no_files() {
    assert_eq!(analyze_files(Vec::new()).unwrap_err(), AnalysisError::NoFiles);
}

#[test]
fn analyze_oversized_file() {
    let files = vec![meta("a", 1), meta("b", MAX_FILE_SIZE + 1), meta("c", MAX_FILE_SIZE + 2)];
    assert_eq!(
        analyze_files(files).unwrap_err(),
        AnalysisError::FileTooLarge { index: 1, size: MAX_FILE_SIZE + 1 }
    );
}

#[test]
fn analyze_total_too_large() {
    let files: Vec<FileMetadata> = (0..6).map(|i| meta(&format!("f{}", i), 90 * MIB)).collect();
    assert_eq!(analyze_files(files).unwrap_err(), AnalysisError::TotalTooLarge);
}

#[test]
fn analyze_total_at_cap() {
    let files: Vec<FileMetadata> = (0..5).map(|i| meta(&format!("f{}", i), 100 * MIB)).collect();
    let (protocol, list) = analyze_files(files).unwrap();
    assert_eq!(list.total_size, 500 * MIB);
    assert_eq!(protocol, TransportProtocol::Tcp);
}
