use fastdrop::chunking::send_file;
use fastdrop::digest::FileHasher;
use fastdrop::framing::{encode_frame, FrameDecoder};
use fastdrop::policy::analyze_files;
use fastdrop::protocol::{FileList, FileMetadata, TransferRequest, TransferResponse, TransportProtocol};
use fastdrop::receiver::StreamReceiver;
use fastdrop::session::{FailReason, ReceiverPhase, ReceiverSession, SenderPhase, SenderSession};
use fastdrop::ticket::{build_ticket, validate_ticket};

const MIB: usize = 1024 * 1024;

fn digest(data: &[u8]) -> [u8; 32] {
    let mut h = FileHasher::new();
    h.update(data);
    h.finish()
}

fn small_manifest() -> FileList {
    FileList {
        files: vec![FileMetadata { name: "a".to_string(), size: 1, hash: None }],
        total_size: 1,
    }
}

#[test]
fn not_ready_receiver_gets_nothing() {
    let mut s = SenderSession::new(small_manifest());
    assert!(s.on_request(TransferRequest { request_id: 7, ready: false }).is_none());
    assert_eq!(s.phase(), SenderPhase::Declined);
    assert!(s.next_file().is_none());
    assert!(s.on_request(TransferRequest { request_id: 7, ready: true }).is_none());
    assert!(s.next_file().is_none());
}

#[test]
fn ready_receiver_gets_response_then_files() {
    let list = FileList {
        files: vec![
            FileMetadata { name: "a".to_string(), size: 1, hash: None },
            FileMetadata { name: "b".to_string(), size: 2, hash: Some([3u8; 32]) },
        ],
        total_size: 3,
    };
    let mut s = SenderSession::new(list);
    let resp = s.on_request(TransferRequest { request_id: 9, ready: true }).unwrap();
    assert_eq!(resp.request_id, 9);
    assert!(resp.accepted);
    assert_eq!(resp.file_list.files.len(), 2);
    assert_eq!(resp.file_list.files[1].name, "b");
    assert_eq!(resp.file_list.files[1].hash, Some([3u8; 32]));
    assert_eq!(resp.file_list.total_size, 3);
    assert_eq!(s.next_file(), Some(0));
    assert_eq!(s.next_file(), Some(1));
    assert_eq!(s.next_file(), None);
    assert_eq!(s.phase(), SenderPhase::Done);
}

#[test]
fn receiver_session_happy_path() {
    let ticket = build_ticket(
        "peerA".to_string(),
        &vec!["/ip4/192.168.0.9/tcp/4000".to_string()],
        TransportProtocol::Tcp,
        5,
    )
    .unwrap();
    let mut r = ReceiverSession::new();
    assert!(r.on_ticket(&ticket));
    assert!(!r.on_connected(&"peerB".to_string()));
    assert_eq!(r.phase(), ReceiverPhase::TicketExchanged);
    assert!(r.on_connected(&"peerA".to_string()));
    let req = r.make_request(1).unwrap();
    assert_eq!(req, TransferRequest { request_id: 1, ready: true });
    assert!(r.make_request(2).is_none());
    let resp = TransferResponse { request_id: 1, file_list: small_manifest(), accepted: true };
    assert!(r.on_response(&resp));
    assert_eq!(r.phase(), ReceiverPhase::Streaming);
    r.on_stream_end(true);
    assert_eq!(r.phase(), ReceiverPhase::Complete);
    r.on_connection_closed();
    assert_eq!(r.phase(), ReceiverPhase::Complete);
}

#[test]
fn receiver_session_failures() {
    let ticket = build_ticket("p".to_string(), &vec!["/ip4/10.0.0.1/tcp/1".to_string()], TransportProtocol::Tcp, 0)
        .unwrap();
    let mut r = ReceiverSession::new();
    r.on_ticket(&ticket);
    r.on_connected(&"p".to_string());
    r.make_request(4);
    let rejected = TransferResponse { request_id: 4, file_list: small_manifest(), accepted: false };
    assert!(!r.on_response(&rejected));
    assert_eq!(r.phase(), ReceiverPhase::Failed { reason: FailReason::Rejected });

    let mut r = ReceiverSession::new();
    r.on_ticket(&ticket);
    r.on_connected(&"p".to_string());
    r.make_request(4);
    let other = TransferResponse { request_id: 5, file_list: small_manifest(), accepted: true };
    assert!(!r.on_response(&other));
    assert_eq!(r.phase(), ReceiverPhase::Failed { reason: FailReason::RequestMismatch });

    let mut r = ReceiverSession::new();
    r.on_ticket(&ticket);
    r.on_connection_closed();
    assert_eq!(r.phase(), ReceiverPhase::Failed { reason: FailReason::ConnectionClosed });

    let mut bad = ticket.clone();
    bad.addrs = vec!["/ip4/127.0.0.1/tcp/1".to_string()];
    let mut r = ReceiverSession::new();
    assert!(!r.on_ticket(&bad));
    assert_eq!(r.phase(), ReceiverPhase::Failed { reason: FailReason::BadTicket });
}

#[test]
fn truncated_stream_fails_session() {
    let mut r = ReceiverSession::new();
    let ticket = build_ticket("p".to_string(), &vec!["/ip4/10.0.0.1/tcp/1".to_string()], TransportProtocol::Quic, 0)
        .unwrap();
    r.on_ticket(&ticket);
    r.on_connected(&"p".to_string());
    r.make_request(1);
    r.on_response(&TransferResponse { request_id: 1, file_list: small_manifest(), accepted: true });
    r.on_stream_end(false);
    assert_eq!(r.phase(), ReceiverPhase::Failed { reason: FailReason::ProtocolError });
}

#[test]
fn three_file_transfer_end_to_end() {
    let contents: Vec<Vec<u8>> = vec![
        (0..10 * MIB).map(|i| (i % 253) as u8).collect(),
        (0..5 * MIB).map(|i| (i % 7) as u8).collect(),
        vec![42u8; 1024],
    ];
    let metas: Vec<FileMetadata> = contents
        .iter()
        .enumerate()
        .map(|(i, c)| FileMetadata { name: format!("file{}", i), size: c.len() as u64, hash: Some(digest(c)) })
        .collect();
    let (protocol, list) = analyze_files(metas).unwrap();
    assert_eq!(protocol, TransportProtocol::Quic);

    let ticket = build_ticket(
        "sender".to_string(),
        &vec!["/ip4/127.0.0.1/udp/9/quic-v1".to_string(), "/ip4/192.168.1.4/udp/9/quic-v1".to_string()],
        protocol,
        77,
    )
    .unwrap();
    assert!(ticket.addrs.len() >= 1);
    assert_eq!(validate_ticket(&ticket), Ok(()));

    let mut receiver = ReceiverSession::new();
    assert!(receiver.on_ticket(&ticket));
    assert!(receiver.on_connected(&"sender".to_string()));
    let request = receiver.make_request(1).unwrap();

    let mut sender = SenderSession::new(list);
    let response = sender.on_request(request).unwrap();
    assert!(response.accepted);
    assert_eq!(response.file_list.files.len(), 3);
    assert!(receiver.on_response(&response));

    let mut wire: Vec<u8> = Vec::new();
    let mut sent = 0usize;
    let mut sent_chunks = Vec::new();
    while let Some(i) = sender.next_file() {
        let mut chunker = send_file(i, contents[i].len() as u64);
        let mut offset = 0usize;
        while let Some(len) = chunker.next_len() {
            let c = chunker.next_chunk(contents[i][offset..offset + len].to_vec()).unwrap();
            offset += len;
            wire.extend(encode_frame(&c.data).unwrap());
            sent_chunks.push(c);
            sent += 1;
        }
    }
    assert_eq!(sent, 16);

    let mut engine = StreamReceiver::new(&response.file_list);
    let mut decoder = FrameDecoder::new();
    decoder.push(wire);
    let mut files: Vec<Vec<u8>> = vec![Vec::new(); 3];
    let mut received = 0usize;
    for c in &sent_chunks {
        let payload = decoder.next_frame().unwrap();
        assert_eq!(&payload, &c.data);
        let step = engine.accept_chunk(c).unwrap();
        files[step.file_index].extend_from_slice(&payload);
        if step.complete {
            let rec = engine.record(step.file_index).unwrap();
            rec.finalize(step.expected_hash, Some(digest(&files[step.file_index]))).unwrap();
        }
        received += 1;
    }
    assert!(decoder.next_frame().is_none());
    assert_eq!(decoder.finish(), Ok(()));
    receiver.on_stream_end(true);
    assert_eq!(received, 16);
    assert_eq!(files, contents);
    assert!(engine.open_files().is_empty());
    assert_eq!(receiver.phase(), ReceiverPhase::Complete);
}
