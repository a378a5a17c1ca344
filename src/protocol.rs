//! Wire-level types and fixed constants shared by sender and receiver.

use vstd::prelude::*;

verus! {

/// Discovery service identifier advertised for the multiplexed transport.
pub const QUIC_SERVICE_UUID: &'static str = "12345678-1234-5678-1234-56789ABCDEF0";

/// Payload characteristic identifier for the multiplexed transport.
pub const QUIC_CHAR_UUID: &'static str = "ABCDEFAB-CDEF-1234-5678-1234567890AB";

/// Discovery service identifier advertised for the sequential transport.
pub const TCP_SERVICE_UUID: &'static str = "87654321-4321-8765-4321-FEDCBA987654";

/// Payload characteristic identifier for the sequential transport.
pub const TCP_CHAR_UUID: &'static str = "BAFEDCBA-FEDC-4321-8765-BA0987654321";

/// Largest single file a sender accepts (100 MiB).
pub const MAX_FILE_SIZE: u64 = 100 * 1024 * 1024;

/// Largest aggregate size of one transfer (500 MiB).
pub const MAX_TOTAL_SIZE: u64 = 500 * 1024 * 1024;

/// Payload size of every chunk but a file's last (1 MiB). Both ends share it;
/// changing it changes the protocol.
pub const CHUNK_SIZE: usize = 1024 * 1024;

/// The two data-channel transports a sender can pick.
#[derive(Debug, Clone, Copy, PartialEq, Eq, Structural)]
pub enum TransportProtocol {
    /// Multiplexed, low setup latency: many small or moderate files.
    Quic,
    /// Simple and sequential: few large files.
    Tcp,
}

impl TransportProtocol {
    /// The discovery identifier a sender advertises for this transport.
    pub fn service_uuid(&self) -> (r: &'static str)
        ensures
            r@ == (match *self {
                TransportProtocol::Quic => QUIC_SERVICE_UUID@,
                TransportProtocol::Tcp => TCP_SERVICE_UUID@,
            }),
    {
        match self {
            TransportProtocol::Quic => QUIC_SERVICE_UUID,
            TransportProtocol::Tcp => TCP_SERVICE_UUID,
        }
    }

    /// The address a sender listens on for this transport: every interface,
    /// a port the system picks.
    pub fn listen_address(&self) -> (r: &'static str)
        ensures
            r@ == (match *self {
                TransportProtocol::Quic => "/ip4/0.0.0.0/udp/0/quic-v1"@,
                TransportProtocol::Tcp => "/ip4/0.0.0.0/tcp/0"@,
            }),
    {
        match self {
            TransportProtocol::Quic => "/ip4/0.0.0.0/udp/0/quic-v1",
            TransportProtocol::Tcp => "/ip4/0.0.0.0/tcp/0",
        }
    }

    /// The identifier of the characteristic that carries the session ticket.
    pub fn char_uuid(&self) -> (r: &'static str)
        ensures
            r@ == (match *self {
                TransportProtocol::Quic => QUIC_CHAR_UUID@,
                TransportProtocol::Tcp => TCP_CHAR_UUID@,
            }),
    {
        match self {
            TransportProtocol::Quic => QUIC_CHAR_UUID,
            TransportProtocol::Tcp => TCP_CHAR_UUID,
        }
    }
}

/// Description of one file of a transfer, fixed when the transfer is set up.
#[derive(Debug, Clone)]
pub struct FileMetadata {
    /// File name, without directories.
    pub name: String,
    /// Size in bytes.
    pub size: u64,
    /// SHA-256 digest of the contents, when the sender computed it.
    pub hash: Option<[u8; 32]>,
}

/// Whether two file descriptions say the same.
pub open spec fn same_metadata(a: FileMetadata, b: FileMetadata) -> bool {
    a.name@ == b.name@ && a.size == b.size && a.hash == b.hash
}

/// Whether two manifests say the same, file by file.
pub open spec fn same_manifest(a: FileList, b: FileList) -> bool {
    &&& a.total_size == b.total_size
    &&& a.files@.len() == b.files@.len()
    &&& forall|i: int| 0 <= i < a.files@.len() ==> same_metadata(#[trigger] a.files@[i], b.files@[i])
}

impl FileMetadata {
    /// An equal, separately owned description.
    pub fn duplicate(&self) -> (r: FileMetadata)
        ensures
            same_metadata(r, *self),
    {
        FileMetadata { name: self.name.clone(), size: self.size, hash: self.hash }
    }
}

impl FileList {
    /// An equal, separately owned manifest.
    pub fn duplicate(&self) -> (r: FileList)
        ensures
            same_manifest(r, *self),
    {
        let mut files: Vec<FileMetadata> = Vec::new();
        let mut i: usize = 0;
        while i < self.files.len()
            invariant
                0 <= i <= self.files@.len(),
                files@.len() == i,
                forall|k: int| 0 <= k < i ==> same_metadata(#[trigger] files@[k], self.files@[k]),
            decreases self.files@.len() - i,
        {
            files.push(self.files[i].duplicate());
            i = i + 1;
        }
        FileList { files, total_size: self.total_size }
    }
}

/// The manifest: files in a fixed order, and their combined size.
///
/// A file's position in `files` is the only name chunks use for it.
#[derive(Debug, Clone)]
pub struct FileList {
    pub files: Vec<FileMetadata>,
    pub total_size: u64,
}

/// Whole contents of one file, tagged with its manifest index.
#[derive(Debug, Clone)]
pub struct FileData {
    pub index: usize,
    pub name: String,
    pub data: Vec<u8>,
}

/// Sent once by the receiver to start a transfer.
#[derive(Debug, Clone, Copy, PartialEq, Eq, Structural)]
pub struct TransferRequest {
    pub request_id: u64,
    pub ready: bool,
}

/// The sender's answer to a request: its manifest, sent before any chunk.
#[derive(Debug, Clone)]
pub struct TransferResponse {
    /// The `request_id` of the request answered.
    pub request_id: u64,
    pub file_list: FileList,
    pub accepted: bool,
}

/// One slice of a file's bytes, with its place in that file.
#[derive(Debug, Clone)]
pub struct FileChunk {
    /// Index of the file in the manifest.
    pub file_index: usize,
    /// Position of this chunk in its file, from 0.
    pub chunk_number: u64,
    /// Number of chunks of the file; the same on all of them.
    pub total_chunks: u64,
    pub data: Vec<u8>,
}

/// A chunk as a mathematical value.
pub struct ChunkView {
    pub file_index: int,
    pub chunk_number: int,
    pub total_chunks: int,
    pub data: Seq<u8>,
}

impl View for FileChunk {
    type V = ChunkView;

    open spec fn view(&self) -> ChunkView {
        ChunkView {
            file_index: self.file_index as int,
            chunk_number: self.chunk_number as int,
            total_chunks: self.total_chunks as int,
            data: self.data@,
        }
    }
}

/// Acknowledgement of one chunk.
#[derive(Debug, Clone, Copy, PartialEq, Eq, Structural)]
pub struct ChunkAck {
    pub file_index: usize,
    pub chunk_number: u64,
    pub success: bool,
}

/// What a receiver needs to reach a sender: carried over the discovery channel.
#[derive(Debug, Clone)]
pub struct SessionTicket {
    /// The sender's peer identity, in its text form.
    pub peer_id: String,
    /// Addresses the sender listens on, in their text form.
    pub addrs: Vec<String>,
    /// The transport the sender listens with.
    pub protocol: TransportProtocol,
    /// Fresh per session; signals freshness only.
    pub nonce: u64,
    /// Authentication tag over the ticket.
    pub sig: [u8; 64],
}

} // verus!
