//! Per-peer session state machines. Each inbound or outbound stream has its
//! own instance; the caller performs the I/O each transition asks for.

use vstd::prelude::*;
use crate::protocol::{FileList, SessionTicket, TransferRequest, TransferResponse, same_manifest};
use crate::ticket::{loopback_text, validate_ticket};

verus! {

/// Where the sending half of a session stands.
#[derive(Debug, Clone, Copy, PartialEq, Eq, Structural)]
pub enum SenderPhase {
    /// Waiting for the one transfer request of the stream.
    AwaitingRequest,
    /// The response went out; files are streamed in manifest order, from `next_file`.
    Streaming { next_file: usize },
    /// The receiver was not ready: nothing is sent.
    Declined,
    /// Every file has been handed out for streaming.
    Done,
}

/// The sending half of a session, for one inbound stream.
pub struct SenderSession {
    phase: SenderPhase,
    manifest: FileList,
}

impl SenderSession {
    /// Current phase.
    pub closed spec fn spec_phase(&self) -> SenderPhase {
        self.phase
    }

    /// The manifest this session offers.
    pub closed spec fn spec_manifest(&self) -> FileList {
        self.manifest
    }

    /// A session offering `manifest`, waiting for the request.
    pub fn new(manifest: FileList) -> (r: SenderSession)
        ensures
            r.spec_phase() == SenderPhase::AwaitingRequest,
            r.spec_manifest() == manifest,
    {
        SenderSession { phase: SenderPhase::AwaitingRequest, manifest }
    }

    /// Current phase.
    pub fn phase(&self) -> (r: SenderPhase)
        ensures
            r == self.spec_phase(),
    {
        self.phase
    }

    /// Handles the transfer request read from the stream.
    ///
    /// Only the first request counts. When the receiver is ready the answer
    /// is the response to send, echoing its id and carrying the manifest;
    /// when it is not, nothing is sent and nothing will be streamed.
    pub fn on_request(&mut self, request: TransferRequest) -> (r: Option<TransferResponse>)
        ensures
            final(self).spec_manifest() == old(self).spec_manifest(),
            old(self).spec_phase() == SenderPhase::AwaitingRequest && request.ready ==> {
                &&& r is Some
                &&& r->Some_0.request_id == request.request_id
                &&& r->Some_0.accepted
                &&& same_manifest(r->Some_0.file_list, old(self).spec_manifest())
                &&& final(self).spec_phase() == (SenderPhase::Streaming { next_file: 0 })
            },
            old(self).spec_phase() == SenderPhase::AwaitingRequest && !request.ready ==> r is None
                && final(self).spec_phase() == SenderPhase::Declined,
            old(self).spec_phase() != SenderPhase::AwaitingRequest ==> r is None
                && final(self).spec_phase() == old(self).spec_phase(),
    {
        if self.phase != SenderPhase::AwaitingRequest {
            return None;
        }
        if !request.ready {
            self.phase = SenderPhase::Declined;
            return None;
        }
        self.phase = SenderPhase::Streaming { next_file: 0 };
        Some(TransferResponse { request_id: request.request_id, file_list: self.manifest.duplicate(), accepted: true })
    }

    /// The index of the next file to stream, in manifest order, or `None`
    /// when there is none: all were handed out, or streaming never began.
    pub fn next_file(&mut self) -> (r: Option<usize>)
        ensures
            final(self).spec_manifest() == old(self).spec_manifest(),
            match old(self).spec_phase() {
                SenderPhase::Streaming { next_file } => if next_file < old(self).spec_manifest().files@.len() {
                    r == Some(next_file) && final(self).spec_phase() == (SenderPhase::Streaming {
                        next_file: (next_file + 1) as usize,
                    })
                } else {
                    r is None && final(self).spec_phase() == SenderPhase::Done
                },
                _ => r is None && final(self).spec_phase() == old(self).spec_phase(),
            },
    {
        match self.phase {
            SenderPhase::Streaming { next_file } => {
                if next_file < self.manifest.files.len() {
                    self.phase = SenderPhase::Streaming { next_file: next_file + 1 };
                    Some(next_file)
                } else {
                    self.phase = SenderPhase::Done;
                    None
                }
            },
            _ => None,
        }
    }
}

/// Why a receiving session failed.
#[derive(Debug, Clone, Copy, PartialEq, Eq, Structural)]
pub enum FailReason {
    /// The ticket lists no usable address.
    BadTicket,
    /// The sender answered with `accepted == false`.
    Rejected,
    /// The response answers another request.
    RequestMismatch,
    /// The stream broke a rule of the protocol (a truncated frame, an unknown file).
    ProtocolError,
    /// The connection closed before the transfer was complete.
    ConnectionClosed,
}

/// Where the receiving half of a session stands.
#[derive(Debug, Clone, Copy, PartialEq, Eq, Structural)]
pub enum ReceiverPhase {
    Scanning,
    TicketExchanged,
    Connected,
    RequestSent { request_id: u64 },
    Streaming,
    Complete,
    Failed { reason: FailReason },
}

/// Whether a receiving session has ended, well or not.
pub open spec fn is_final(p: ReceiverPhase) -> bool {
    p == ReceiverPhase::Complete || p is Failed
}

/// The receiving half of a session, for one sender.
pub struct ReceiverSession {
    phase: ReceiverPhase,
    peer_id: String,
}

impl ReceiverSession {
    /// Current phase.
    pub closed spec fn spec_phase(&self) -> ReceiverPhase {
        self.phase
    }

    /// Identity of the sender named by the ticket, once one was taken.
    pub closed spec fn spec_peer(&self) -> Seq<char> {
        self.peer_id@
    }

    /// A session looking for a sender.
    pub fn new() -> (r: ReceiverSession)
        ensures
            r.spec_phase() == ReceiverPhase::Scanning,
    {
        ReceiverSession { phase: ReceiverPhase::Scanning, peer_id: String::new() }
    }

    /// Current phase.
    pub fn phase(&self) -> (r: ReceiverPhase)
        ensures
            r == self.spec_phase(),
    {
        self.phase
    }

    /// Takes the ticket read from the selected device.
    pub fn on_ticket(&mut self, ticket: &SessionTicket) -> (r: bool)
        ensures
            old(self).spec_phase() == ReceiverPhase::Scanning ==> {
                let usable = ticket.addrs@.len() > 0 && forall|i: int|
                    0 <= i < ticket.addrs@.len() ==> !loopback_text(#[trigger] ticket.addrs@[i]@);
                &&& r == usable
                &&& usable ==> final(self).spec_phase() == ReceiverPhase::TicketExchanged
                    && final(self).spec_peer() == ticket.peer_id@
                &&& !usable ==> final(self).spec_phase() == (ReceiverPhase::Failed {
                    reason: FailReason::BadTicket,
                })
            },
            old(self).spec_phase() != ReceiverPhase::Scanning ==> !r && *final(self) == *old(self),
    {
        if self.phase != ReceiverPhase::Scanning {
            return false;
        }
        match validate_ticket(ticket) {
            Ok(()) => {
                self.phase = ReceiverPhase::TicketExchanged;
                self.peer_id = ticket.peer_id.clone();
                true
            },
            Err(_) => {
                self.phase = ReceiverPhase::Failed { reason: FailReason::BadTicket };
                false
            },
        }
    }

    /// A connection was established with `peer`. Only the ticket's peer counts.
    pub fn on_connected(&mut self, peer: &String) -> (r: bool)
        ensures
            r == (old(self).spec_phase() == ReceiverPhase::TicketExchanged && peer@ == old(self).spec_peer()),
            r ==> final(self).spec_phase() == ReceiverPhase::Connected,
            !r ==> final(self).spec_phase() == old(self).spec_phase(),
            final(self).spec_peer() == old(self).spec_peer(),
    {
        if self.phase == ReceiverPhase::TicketExchanged && *peer == self.peer_id {
            self.phase = ReceiverPhase::Connected;
            true
        } else {
            false
        }
    }

    /// The one request of the session, to send once connected.
    pub fn make_request(&mut self, request_id: u64) -> (r: Option<TransferRequest>)
        ensures
            old(self).spec_phase() == ReceiverPhase::Connected ==> r == Some(
                TransferRequest { request_id, ready: true },
            ) && final(self).spec_phase() == (ReceiverPhase::RequestSent { request_id }),
            old(self).spec_phase() != ReceiverPhase::Connected ==> r is None
                && final(self).spec_phase() == old(self).spec_phase(),
            final(self).spec_peer() == old(self).spec_peer(),
    {
        if self.phase != ReceiverPhase::Connected {
            return None;
        }
        self.phase = ReceiverPhase::RequestSent { request_id };
        Some(TransferRequest { request_id, ready: true })
    }

    /// Takes the sender's response. Streaming begins only if it accepts the
    /// request this session sent.
    pub fn on_response(&mut self, response: &TransferResponse) -> (r: bool)
        ensures
            final(self).spec_peer() == old(self).spec_peer(),
            match old(self).spec_phase() {
                ReceiverPhase::RequestSent { request_id } => if !response.accepted {
                    !r && final(self).spec_phase() == (ReceiverPhase::Failed { reason: FailReason::Rejected })
                } else if response.request_id != request_id {
                    !r && final(self).spec_phase() == (ReceiverPhase::Failed {
                        reason: FailReason::RequestMismatch,
                    })
                } else {
                    r && final(self).spec_phase() == ReceiverPhase::Streaming
                },
                _ => !r && final(self).spec_phase() == old(self).spec_phase(),
            },
    {
        match self.phase {
            ReceiverPhase::RequestSent { request_id } => {
                if !response.accepted {
                    self.phase = ReceiverPhase::Failed { reason: FailReason::Rejected };
                    false
                } else if response.request_id != request_id {
                    self.phase = ReceiverPhase::Failed { reason: FailReason::RequestMismatch };
                    false
                } else {
                    self.phase = ReceiverPhase::Streaming;
                    true
                }
            },
            _ => false,
        }
    }

    /// The stream ended: cleanly after whole frames, or not.
    pub fn on_stream_end(&mut self, clean: bool)
        ensures
            final(self).spec_peer() == old(self).spec_peer(),
            old(self).spec_phase() == ReceiverPhase::Streaming ==> final(self).spec_phase() == if clean {
                ReceiverPhase::Complete
            } else {
                ReceiverPhase::Failed { reason: FailReason::ProtocolError }
            },
            old(self).spec_phase() != ReceiverPhase::Streaming ==> final(self).spec_phase() == old(self).spec_phase(),
    {
        if self.phase == ReceiverPhase::Streaming {
            self.phase = if clean {
                ReceiverPhase::Complete
            } else {
                ReceiverPhase::Failed { reason: FailReason::ProtocolError }
            };
        }
    }

    /// A protocol error aborted the stream.
    pub fn on_protocol_error(&mut self)
        ensures
            final(self).spec_peer() == old(self).spec_peer(),
            !is_final(old(self).spec_phase()) ==> final(self).spec_phase() == (ReceiverPhase::Failed {
                reason: FailReason::ProtocolError,
            }),
            is_final(old(self).spec_phase()) ==> final(self).spec_phase() == old(self).spec_phase(),
    {
        if !(self.phase == ReceiverPhase::Complete || matches!(self.phase, ReceiverPhase::Failed { .. })) {
            self.phase = ReceiverPhase::Failed { reason: FailReason::ProtocolError };
        }
    }

    /// The connection to the sender closed.
    pub fn on_connection_closed(&mut self)
        ensures
            final(self).spec_peer() == old(self).spec_peer(),
            !is_final(old(self).spec_phase()) ==> final(self).spec_phase() == (ReceiverPhase::Failed {
                reason: FailReason::ConnectionClosed,
            }),
            is_final(old(self).spec_phase()) ==> final(self).spec_phase() == old(self).spec_phase(),
    {
        if !(self.phase == ReceiverPhase::Complete || matches!(self.phase, ReceiverPhase::Failed { .. })) {
            self.phase = ReceiverPhase::Failed { reason: FailReason::ConnectionClosed };
        }
    }
}

} // verus!
