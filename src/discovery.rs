//! Discovery identifiers: each transport has its own pair, so a scanning
//! receiver can tell a sender's transport before connecting.

use vstd::prelude::*;
use crate::protocol::{TransportProtocol, QUIC_SERVICE_UUID, QUIC_CHAR_UUID, TCP_SERVICE_UUID, TCP_CHAR_UUID};

verus! {

/// The 128-bit value of the UUID written as `text`, or `None` when `text` is not a UUID.
pub uninterp spec fn uuid_value(text: Seq<char>) -> Option<u128>;

/// Relies on `uuid::Uuid::parse_str`: the UUID written as `text`, if it is
/// one, as its 128-bit value; the result depends on the text alone.
#[verifier::external_body]
fn parse_uuid(text: &str) -> (r: Option<u128>)
    ensures
        r == uuid_value(text@),
{
    match uuid::Uuid::parse_str(text) {
        Ok(u) => Some(u.as_u128()),
        Err(_) => None,
    }
}

/// Whether `id` is among `ids`.
pub open spec fn lists(ids: Seq<u128>, id: Option<u128>) -> bool {
    id is Some && ids.contains(id->Some_0)
}

/// The transport a device advertising `ids` offers: the multiplexed one if
/// its identifier is listed, else the sequential one if its identifier is.
pub open spec fn offered_transport(ids: Seq<u128>, quic: Option<u128>, tcp: Option<u128>) -> Option<TransportProtocol> {
    if lists(ids, quic) {
        Some(TransportProtocol::Quic)
    } else if lists(ids, tcp) {
        Some(TransportProtocol::Tcp)
    } else {
        None
    }
}

fn contains_id(ids: &Vec<u128>, id: u128) -> (r: bool)
    ensures
        r == ids@.contains(id),
{
    let mut i: usize = 0;
    while i < ids.len()
        invariant
            0 <= i <= ids@.len(),
            forall|k: int| 0 <= k < i ==> ids@[k] != id,
        decreases ids@.len() - i,
    {
        if ids[i] == id {
            return true;
        }
        i = i + 1;
    }
    false
}

/// Picks the transport a device offers from the service identifiers it
/// advertises, given each transport's identifier.
pub fn transport_for_services(ids: &Vec<u128>, quic: Option<u128>, tcp: Option<u128>) -> (r: Option<TransportProtocol>)
    ensures
        r == offered_transport(ids@, quic, tcp),
{
    if let Some(q) = quic {
        if contains_id(ids, q) {
            return Some(TransportProtocol::Quic);
        }
    }
    if let Some(t) = tcp {
        if contains_id(ids, t) {
            return Some(TransportProtocol::Tcp);
        }
    }
    None
}

/// Picks the transport a device offers from the service identifiers it advertises.
pub fn advertised_transport(ids: &Vec<u128>) -> (r: Option<TransportProtocol>)
    ensures
        r == offered_transport(ids@, uuid_value(QUIC_SERVICE_UUID@), uuid_value(TCP_SERVICE_UUID@)),
{
    let quic = parse_uuid(QUIC_SERVICE_UUID);
    let tcp = parse_uuid(TCP_SERVICE_UUID);
    transport_for_services(ids, quic, tcp)
}

impl TransportProtocol {
    /// The discovery identifier of this transport, as a 128-bit value.
    pub fn service_id(&self) -> (r: Option<u128>)
        ensures
            r == uuid_value(match *self {
                TransportProtocol::Quic => QUIC_SERVICE_UUID@,
                TransportProtocol::Tcp => TCP_SERVICE_UUID@,
            }),
    {
        parse_uuid(self.service_uuid())
    }

    /// The identifier of the ticket characteristic of this transport, as a 128-bit value.
    pub fn char_id(&self) -> (r: Option<u128>)
        ensures
            r == uuid_value(match *self {
                TransportProtocol::Quic => QUIC_CHAR_UUID@,
                TransportProtocol::Tcp => TCP_CHAR_UUID@,
            }),
    {
        parse_uuid(self.char_uuid())
    }
}

} // verus!
