//! Session tickets: what a sender advertises so that a receiver can reach it.

use vstd::prelude::*;
use crate::protocol::{SessionTicket, TransportProtocol};

verus! {

/// Largest encoded ticket the discovery channel can carry in one read.
pub const MAX_TICKET_BYTES: usize = 512;

/// Whether `p` occurs in `s` as a contiguous piece.
pub open spec fn has_piece(s: Seq<char>, p: Seq<char>) -> bool {
    exists|i: int| 0 <= i && i + p.len() <= s.len() && #[trigger] s.subrange(i, i + p.len()) == p
}

/// Whether an address, in text form, is a loopback address.
pub open spec fn loopback_text(a: Seq<char>) -> bool {
    has_piece(a, "127.0.0.1"@) || has_piece(a, "::1"@)
}

/// The addresses of `addrs` that are not loopback, in order.
pub open spec fn routable(addrs: Seq<Seq<char>>) -> Seq<Seq<char>>
    decreases addrs.len(),
{
    if addrs.len() == 0 {
        Seq::empty()
    } else if loopback_text(addrs.last()) {
        routable(addrs.drop_last())
    } else {
        routable(addrs.drop_last()).push(addrs.last())
    }
}

/// The text of each string.
pub open spec fn texts(v: Seq<String>) -> Seq<Seq<char>> {
    v.map_values(|s: String| s@)
}

/// The little-endian bytes of `n`.
pub open spec fn le64_bytes(n: u64) -> Seq<u8> {
    Seq::new(8, |i: int| (n >> (8 * i) as u64) as u8)
}

/// The placeholder authentication tag: the nonce's little-endian bytes,
/// then zeros. It authenticates nothing.
pub open spec fn placeholder_tag_of(nonce: u64) -> Seq<u8> {
    le64_bytes(nonce) + Seq::new(56, |i: int| 0u8)
}

/// Why a ticket cannot be built, sent or used.
#[derive(Debug, Clone, Copy, PartialEq, Eq, Structural)]
pub enum TicketError {
    /// Every address was a loopback address, or none was given.
    NoRoutableAddress,
    /// The encoded ticket does not fit the discovery channel.
    TooLarge,
    /// The bytes read are not a ticket.
    Malformed,
}

/// Whether `p` occurs in `s`.
pub fn contains_text(s: &str, p: &str) -> (r: bool)
    ensures
        r == has_piece(s@, p@),
{
    let n = s.unicode_len();
    let m = p.unicode_len();
    if m > n {
        proof {
            assert forall|i: int| 0 <= i && i + p@.len() <= s@.len() implies #[trigger] s@.subrange(i, i + p@.len()) != p@ by {}
        }
        return false;
    }
    let mut i: usize = 0;
    while i <= n - m
        invariant
            n == s@.len(),
            m == p@.len(),
            m <= n,
            0 <= i <= n - m + 1,
            forall|k: int| 0 <= k < i ==> #[trigger] s@.subrange(k, k + m) != p@,
        decreases n - m + 1 - i,
    {
        let mut j: usize = 0;
        let mut same = true;
        while j < m
            invariant
                n == s@.len(),
                m == p@.len(),
                i + m <= n,
                0 <= j <= m,
                same == forall|l: int| 0 <= l < j ==> s@[i + l] == p@[l],
            decreases m - j,
        {
            if s.get_char(i + j) != p.get_char(j) {
                same = false;
            }
            j = j + 1;
        }
        if same {
            assert(s@.subrange(i as int, i + m) =~= p@);
            return true;
        }
        proof {
            let l = choose|l: int| 0 <= l < m && s@[i + l] != p@[l];
            assert(s@.subrange(i as int, i + m)[l] != p@[l]);
        }
        i = i + 1;
    }
    false
}

/// Whether an address, in text form, is a loopback address.
pub fn is_loopback_addr(addr: &str) -> (r: bool)
    ensures
        r == loopback_text(addr@),
{
    contains_text(addr, "127.0.0.1") || contains_text(addr, "::1")
}

/// The addresses that a separate device can reach: all but the loopback ones, in order.
pub fn filter_routable(addrs: &Vec<String>) -> (r: Vec<String>)
    ensures
        texts(r@) == routable(texts(addrs@)),
{
    let mut out: Vec<String> = Vec::new();
    let mut i: usize = 0;
    while i < addrs.len()
        invariant
            0 <= i <= addrs@.len(),
            texts(out@) == routable(texts(addrs@.take(i as int))),
        decreases addrs@.len() - i,
    {
        proof {
            assert(texts(addrs@.take(i + 1)).drop_last() =~= texts(addrs@.take(i as int)));
            assert(texts(addrs@.take(i + 1)).last() == addrs@[i as int]@);
        }
        let ghost prev = out@;
        if !is_loopback_addr(addrs[i].as_str()) {
            let a = addrs[i].clone();
            out.push(a);
            assert(texts(out@) =~= texts(prev).push(addrs@[i as int]@));
        }
        i = i + 1;
    }
    assert(addrs@.take(addrs@.len() as int) =~= addrs@);
    out
}

/// Relies on `rand::random`: a value from the thread-local generator.
/// Nothing is known of which value.
pub assume_specification<T>[ rand::random::<T> ]() -> (r: T)
    where
        rand::distributions::Standard: rand::distributions::Distribution<T>,
;

/// The placeholder authentication tag of a ticket with nonce `nonce`.
pub fn placeholder_tag(nonce: u64) -> (r: [u8; 64])
    ensures
        r@ == placeholder_tag_of(nonce),
{
    let mut sig = [0u8; 64];
    let mut i: usize = 0;
    while i < 8
        invariant
            0 <= i <= 8,
            sig@.len() == 64,
            forall|k: int| 0 <= k < i ==> sig@[k] == le64_bytes(nonce)[k],
            forall|k: int| i <= k < 64 ==> sig@[k] == 0u8,
        decreases 8 - i,
    {
        sig[i] = #[verifier::truncate] ((nonce >> (8 * i) as u64) as u8);
        i = i + 1;
    }
    assert(sig@ =~= placeholder_tag_of(nonce));
    sig
}

/// Builds the ticket a sender advertises: its identity, its addresses that a
/// separate device can reach, its transport, the session nonce, and the tag.
///
/// Fails when no address is left once loopback ones are set aside.
pub fn build_ticket(
    peer_id: String,
    listen_addrs: &Vec<String>,
    protocol: TransportProtocol,
    nonce: u64,
) -> (r: Result<SessionTicket, TicketError>)
    ensures
        r is Err <==> routable(texts(listen_addrs@)).len() == 0,
        r is Err ==> r->Err_0 == TicketError::NoRoutableAddress,
        r is Ok ==> {
            let t = r->Ok_0;
            &&& t.peer_id@ == peer_id@
            &&& texts(t.addrs@) == routable(texts(listen_addrs@))
            &&& t.protocol == protocol
            &&& t.nonce == nonce
            &&& t.sig@ == placeholder_tag_of(nonce)
        },
{
    let addrs = filter_routable(listen_addrs);
    if addrs.len() == 0 {
        return Err(TicketError::NoRoutableAddress);
    }
    let sig = placeholder_tag(nonce);
    Ok(SessionTicket { peer_id, addrs, protocol, nonce, sig })
}

/// Builds a ticket as `build_ticket` does, with a fresh random nonce.
pub fn new_session_ticket(
    peer_id: String,
    listen_addrs: &Vec<String>,
    protocol: TransportProtocol,
) -> (r: Result<SessionTicket, TicketError>)
    ensures
        r is Err <==> routable(texts(listen_addrs@)).len() == 0,
        r is Err ==> r->Err_0 == TicketError::NoRoutableAddress,
        r is Ok ==> {
            let t = r->Ok_0;
            &&& t.peer_id@ == peer_id@
            &&& texts(t.addrs@) == routable(texts(listen_addrs@))
            &&& t.protocol == protocol
            &&& t.sig@ == placeholder_tag_of(t.nonce)
        },
{
    let nonce: u64 = rand::random::<u64>();
    build_ticket(peer_id, listen_addrs, protocol, nonce)
}

/// Checks that an encoded ticket fits the discovery channel: a ticket that
/// does not is refused, never truncated.
pub fn check_ticket_size(encoded: &Vec<u8>) -> (r: Result<(), TicketError>)
    ensures
        r is Ok <==> encoded@.len() <= MAX_TICKET_BYTES,
        r is Err ==> r->Err_0 == TicketError::TooLarge,
{
    if encoded.len() > MAX_TICKET_BYTES {
        Err(TicketError::TooLarge)
    } else {
        Ok(())
    }
}

/// Checks a ticket read from a nearby device: it must list at least one
/// address, and no loopback one.
pub fn validate_ticket(ticket: &SessionTicket) -> (r: Result<(), TicketError>)
    ensures
        r is Ok <==> ticket.addrs@.len() > 0 && forall|i: int|
            0 <= i < ticket.addrs@.len() ==> !loopback_text(#[trigger] ticket.addrs@[i]@),
        r is Err ==> r->Err_0 == TicketError::NoRoutableAddress,
{
    if ticket.addrs.len() == 0 {
        return Err(TicketError::NoRoutableAddress);
    }
    let mut i: usize = 0;
    while i < ticket.addrs.len()
        invariant
            0 <= i <= ticket.addrs@.len(),
            forall|k: int| 0 <= k < i ==> !loopback_text(#[trigger] ticket.addrs@[k]@),
        decreases ticket.addrs@.len() - i,
    {
        if is_loopback_addr(ticket.addrs[i].as_str()) {
            return Err(TicketError::NoRoutableAddress);
        }
        i = i + 1;
    }
    Ok(())
}

/// A built ticket keeps exactly the non-loopback addresses it was given, so
/// it never carries a loopback address and is never empty.
pub proof fn lemma_routable_excludes_loopback(addrs: Seq<Seq<char>>)
    ensures
        forall|i: int| 0 <= i < routable(addrs).len() ==> !loopback_text(#[trigger] routable(addrs)[i]),
        routable(addrs).len() <= addrs.len(),
    decreases addrs.len(),
{
    if addrs.len() > 0 {
        lemma_routable_excludes_loopback(addrs.drop_last());
    }
}

} // verus!
