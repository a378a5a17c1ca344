//! Length-prefixed frames: `length: u32 (big-endian) || payload`.

use vstd::prelude::*;

verus! {

/// The four big-endian bytes of `n`.
pub open spec fn be32_bytes(n: u32) -> Seq<u8> {
    seq![(n >> 24u32) as u8, (n >> 16u32) as u8, (n >> 8u32) as u8, n as u8]
}

/// The number that four big-endian bytes stand for.
pub open spec fn be32_value(b0: u8, b1: u8, b2: u8, b3: u8) -> u32 {
    ((b0 as u32) << 24u32) | ((b1 as u32) << 16u32) | ((b2 as u32) << 8u32) | (b3 as u32)
}

/// The declared payload length at the front of `buf` (which holds at least 4 bytes).
pub open spec fn declared_len(buf: Seq<u8>) -> int {
    be32_value(buf[0], buf[1], buf[2], buf[3]) as int
}

/// The frame that carries `payload`.
pub open spec fn frame_of(payload: Seq<u8>) -> Seq<u8> {
    be32_bytes(payload.len() as u32) + payload
}

/// Whether `buf` starts with a whole frame.
pub open spec fn frame_ready(buf: Seq<u8>) -> bool {
    buf.len() >= 4 && buf.len() - 4 >= declared_len(buf)
}

/// Why framing failed.
#[derive(Debug, Clone, Copy, PartialEq, Eq, Structural)]
pub enum FrameError {
    /// The payload does not fit a 32-bit length.
    TooLarge,
    /// The stream ended inside a payload whose length had been announced.
    Truncated,
}

proof fn lemma_be32_round_trip(n: u32)
    ensures
        be32_value((n >> 24u32) as u8, (n >> 16u32) as u8, (n >> 8u32) as u8, n as u8) == n,
{
    assert(((((n >> 24u32) as u8) as u32) << 24u32) | ((((n >> 16u32) as u8) as u32) << 16u32)
        | ((((n >> 8u32) as u8) as u32) << 8u32) | ((n as u8) as u32) == n) by (bit_vector);
}

/// Reads a big-endian length prefix.
pub fn read_be32(b0: u8, b1: u8, b2: u8, b3: u8) -> (r: u32)
    ensures
        r == be32_value(b0, b1, b2, b3),
{
    ((b0 as u32) << 24u32) | ((b1 as u32) << 16u32) | ((b2 as u32) << 8u32) | (b3 as u32)
}

/// Frames one encoded message: its length as four big-endian bytes, then the bytes.
pub fn encode_frame(payload: &Vec<u8>) -> (r: Result<Vec<u8>, FrameError>)
    ensures
        r is Err <==> payload@.len() > u32::MAX,
        r is Err ==> r->Err_0 == FrameError::TooLarge,
        r is Ok ==> r->Ok_0@ == frame_of(payload@),
{
    if payload.len() > 0xffff_ffffusize {
        return Err(FrameError::TooLarge);
    }
    let n = payload.len() as u32;
    let mut out: Vec<u8> = Vec::new();
    out.push(#[verifier::truncate] ((n >> 24u32) as u8));
    out.push(#[verifier::truncate] ((n >> 16u32) as u8));
    out.push(#[verifier::truncate] ((n >> 8u32) as u8));
    out.push(#[verifier::truncate] (n as u8));
    let mut i: usize = 0;
    while i < payload.len()
        invariant
            0 <= i <= payload@.len(),
            out@ == be32_bytes(n) + payload@.subrange(0, i as int),
        decreases payload@.len() - i,
    {
        out.push(payload[i]);
        i = i + 1;
        proof {
            assert(payload@.subrange(0, i as int) =~= payload@.subrange(0, i - 1) + seq![payload@[i - 1]]);
        }
    }
    proof {
        assert(payload@.subrange(0, payload@.len() as int) =~= payload@);
    }
    Ok(out)
}

/// Splits an incoming byte stream into frame payloads.
///
/// Bytes are pushed as they arrive; whole frames are taken from the front.
pub struct FrameDecoder {
    buf: Vec<u8>,
}

impl View for FrameDecoder {
    type V = Seq<u8>;

    /// The bytes received and not yet taken as frames.
    closed spec fn view(&self) -> Seq<u8> {
        self.buf@
    }
}

impl FrameDecoder {
    /// A decoder that has received nothing.
    pub fn new() -> (r: FrameDecoder)
        ensures
            r@ == Seq::<u8>::empty(),
    {
        FrameDecoder { buf: Vec::new() }
    }

    /// Appends bytes read from the stream.
    pub fn push(&mut self, bytes: Vec<u8>)
        ensures
            final(self)@ == old(self)@ + bytes@,
    {
        let mut bytes = bytes;
        self.buf.append(&mut bytes);
    }

    /// Takes the next whole frame's payload, if one has fully arrived.
    pub fn next_frame(&mut self) -> (r: Option<Vec<u8>>)
        ensures
            r is Some <==> frame_ready(old(self)@),
            r is Some ==> {
                let n = declared_len(old(self)@);
                &&& r->Some_0@ == old(self)@.subrange(4, 4 + n)
                &&& final(self)@ == old(self)@.subrange(4 + n, old(self)@.len() as int)
            },
            r is None ==> final(self)@ == old(self)@,
    {
        if self.buf.len() < 4 {
            return None;
        }
        let n = read_be32(self.buf[0], self.buf[1], self.buf[2], self.buf[3]);
        if self.buf.len() - 4 < n as usize {
            return None;
        }
        let end = 4 + n as usize;
        let rest = self.buf.split_off(end);
        let payload = self.buf.split_off(4);
        self.buf = rest;
        Some(payload)
    }

    /// Judges how the stream ended, once no whole frame is left.
    ///
    /// Ending before a full length prefix is a clean close; ending after one
    /// but before its payload is complete is a truncated message.
    pub fn finish(&self) -> (r: Result<(), FrameError>)
        ensures
            r is Ok <==> self@.len() < 4,
            r is Err ==> r->Err_0 == FrameError::Truncated,
    {
        if self.buf.len() < 4 {
            Ok(())
        } else {
            Err(FrameError::Truncated)
        }
    }
}

/// Decoding a frame gives back the payload it was made from, and leaves
/// whatever followed it untouched.
pub proof fn lemma_frame_round_trip(payload: Seq<u8>, rest: Seq<u8>)
    requires
        payload.len() <= u32::MAX,
    ensures
        frame_ready(frame_of(payload) + rest),
        declared_len(frame_of(payload) + rest) == payload.len(),
        (frame_of(payload) + rest).subrange(4, 4 + payload.len() as int) == payload,
        (frame_of(payload) + rest).subrange(4 + payload.len() as int, (frame_of(payload) + rest).len() as int)
            == rest,
{
    let n = payload.len() as u32;
    let all = frame_of(payload) + rest;
    lemma_be32_round_trip(n);
    assert(all[0] == (n >> 24u32) as u8);
    assert(all[1] == (n >> 16u32) as u8);
    assert(all[2] == (n >> 8u32) as u8);
    assert(all[3] == n as u8);
    assert(all.subrange(4, 4 + payload.len() as int) =~= payload);
    assert(all.subrange(4 + payload.len() as int, all.len() as int) =~= rest);
}

} // verus!
