//! Length-prefixed framing of the peer protocol.
//!
//! A frame is a header of four bytes, the payload's length as a big-endian
//! unsigned number, followed by exactly that many payload bytes. A stream is a
//! run of frames with nothing between them.

use vstd::prelude::*;
use vstd::slice::{slice_subrange, slice_to_vec};
use crate::message::ErrorKind;

verus! {

/// Number of bytes in a frame header.
pub const HEADER_LEN: usize = 4;

/// Largest payload length that a header can announce.
pub const MAX_PAYLOAD: u64 = 0xffff_ffff;

/// The header that announces a payload of `len` bytes.
pub open spec fn header_of(len: nat) -> Seq<u8> {
    seq![
        ((len / 0x100_0000) % 0x100) as u8,
        ((len / 0x1_0000) % 0x100) as u8,
        ((len / 0x100) % 0x100) as u8,
        (len % 0x100) as u8,
    ]
}

/// The payload length that the first four bytes of `bytes` announce.
pub open spec fn announced(bytes: Seq<u8>) -> nat
    recommends
        bytes.len() >= 4,
{
    (bytes[0] as nat) * 0x100_0000 + (bytes[1] as nat) * 0x1_0000 + (bytes[2] as nat) * 0x100
        + (bytes[3] as nat)
}

/// The frame that carries `payload`.
pub open spec fn frame_of(payload: Seq<u8>) -> Seq<u8> {
    header_of(payload.len()) + payload
}

/// What stands at the front of a stream's unread bytes.
pub enum Front {
    /// Fewer bytes than the next frame needs: more must arrive.
    Incomplete,
    /// The header announces more than the reader accepts.
    Oversized,
    /// A whole frame with this payload.
    Whole { payload: Seq<u8> },
}

/// Classifies the front of `bytes` for a reader that accepts payloads of up to
/// `limit` bytes.
pub open spec fn front(bytes: Seq<u8>, limit: nat) -> Front {
    if bytes.len() < 4 {
        Front::Incomplete
    } else if announced(bytes) > limit {
        Front::Oversized
    } else if bytes.len() < 4 + announced(bytes) {
        Front::Incomplete
    } else {
        Front::Whole { payload: bytes.subrange(4, 4 + announced(bytes) as int) }
    }
}

/// A header announces the length it was made from.
pub proof fn lemma_header_round_trip(len: nat)
    requires
        len <= MAX_PAYLOAD,
    ensures
        header_of(len).len() == 4,
        announced(header_of(len)) == len,
{
}

/// The header made from an announced length is the four bytes that announced it.
pub proof fn lemma_announced_round_trip(bytes: Seq<u8>)
    requires
        bytes.len() >= 4,
    ensures
        header_of(announced(bytes)) == bytes.subrange(0, 4),
{
    let b0 = bytes[0] as int;
    let b1 = bytes[1] as int;
    let b2 = bytes[2] as int;
    let b3 = bytes[3] as int;
    let n = b0 * 0x100_0000 + b1 * 0x1_0000 + b2 * 0x100 + b3;
    assert(n % 0x100 == b3);
    assert(n / 0x100 == b0 * 0x1_0000 + b1 * 0x100 + b2);
    assert((n / 0x100) % 0x100 == b2);
    assert(n / 0x1_0000 == b0 * 0x100 + b1);
    assert((n / 0x1_0000) % 0x100 == b1);
    assert(n / 0x100_0000 == b0);
    assert(header_of(announced(bytes)) =~= bytes.subrange(0, 4));
}

/// A stream that starts with the frame of `payload` has that payload at its
/// front, whatever follows, and the rest of the stream comes after it.
pub proof fn lemma_front_of_frame(payload: Seq<u8>, rest: Seq<u8>, limit: nat)
    requires
        payload.len() <= MAX_PAYLOAD,
        payload.len() <= limit,
    ensures
        front(frame_of(payload) + rest, limit) == (Front::Whole { payload }),
        (frame_of(payload) + rest).skip(4 + payload.len() as int) == rest,
{
    let stream = frame_of(payload) + rest;
    lemma_header_round_trip(payload.len());
    assert(stream[0] == header_of(payload.len())[0]);
    assert(stream[1] == header_of(payload.len())[1]);
    assert(stream[2] == header_of(payload.len())[2]);
    assert(stream[3] == header_of(payload.len())[3]);
    assert(announced(stream) == payload.len());
    assert(stream.subrange(4, 4 + payload.len() as int) =~= payload);
    assert(stream.skip(4 + payload.len() as int) =~= rest);
}

/// Reads the length that a header announces.
fn read_header(bytes: &[u8]) -> (len: u64)
    requires
        bytes@.len() >= 4,
    ensures
        len == announced(bytes@),
        len <= MAX_PAYLOAD,
{
    let b0: u64 = bytes[0] as u64;
    let b1: u64 = bytes[1] as u64;
    let b2: u64 = bytes[2] as u64;
    let b3: u64 = bytes[3] as u64;
    b0 * 0x100_0000 + b1 * 0x1_0000 + b2 * 0x100 + b3
}

/// Wraps `payload` in a frame.
///
/// Fails with [`ErrorKind::Framing`] exactly when the payload is longer than a
/// header can announce.
pub fn encode_frame(payload: &[u8]) -> (frame: Result<Vec<u8>, ErrorKind>)
    ensures
        frame is Ok <==> payload@.len() <= MAX_PAYLOAD,
        frame matches Ok(bytes) ==> bytes@ == frame_of(payload@),
        frame matches Err(kind) ==> kind == ErrorKind::Framing,
{
    let len: usize = payload.len();
    if len as u64 > MAX_PAYLOAD {
        return Err(ErrorKind::Framing);
    }
    let n: u64 = len as u64;
    let mut bytes: Vec<u8> = Vec::new();
    bytes.push(((n / 0x100_0000) % 0x100) as u8);
    bytes.push(((n / 0x1_0000) % 0x100) as u8);
    bytes.push(((n / 0x100) % 0x100) as u8);
    bytes.push((n % 0x100) as u8);
    assert(bytes@ == header_of(payload@.len()));
    let mut body: Vec<u8> = slice_to_vec(payload);
    bytes.append(&mut body);
    Ok(bytes)
}

/// Unwraps a buffer that holds exactly one frame.
///
/// Succeeds exactly when `bytes` is the frame of some payload, and then returns
/// that payload; a short header, missing payload bytes and trailing bytes all
/// fail with [`ErrorKind::Framing`].
pub fn decode_frame(bytes: &[u8]) -> (payload: Result<Vec<u8>, ErrorKind>)
    ensures
        payload is Ok <==> bytes@.len() >= 4 && bytes@.len() == 4 + announced(bytes@),
        payload matches Ok(body) ==> bytes@ == frame_of(body@),
        payload matches Err(kind) ==> kind == ErrorKind::Framing,
{
    if bytes.len() < HEADER_LEN {
        return Err(ErrorKind::Framing);
    }
    let len: u64 = read_header(bytes);
    if (bytes.len() - HEADER_LEN) as u64 != len {
        return Err(ErrorKind::Framing);
    }
    let body = slice_to_vec(slice_subrange(bytes, HEADER_LEN, bytes.len()));
    proof {
        lemma_announced_round_trip(bytes@);
        assert(bytes@ =~= bytes@.subrange(0, 4) + body@);
    }
    Ok(body)
}

/// The read side of one connection: the bytes that arrived and were not yet
/// taken out as frames.
pub struct FrameReader {
    pending: Vec<u8>,
    limit: usize,
}

impl FrameReader {
    /// The bytes received and not yet consumed.
    pub closed spec fn pending(&self) -> Seq<u8> {
        self.pending@
    }

    /// The longest payload this reader accepts.
    pub closed spec fn limit(&self) -> nat {
        self.limit as nat
    }

    /// A reader with nothing received, accepting payloads of up to `limit` bytes.
    pub fn new(limit: usize) -> (reader: FrameReader)
        ensures
            reader.pending() == Seq::<u8>::empty(),
            reader.limit() == limit,
    {
        FrameReader { pending: Vec::new(), limit }
    }

    /// Takes in bytes that arrived on the connection.
    pub fn push(&mut self, bytes: &[u8])
        ensures
            final(self).pending() == old(self).pending() + bytes@,
            final(self).limit() == old(self).limit(),
    {
        let mut chunk: Vec<u8> = slice_to_vec(bytes);
        self.pending.append(&mut chunk);
    }

    /// Takes the next frame out, if a whole one has arrived.
    ///
    /// Returns the payload and consumes the frame when one stands at the front;
    /// returns `None` and leaves the bytes alone when more must arrive; fails
    /// with [`ErrorKind::Framing`], leaving the bytes alone, when the header
    /// announces more than the limit.
    pub fn next_frame(&mut self) -> (next: Result<Option<Vec<u8>>, ErrorKind>)
        ensures
            final(self).limit() == old(self).limit(),
            match front(old(self).pending(), old(self).limit()) {
                Front::Incomplete => next matches Ok(None) && final(self).pending() == old(
                    self,
                ).pending(),
                Front::Oversized => next == Err::<Option<Vec<u8>>, ErrorKind>(ErrorKind::Framing)
                    && final(self).pending() == old(self).pending(),
                Front::Whole { payload } => next matches Ok(Some(body)) && body@ == payload
                    && final(self).pending() == old(self).pending().skip(4 + payload.len() as int),
            },
    {
        if self.pending.len() < HEADER_LEN {
            return Ok(None);
        }
        let len: u64 = read_header(self.pending.as_slice());
        if len > self.limit as u64 {
            return Err(ErrorKind::Framing);
        }
        let ghost before = self.pending@;
        let len: usize = len as usize;
        if self.pending.len() - HEADER_LEN < len {
            return Ok(None);
        }
        let rest = self.pending.split_off(HEADER_LEN + len);
        let body = slice_to_vec(slice_subrange(self.pending.as_slice(), HEADER_LEN, HEADER_LEN + len));
        self.pending = rest;
        proof {
            assert(body@ =~= before.subrange(4, 4 + len));
            assert(self.pending@ =~= before.skip(4 + len));
        }
        Ok(Some(body))
    }

    /// Whether nothing is pending, so that the stream may end here without
    /// cutting a frame short.
    pub fn is_idle(&self) -> (idle: bool)
        ensures
            idle <==> self.pending().len() == 0,
    {
        self.pending.len() == 0
    }
}

} // verus!
