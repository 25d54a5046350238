//! Length-prefixed binary framing for messages on a byte stream.
//!
//! A frame is a 4-byte big-endian unsigned length followed by exactly that
//! many payload bytes. Payload bytes are opaque. Both directions refuse any
//! length above a hard ceiling of 64 MiB; a stream that ends mid-frame is a
//! short read.

use vstd::prelude::*;

verus! {

/// Hard ceiling on a frame's payload length: 64 MiB.
pub const MAX_MESSAGE_SIZE: u32 = 64 * 1024 * 1024;

/// Why a frame could not be encoded or decoded.
#[derive(Debug, Clone, Copy, PartialEq, Eq)]
pub enum FramingError {
    /// The payload length exceeds `MAX_MESSAGE_SIZE`.
    TooLarge,
    /// The byte stream ended before a whole frame arrived.
    ShortRead,
}

/// The four big-endian bytes of a payload length.
pub open spec fn spec_len_prefix(n: u32) -> Seq<u8> {
    seq![
        (n / 0x1000000) as u8,
        ((n / 0x10000) % 0x100) as u8,
        ((n / 0x100) % 0x100) as u8,
        (n % 0x100) as u8,
    ]
}

/// The payload length read back from four big-endian bytes.
pub open spec fn spec_len_of(b: Seq<u8>) -> int {
    b[0] * 0x1000000 + b[1] * 0x10000 + b[2] * 0x100 + b[3]
}

/// A whole frame: length prefix, then the payload itself.
pub open spec fn spec_frame(payload: Seq<u8>) -> Seq<u8> {
    spec_len_prefix(payload.len() as u32) + payload
}

/// What decoding the start of `buf` yields: the first frame's payload, or the
/// error. Fewer than 4 bytes, or fewer payload bytes than the prefix
/// announces, is a short read; a length above the ceiling is refused before
/// any payload byte is looked at.
pub open spec fn spec_decode(buf: Seq<u8>) -> Result<Seq<u8>, FramingError> {
    if buf.len() < 4 {
        Err(FramingError::ShortRead)
    } else {
        let n = spec_len_of(buf.subrange(0, 4));
        if n > MAX_MESSAGE_SIZE {
            Err(FramingError::TooLarge)
        } else if buf.len() < 4 + n {
            Err(FramingError::ShortRead)
        } else {
            Ok(buf.subrange(4, 4 + n))
        }
    }
}

proof fn lemma_len_prefix_roundtrip(n: u32)
    ensures
        spec_len_of(spec_len_prefix(n)) == n,
{
    assert(((n / 0x1000000) as u8) * 0x1000000 + (((n / 0x10000) % 0x100) as u8) * 0x10000 + (((n
        / 0x100) % 0x100) as u8) * 0x100 + ((n % 0x100) as u8) == n) by (bit_vector);
}

/// Encode one frame: the payload length as four big-endian bytes, then the
/// payload. Fails, as the decoder would, when the payload is over the ceiling.
pub fn encode_frame(payload: &Vec<u8>) -> (r: Result<Vec<u8>, FramingError>)
    ensures
        payload@.len() <= MAX_MESSAGE_SIZE ==> (r matches Ok(f) && f@ == spec_frame(payload@)),
        payload@.len() > MAX_MESSAGE_SIZE ==> r == Err::<Vec<u8>, FramingError>(
            FramingError::TooLarge,
        ),
{
    if payload.len() > MAX_MESSAGE_SIZE as usize {
        return Err(FramingError::TooLarge);
    }
    let n: u32 = payload.len() as u32;
    let mut frame: Vec<u8> = Vec::new();
    frame.push((n / 0x1000000) as u8);
    frame.push(((n / 0x10000) % 0x100) as u8);
    frame.push(((n / 0x100) % 0x100) as u8);
    frame.push((n % 0x100) as u8);
    assert(frame@ =~= spec_len_prefix(n));
    let mut i: usize = 0;
    while i < payload.len()
        invariant
            i <= payload@.len(),
            frame@ == spec_len_prefix(n) + payload@.subrange(0, i as int),
        decreases payload@.len() - i,
    {
        frame.push(payload[i]);
        assert(frame@ =~= spec_len_prefix(n) + payload@.subrange(0, i + 1));
        i += 1;
    }
    assert(frame@ =~= spec_frame(payload@));
    Ok(frame)
}

/// Read the payload length out of a frame's four header bytes, refusing a
/// length above the ceiling before any payload byte is looked at. This is the
/// header step of `spec_decode`, for a caller that receives the header and
/// the payload from a stream one read at a time.
pub fn frame_len(b0: u8, b1: u8, b2: u8, b3: u8) -> (r: Result<u32, FramingError>)
    ensures
        spec_len_of(seq![b0, b1, b2, b3]) <= MAX_MESSAGE_SIZE ==> r == Ok::<u32, FramingError>(
            spec_len_of(seq![b0, b1, b2, b3]) as u32,
        ),
        spec_len_of(seq![b0, b1, b2, b3]) > MAX_MESSAGE_SIZE ==> r == Err::<u32, FramingError>(
            FramingError::TooLarge,
        ),
{
    let n: u32 = (b0 as u32) * 0x1000000 + (b1 as u32) * 0x10000 + (b2 as u32) * 0x100 + (
    b3 as u32);
    if n > MAX_MESSAGE_SIZE {
        Err(FramingError::TooLarge)
    } else {
        Ok(n)
    }
}

/// A decoded frame: the payload, and how many bytes of the buffer it took.
pub struct DecodedFrame {
    /// The frame's payload bytes.
    pub payload: Vec<u8>,
    /// Bytes consumed from the buffer: 4 for the prefix plus the payload.
    pub consumed: usize,
}

/// Decode the first frame at the start of `buf`. The error cases are exactly
/// those of `spec_decode`; on success the remainder of `buf` is untouched.
pub fn decode_frame(buf: &Vec<u8>) -> (r: Result<DecodedFrame, FramingError>)
    ensures
        match r {
            Ok(d) => spec_decode(buf@) == Ok::<Seq<u8>, FramingError>(d.payload@) && d.consumed == 4
                + d.payload@.len(),
            Err(e) => spec_decode(buf@) == Err::<Seq<u8>, FramingError>(e),
        },
{
    if buf.len() < 4 {
        return Err(FramingError::ShortRead);
    }
    let n: u32 = (buf[0] as u32) * 0x1000000 + (buf[1] as u32) * 0x10000 + (buf[2] as u32) * 0x100
        + (buf[3] as u32);
    assert(n == spec_len_of(buf@.subrange(0, 4)));
    if n > MAX_MESSAGE_SIZE {
        return Err(FramingError::TooLarge);
    }
    if buf.len() - 4 < n as usize {
        return Err(FramingError::ShortRead);
    }
    let mut payload: Vec<u8> = Vec::new();
    let mut i: usize = 0;
    while i < n as usize
        invariant
            i <= n,
            n <= MAX_MESSAGE_SIZE,
            n + 4 <= buf@.len(),
            payload@ == buf@.subrange(4, 4 + i as int),
        decreases n - i,
    {
        payload.push(buf[4 + i]);
        assert(payload@ =~= buf@.subrange(4, 4 + (i + 1)));
        i += 1;
    }
    assert(payload@ =~= buf@.subrange(4, 4 + n as int));
    Ok(DecodedFrame { payload, consumed: 4 + n as usize })
}

/// Framing round-trip: decoding an encoded frame gives the payload back,
/// whatever bytes follow the frame in the buffer. Together with the encoder's
/// and decoder's own contracts this says `recv(send(p)) == p` for every
/// payload up to the 64 MiB ceiling, and that above the ceiling encoding
/// fails and so does decoding any prefix that announces such a length.
pub proof fn lemma_frame_roundtrip(payload: Seq<u8>, rest: Seq<u8>)
    requires
        payload.len() <= MAX_MESSAGE_SIZE,
    ensures
        spec_decode(spec_frame(payload) + rest) == Ok::<Seq<u8>, FramingError>(payload),
{
    let buf = spec_frame(payload) + rest;
    lemma_len_prefix_roundtrip(payload.len() as u32);
    assert(buf.subrange(0, 4) =~= spec_len_prefix(payload.len() as u32));
    assert(spec_len_of(buf.subrange(0, 4)) == payload.len());
    assert(buf.subrange(4, 4 + payload.len() as int) =~= payload);
}

} // verus!
