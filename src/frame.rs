//! Length-prefixed framing: an 8-byte big-endian length, then exactly that
//! many payload bytes. There is no magic number and no version field.

use byteorder::ByteOrder;
use vstd::prelude::*;
use crate::block::{be_bytes, be_u64_bytes};

verus! {

/// Length in bytes of a frame header.
pub const HEADER_LEN: usize = 8;

/// The number whose big-endian bytes are the first eight of `s`.
pub open spec fn be_value(s: Seq<u8>) -> u64 {
    (s[0] as u64) << 56u64 | (s[1] as u64) << 48u64 | (s[2] as u64) << 40u64 | (s[3] as u64) << 32u64
        | (s[4] as u64) << 24u64 | (s[5] as u64) << 16u64 | (s[6] as u64) << 8u64 | (s[7] as u64)
}

/// The frame that carries `payload`.
pub open spec fn frame_of(payload: Seq<u8>) -> Seq<u8> {
    be_bytes(payload.len() as u64) + payload
}

/// What the bytes read for a header say.
#[derive(Debug, PartialEq, Eq, Structural)]
pub enum HeaderStatus {
    /// No byte came: the peer closed the stream.
    Closed,
    /// The stream ended inside the header.
    Malformed,
    /// A full header, announcing this many payload bytes.
    Length(u64),
}

/// Why a byte string does not start with a frame.
#[derive(Debug, Clone, Copy, PartialEq, Eq, Structural)]
pub enum FrameError {
    /// The bytes end inside the header.
    MalformedHeader,
    /// The bytes end before the payload the header announces.
    Truncated,
}

/// What the frame at the start of `bytes` holds: `Ok(None)` when there are
/// no bytes at all, else the payload and the number of bytes the frame takes.
pub open spec fn decode_spec(bytes: Seq<u8>) -> Result<Option<(Seq<u8>, int)>, FrameError> {
    if bytes.len() == 0 {
        Ok(None)
    } else if bytes.len() < 8 {
        Err(FrameError::MalformedHeader)
    } else {
        let n = be_value(bytes);
        if bytes.len() - 8 < n {
            Err(FrameError::Truncated)
        } else {
            Ok(Some((bytes.subrange(8, 8 + n), 8 + n)))
        }
    }
}

/// Reading the bytes of a number back gives the number.
pub proof fn lemma_be_value_of_bytes(n: u64)
    ensures
        be_value(be_bytes(n)) == n,
{
    let s = be_bytes(n);
    assert(s[0] == (n >> 56u64) as u8 && s[1] == (n >> 48u64) as u8 && s[2] == (n >> 40u64) as u8
        && s[3] == (n >> 32u64) as u8 && s[4] == (n >> 24u64) as u8 && s[5] == (n >> 16u64) as u8
        && s[6] == (n >> 8u64) as u8 && s[7] == n as u8);
    assert(((n >> 56u64) as u8 as u64) << 56u64 | ((n >> 48u64) as u8 as u64) << 48u64
        | ((n >> 40u64) as u8 as u64) << 40u64 | ((n >> 32u64) as u8 as u64) << 32u64
        | ((n >> 24u64) as u8 as u64) << 24u64 | ((n >> 16u64) as u8 as u64) << 16u64
        | ((n >> 8u64) as u8 as u64) << 8u64 | (n as u8 as u64) == n) by (bit_vector);
}

/// A frame decodes to the payload it was made from, whatever follows it.
pub proof fn lemma_frame_round_trip(payload: Seq<u8>, rest: Seq<u8>)
    requires
        payload.len() <= u64::MAX,
    ensures
        decode_spec(frame_of(payload) + rest) == Ok::<Option<(Seq<u8>, int)>, FrameError>(
            Some((payload, 8 + payload.len() as int)),
        ),
{
    let bytes = frame_of(payload) + rest;
    lemma_be_value_of_bytes(payload.len() as u64);
    assert(bytes.subrange(0, 8) =~= be_bytes(payload.len() as u64));
    assert(be_value(bytes) == be_value(bytes.subrange(0, 8)));
    assert(bytes.subrange(8, 8 + payload.len() as int) =~= payload);
}

/// Relies on byteorder's `BigEndian::read_u64`: the number whose big-endian
/// bytes are the first eight of `buf`.
#[verifier::external_body]
fn be_u64_read(buf: &[u8]) -> (r: u64)
    requires
        buf@.len() >= 8,
    ensures
        r == be_value(buf@),
{
    byteorder::BigEndian::read_u64(buf)
}

/// The frame that carries `payload`.
pub fn encode_frame(payload: &[u8]) -> (r: Vec<u8>)
    ensures
        r@ == frame_of(payload@),
{
    let header = be_u64_bytes(payload.len() as u64);
    let mut out: Vec<u8> = Vec::new();
    let mut i: usize = 0;
    while i < 8
        invariant
            0 <= i <= 8,
            header@ == be_bytes(payload@.len() as u64),
            out@ == header@.subrange(0, i as int),
        decreases 8 - i,
    {
        out.push(header[i]);
        assert(header@.subrange(0, i + 1) =~= header@.subrange(0, i as int).push(header@[i as int]));
        i = i + 1;
    }
    let mut j: usize = 0;
    while j < payload.len()
        invariant
            0 <= j <= payload@.len(),
            out@ == be_bytes(payload@.len() as u64) + payload@.subrange(0, j as int),
        decreases payload@.len() - j,
    {
        out.push(payload[j]);
        assert(payload@.subrange(0, j + 1) =~= payload@.subrange(0, j as int).push(payload@[j as int]));
        j = j + 1;
    }
    assert(payload@.subrange(0, j as int) =~= payload@);
    out
}

/// Classifies the bytes that one read of a header brought: none means the
/// peer closed the stream, one to seven a malformed frame, eight a length.
pub fn parse_header(received: &[u8]) -> (r: HeaderStatus)
    requires
        received@.len() <= HEADER_LEN,
    ensures
        received@.len() == 0 ==> r == HeaderStatus::Closed,
        0 < received@.len() < HEADER_LEN ==> r == HeaderStatus::Malformed,
        received@.len() == HEADER_LEN ==> r == HeaderStatus::Length(be_value(received@)),
{
    if received.len() == 0 {
        HeaderStatus::Closed
    } else if received.len() < HEADER_LEN {
        HeaderStatus::Malformed
    } else {
        HeaderStatus::Length(be_u64_read(received))
    }
}

/// Decodes the frame at the start of `bytes`: `Ok(None)` when `bytes` is
/// empty, else the payload and the number of bytes the frame takes, or why
/// there is no whole frame.
pub fn decode_frame(bytes: &[u8]) -> (r: Result<Option<(Vec<u8>, usize)>, FrameError>)
    ensures
        match r {
            Ok(None) => decode_spec(bytes@) == Ok::<Option<(Seq<u8>, int)>, FrameError>(None),
            Ok(Some((p, used))) => decode_spec(bytes@) == Ok::<Option<(Seq<u8>, int)>, FrameError>(
                Some((p@, used as int)),
            ),
            Err(e) => decode_spec(bytes@) == Err::<Option<(Seq<u8>, int)>, FrameError>(e),
        },
{
    if bytes.len() == 0 {
        return Ok(None);
    }
    if bytes.len() < HEADER_LEN {
        return Err(FrameError::MalformedHeader);
    }
    let n = be_u64_read(bytes);
    let avail = bytes.len() - HEADER_LEN;
    if (avail as u64) < n {
        return Err(FrameError::Truncated);
    }
    let end = HEADER_LEN + n as usize;
    let mut payload: Vec<u8> = Vec::new();
    let mut i: usize = HEADER_LEN;
    while i < end
        invariant
            HEADER_LEN <= i <= end,
            end == 8 + n,
            end <= bytes@.len(),
            payload@ == bytes@.subrange(8, i as int),
        decreases end - i,
    {
        payload.push(bytes[i]);
        assert(bytes@.subrange(8, i + 1) =~= bytes@.subrange(8, i as int).push(bytes@[i as int]));
        i = i + 1;
    }
    Ok(Some((payload, end)))
}

} // verus!
