//! Framing of serialized messages on a byte stream.
//!
//! A frame is the length of the payload as four bytes, most significant
//! first, followed by the payload. A stream is frames one after another
//! with nothing between them.

use vstd::prelude::*;
use vstd::slice::slice_subrange;

verus! {

/// Number of bytes of the length prefix.
pub const HEADER_LEN: usize = 4;

/// Largest payload that is framed or accepted, in bytes (16 MiB). A longer
/// declared length is taken for a corrupted stream rather than waited for.
pub const MAX_PAYLOAD_LEN: usize = 16777216;

/// Why a payload was not framed, or a buffer not decoded.
#[derive(Debug, PartialEq, Eq, Clone, Copy, Structural)]
pub enum CodecError {
    /// The payload, or the length that a frame declares, exceeds [`MAX_PAYLOAD_LEN`].
    FrameTooLarge,
}

/// The four bytes that stand for `len`, most significant first.
pub open spec fn length_prefix(len: nat) -> Seq<u8> {
    seq![
        (len / 16777216 % 256) as u8,
        (len / 65536 % 256) as u8,
        (len / 256 % 256) as u8,
        (len % 256) as u8,
    ]
}

/// The length that the first four bytes of `buf` declare.
pub open spec fn declared_len(buf: Seq<u8>) -> nat
    recommends
        buf.len() >= 4,
{
    (buf[0] as nat) * 16777216 + (buf[1] as nat) * 65536 + (buf[2] as nat) * 256 + (buf[3] as nat)
}

/// The frame of `payload`.
pub open spec fn frame(payload: Seq<u8>) -> Seq<u8> {
    length_prefix(payload.len()) + payload
}

/// What decoding the front of `buf` yields: `Ok(None)` while the frame is
/// incomplete, the payload and the number of bytes it took once it is
/// complete, an error when the declared length is beyond the limit.
pub open spec fn decode(buf: Seq<u8>) -> Result<Option<(Seq<u8>, nat)>, CodecError> {
    if buf.len() < 4 {
        Ok(None)
    } else if declared_len(buf) > MAX_PAYLOAD_LEN {
        Err(CodecError::FrameTooLarge)
    } else if buf.len() < 4 + declared_len(buf) {
        Ok(None)
    } else {
        Ok(Some((buf.subrange(4, 4 + declared_len(buf) as int), 4 + declared_len(buf))))
    }
}

/// Frames one serialized message: its length in four bytes, most significant
/// first, then the message itself. A message longer than [`MAX_PAYLOAD_LEN`]
/// is refused.
pub fn encode_message(payload: &[u8]) -> (framed: Result<Vec<u8>, CodecError>)
    ensures
        payload@.len() <= MAX_PAYLOAD_LEN ==> framed is Ok && framed->Ok_0@ == frame(payload@),
        payload@.len() > MAX_PAYLOAD_LEN ==> framed == Err::<Vec<u8>, CodecError>(
            CodecError::FrameTooLarge,
        ),
{
    let len = payload.len();
    if len > MAX_PAYLOAD_LEN {
        return Err(CodecError::FrameTooLarge);
    }
    let mut buf: Vec<u8> = Vec::with_capacity(HEADER_LEN + len);
    buf.push((len / 16777216 % 256) as u8);
    buf.push((len / 65536 % 256) as u8);
    buf.push((len / 256 % 256) as u8);
    buf.push((len % 256) as u8);
    assert(buf@ =~= length_prefix(len as nat));
    buf.extend_from_slice(payload);
    Ok(buf)
}

/// Takes one frame from the front of `buf`.
///
/// Returns `Ok(None)` while `buf` holds less than a whole frame: nothing is
/// consumed and the caller keeps buffering. Returns the payload and the
/// number of bytes that the frame took once it is whole; what follows it in
/// `buf` is left for the next call. A declared length beyond
/// [`MAX_PAYLOAD_LEN`] is an error as soon as the prefix is there.
pub fn decode_message(buf: &[u8]) -> (decoded: Result<Option<(&[u8], usize)>, CodecError>)
    ensures
        match decoded {
            Ok(Some((payload, consumed))) => decode(buf@) == Ok::<_, CodecError>(
                Some((payload@, consumed as nat)),
            ),
            Ok(None) => decode(buf@) == Ok::<Option<(Seq<u8>, nat)>, CodecError>(None),
            Err(e) => decode(buf@) == Err::<Option<(Seq<u8>, nat)>, CodecError>(e),
        },
{
    if buf.len() < HEADER_LEN {
        return Ok(None);
    }
    let high: u32 = buf[0] as u32 * 16777216 + buf[1] as u32 * 65536;
    let low: u32 = buf[2] as u32 * 256 + buf[3] as u32;
    let len: usize = (high + low) as usize;
    if len > MAX_PAYLOAD_LEN {
        return Err(CodecError::FrameTooLarge);
    }
    if buf.len() < HEADER_LEN + len {
        return Ok(None);
    }
    Ok(Some((slice_subrange(buf, HEADER_LEN, HEADER_LEN + len), HEADER_LEN + len)))
}

/// The length prefix is four bytes that declare the length they were made from.
pub proof fn lemma_length_prefix(len: nat)
    requires
        len < 4294967296,
    ensures
        length_prefix(len).len() == 4,
        declared_len(length_prefix(len)) == len,
{
}

/// Decoding a buffer that begins with the frame of a payload yields that
/// payload and consumes exactly the frame; what followed the frame is what
/// is left once the consumed bytes are dropped.
pub proof fn lemma_decode_leading_frame(payload: Seq<u8>, rest: Seq<u8>)
    requires
        payload.len() <= MAX_PAYLOAD_LEN,
    ensures
        frame(payload).len() == 4 + payload.len(),
        decode(frame(payload) + rest) == Ok::<_, CodecError>(
            Some((payload, frame(payload).len())),
        ),
        (frame(payload) + rest).skip(frame(payload).len() as int) == rest,
{
    lemma_length_prefix(payload.len());
    let whole = frame(payload) + rest;
    assert(declared_len(whole) == declared_len(length_prefix(payload.len())));
    assert(whole.subrange(4, 4 + payload.len() as int) =~= payload);
    assert(whole.skip(frame(payload).len() as int) =~= rest);
}

/// Framing round trip: decoding the frame of a payload yields that payload
/// and consumes the whole frame.
pub proof fn lemma_decode_frame(payload: Seq<u8>)
    requires
        payload.len() <= MAX_PAYLOAD_LEN,
    ensures
        decode(frame(payload)) == Ok::<_, CodecError>(Some((payload, frame(payload).len()))),
{
    lemma_decode_leading_frame(payload, Seq::<u8>::empty());
    assert(frame(payload) + Seq::<u8>::empty() =~= frame(payload));
}

/// Partial-buffer safety: every proper prefix of a frame decodes to
/// "need more data", with nothing consumed.
pub proof fn lemma_decode_partial(payload: Seq<u8>, k: int)
    requires
        payload.len() <= MAX_PAYLOAD_LEN,
        0 <= k < frame(payload).len(),
    ensures
        decode(frame(payload).take(k)) == Ok::<Option<(Seq<u8>, nat)>, CodecError>(None),
{
    lemma_length_prefix(payload.len());
    let part = frame(payload).take(k);
    if k >= 4 {
        assert(declared_len(part) == declared_len(length_prefix(payload.len())));
    }
}

/// Draining: decoding two frames that arrived back to back yields the first
/// payload, and decoding what is left after dropping the bytes it consumed
/// yields the second; each consumes exactly its own frame.
pub proof fn lemma_decode_two_frames(first: Seq<u8>, second: Seq<u8>)
    requires
        first.len() <= MAX_PAYLOAD_LEN,
        second.len() <= MAX_PAYLOAD_LEN,
    ensures
        decode(frame(first) + frame(second)) == Ok::<_, CodecError>(
            Some((first, frame(first).len())),
        ),
        decode((frame(first) + frame(second)).skip(frame(first).len() as int)) == Ok::<
            _,
            CodecError,
        >(Some((second, frame(second).len()))),
{
    lemma_decode_leading_frame(first, frame(second));
    lemma_decode_frame(second);
}

} // verus!
