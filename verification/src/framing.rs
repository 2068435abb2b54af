use vstd::prelude::*;

verus! {

/// The largest payload that `tokio_util`'s `LengthDelimitedCodec::new()`
/// accepts (its default `max_frame_length`, 8 MiB).
pub const MAX_FRAME_LENGTH: usize = 8388608;

/// Why a frame could not be framed or read.
#[derive(Debug, PartialEq, Eq, Clone, Copy, Structural)]
pub enum FrameError {
    /// The payload, or the length announced by a frame head, is longer than
    /// `MAX_FRAME_LENGTH`.
    TooLong,
}

/// The four-byte big-endian head that announces a payload of `n` bytes.
pub open spec fn length_head(n: nat) -> Seq<u8> {
    seq![
        (n / 0x100_0000 % 0x100) as u8,
        (n / 0x1_0000 % 0x100) as u8,
        (n / 0x100 % 0x100) as u8,
        (n % 0x100) as u8,
    ]
}

/// The length that a four-byte big-endian head announces.
pub open spec fn head_value(head: Seq<u8>) -> nat {
    (head[0] as nat) * 0x100_0000 + (head[1] as nat) * 0x1_0000 + (head[2] as nat) * 0x100
        + (head[3] as nat)
}

/// The bytes of one frame on the wire: the head, then the payload.
pub open spec fn frame_bytes(payload: Seq<u8>) -> Seq<u8> {
    length_head(payload.len()) + payload
}

/// What reading one frame from the front of `buf` gives: an error when the
/// head announces more than the limit, nothing yet while the head or the
/// payload is incomplete, and otherwise the payload and the bytes after it.
pub open spec fn decode_outcome(buf: Seq<u8>) -> Result<Option<(Seq<u8>, Seq<u8>)>, FrameError> {
    if buf.len() < 4 {
        Ok(None)
    } else {
        let n = head_value(buf.subrange(0, 4));
        if n > MAX_FRAME_LENGTH {
            Err(FrameError::TooLong)
        } else if buf.len() < 4 + n {
            Ok(None)
        } else {
            Ok(Some((buf.subrange(4, 4 + n as int), buf.subrange(4 + n as int, buf.len() as int))))
        }
    }
}

/// `tokio_util::codec::LengthDelimitedCodec::new()` and its `Encoder::encode`:
/// a payload of at most `max_frame_length` (8 MiB) bytes is appended to `dst`
/// after a four-byte big-endian head that holds its length; a longer payload
/// is refused with an error and `dst` is left as it was.
#[verifier::external_body]
fn length_delimited_encode(data: Vec<u8>, dst: &mut Vec<u8>) -> (r: Result<(), FrameError>)
    ensures
        data@.len() <= MAX_FRAME_LENGTH ==> r is Ok && final(dst)@ == old(dst)@ + length_head(data@.len()) + data@,
        data@.len() > MAX_FRAME_LENGTH ==> r is Err && final(dst)@ == old(dst)@,
{
    let mut codec = tokio_util::codec::LengthDelimitedCodec::new();
    let mut buf = tokio_util::bytes::BytesMut::from(&dst[..]);
    let data = tokio_util::bytes::Bytes::from(data);
    match tokio_util::codec::Encoder::encode(&mut codec, data, &mut buf) {
        Ok(()) => {
            *dst = buf.to_vec();
            Ok(())
        },
        Err(_) => Err(FrameError::TooLong),
    }
}

/// `tokio_util::codec::LengthDelimitedCodec::new()` and its `Decoder::decode`,
/// run on a copy of `src`: with fewer than four bytes, or with fewer bytes
/// than the head announces, it gives no frame; a head that announces more
/// than 8 MiB is an error; otherwise the payload is split off the front of
/// the buffer. `src` is changed only when a whole frame is returned (the codec
/// that reads the copy is dropped, so no partly read head is kept between
/// calls: the same frames come out of a growing buffer).
#[verifier::external_body]
fn length_delimited_decode(src: &mut Vec<u8>) -> (r: Result<Option<Vec<u8>>, FrameError>)
    ensures
        match decode_outcome(old(src)@) {
            Err(e) => r matches Err(e2) && e2 == e && final(src)@ == old(src)@,
            Ok(None) => r matches Ok(None) && final(src)@ == old(src)@,
            Ok(Some((payload, rest))) => r matches Ok(Some(p)) && p@ == payload && final(src)@
                == rest,
        },
{
    let mut codec = tokio_util::codec::LengthDelimitedCodec::new();
    let mut buf = tokio_util::bytes::BytesMut::from(&src[..]);
    match tokio_util::codec::Decoder::decode(&mut codec, &mut buf) {
        Ok(Some(frame)) => {
            *src = buf.to_vec();
            Ok(Some(frame.to_vec()))
        },
        Ok(None) => Ok(None),
        Err(_) => Err(FrameError::TooLong),
    }
}

/// The codec of the tunnel stream: each encoded frame travels as a payload
/// behind a four-byte big-endian length head.
pub struct TunnelCodec {}

impl TunnelCodec {
    pub fn new() -> (r: TunnelCodec) {
        TunnelCodec {  }
    }

    /// Append the encoded frame `item` to `dst`, behind its length head.
    pub fn encode(&mut self, item: Vec<u8>, dst: &mut Vec<u8>) -> (r: Result<(), FrameError>)
        ensures
            item@.len() <= MAX_FRAME_LENGTH ==> r is Ok && final(dst)@ == old(dst)@ + frame_bytes(item@),
            item@.len() > MAX_FRAME_LENGTH ==> r is Err && final(dst)@ == old(dst)@,
    {
        let ghost item_view = item@;
        let r = length_delimited_encode(item, dst);
        proof {
            if item_view.len() <= MAX_FRAME_LENGTH {
                assert(final(dst)@ =~= old(dst)@ + frame_bytes(item_view));
            }
        }
        r
    }

    /// Take the next encoded frame off the front of `src`, if a whole one is
    /// there.
    pub fn decode(&mut self, src: &mut Vec<u8>) -> (r: Result<Option<Vec<u8>>, FrameError>)
        ensures
            match decode_outcome(old(src)@) {
                Err(e) => r matches Err(e2) && e2 == e && final(src)@ == old(src)@,
                Ok(None) => r matches Ok(None) && final(src)@ == old(src)@,
                Ok(Some((payload, rest))) => r matches Ok(Some(p)) && p@ == payload
                    && final(src)@ == rest,
            },
    {
        length_delimited_decode(src)
    }
}

proof fn lemma_head_round_trip(n: nat)
    requires
        n < 0x1_0000_0000,
    ensures
        head_value(length_head(n)) == n,
        length_head(n).len() == 4,
{
    let h = length_head(n);
    assert(h[0] as nat == n / 0x100_0000 % 0x100);
    assert(h[1] as nat == n / 0x1_0000 % 0x100);
    assert(h[2] as nat == n / 0x100 % 0x100);
    assert(h[3] as nat == n % 0x100);
    assert(head_value(h) == n) by (nonlinear_arith)
        requires
            n < 0x1_0000_0000,
            h[0] as nat == n / 0x100_0000 % 0x100,
            h[1] as nat == n / 0x1_0000 % 0x100,
            h[2] as nat == n / 0x100 % 0x100,
            h[3] as nat == n % 0x100,
            head_value(h) == (h[0] as nat) * 0x100_0000 + (h[1] as nat) * 0x1_0000 + (
            h[2] as nat) * 0x100 + (h[3] as nat),
    {
    }
}

/// Reading a frame from a buffer that starts with the wire bytes of a payload
/// of at most `MAX_FRAME_LENGTH` bytes gives that payload back, and leaves
/// the bytes that followed it.
pub proof fn lemma_decode_encoded(payload: Seq<u8>, rest: Seq<u8>)
    requires
        payload.len() <= MAX_FRAME_LENGTH,
    ensures
        decode_outcome(frame_bytes(payload) + rest) == Ok::<
            Option<(Seq<u8>, Seq<u8>)>,
            FrameError,
        >(Some((payload, rest))),
{
    let buf = frame_bytes(payload) + rest;
    lemma_head_round_trip(payload.len());
    assert(buf.subrange(0, 4) =~= length_head(payload.len()));
    assert(buf.subrange(4, 4 + payload.len() as int) =~= payload);
    assert(buf.subrange(4 + payload.len() as int, buf.len() as int) =~= rest);
}

/// Frames written one after the other are read back one by one, in the order
/// they were written: reading the first frame of the wire bytes of
/// `payloads` gives `payloads[0]` and the wire bytes of the others.
pub proof fn lemma_decode_stream(payloads: Seq<Seq<u8>>)
    requires
        payloads.len() > 0,
        forall|i: int| 0 <= i < payloads.len() ==> (#[trigger] payloads[i]).len() <= MAX_FRAME_LENGTH,
    ensures
        decode_outcome(stream_bytes(payloads)) == Ok::<Option<(Seq<u8>, Seq<u8>)>, FrameError>(
            Some((payloads[0], stream_bytes(payloads.drop_first()))),
        ),
{
    assert(stream_bytes(payloads) == frame_bytes(payloads[0]) + stream_bytes(payloads.drop_first()));
    lemma_decode_encoded(payloads[0], stream_bytes(payloads.drop_first()));
}

/// The wire bytes of a sequence of payloads, framed one after the other.
pub open spec fn stream_bytes(payloads: Seq<Seq<u8>>) -> Seq<u8>
    decreases payloads.len(),
{
    if payloads.len() == 0 {
        Seq::empty()
    } else {
        frame_bytes(payloads[0]) + stream_bytes(payloads.drop_first())
    }
}

/// Framing one more payload appends its frame to the wire bytes: encoding
/// payloads one after the other into an empty buffer gives the wire bytes of
/// the whole sequence.
pub proof fn lemma_encode_stream(payloads: Seq<Seq<u8>>, next: Seq<u8>)
    ensures
        stream_bytes(payloads.push(next)) == stream_bytes(payloads) + frame_bytes(next),
    decreases payloads.len(),
{
    if payloads.len() == 0 {
        assert(payloads.push(next).drop_first() =~= Seq::<Seq<u8>>::empty());
        assert(payloads.push(next)[0] == next);
        assert(stream_bytes(payloads.push(next).drop_first()) =~= Seq::<u8>::empty());
        assert(stream_bytes(payloads.push(next)) =~= frame_bytes(next) + Seq::<u8>::empty());
        assert(stream_bytes(payloads) + frame_bytes(next) =~= frame_bytes(next));
    } else {
        assert(payloads.push(next).drop_first() =~= payloads.drop_first().push(next));
        assert(payloads.push(next)[0] == payloads[0]);
        lemma_encode_stream(payloads.drop_first(), next);
        assert(stream_bytes(payloads.push(next)) =~= frame_bytes(payloads[0]) + (stream_bytes(
            payloads.drop_first(),
        ) + frame_bytes(next)));
    }
}

/// Frames read back from the wire bytes of `n` payloads come out one by one
/// in the order they were written: the `k`-th read gives the `k`-th payload
/// and leaves the frames after it; once all are read, reading gives no frame.
pub proof fn lemma_decode_all(payloads: Seq<Seq<u8>>)
    requires
        forall|i: int| 0 <= i < payloads.len() ==> (#[trigger] payloads[i]).len() <= MAX_FRAME_LENGTH,
    ensures
        forall|k: int|
            0 <= k < payloads.len() ==> decode_outcome(stream_bytes(#[trigger] payloads.skip(k)))
                == Ok::<Option<(Seq<u8>, Seq<u8>)>, FrameError>(
                Some((payloads[k], stream_bytes(payloads.skip(k + 1)))),
            ),
        decode_outcome(stream_bytes(payloads.skip(payloads.len() as int))) == Ok::<
            Option<(Seq<u8>, Seq<u8>)>,
            FrameError,
        >(None),
        stream_bytes(payloads.skip(payloads.len() as int)).len() == 0,
{
    assert forall|k: int| 0 <= k < payloads.len() implies decode_outcome(
        stream_bytes(#[trigger] payloads.skip(k)),
    ) == Ok::<Option<(Seq<u8>, Seq<u8>)>, FrameError>(
        Some((payloads[k], stream_bytes(payloads.skip(k + 1)))),
    ) by {
        let rest = payloads.skip(k);
        assert(rest[0] == payloads[k]);
        assert(rest.drop_first() =~= payloads.skip(k + 1));
        assert forall|i: int| 0 <= i < rest.len() implies (#[trigger] rest[i]).len()
            <= MAX_FRAME_LENGTH by {
            assert(rest[i] == payloads[k + i]);
        }
        lemma_decode_stream(rest);
    }
    assert(payloads.skip(payloads.len() as int) =~= Seq::<Seq<u8>>::empty());
}

/// A strict prefix of a frame's wire bytes gives no frame: nothing is made
/// up from a head or a payload that is not complete; once the missing bytes
/// follow, the frame is read.
pub proof fn lemma_decode_prefix(payload: Seq<u8>, k: int)
    requires
        payload.len() <= MAX_FRAME_LENGTH,
        0 <= k < frame_bytes(payload).len(),
    ensures
        decode_outcome(frame_bytes(payload).take(k)) == Ok::<
            Option<(Seq<u8>, Seq<u8>)>,
            FrameError,
        >(None),
        decode_outcome(frame_bytes(payload).take(k) + frame_bytes(payload).skip(k)) == Ok::<
            Option<(Seq<u8>, Seq<u8>)>,
            FrameError,
        >(Some((payload, Seq::empty()))),
{
    let full = frame_bytes(payload);
    lemma_head_round_trip(payload.len());
    if k >= 4 {
        assert(full.take(k).subrange(0, 4) =~= length_head(payload.len()));
    }
    assert(full.take(k) + full.skip(k) =~= full + Seq::<u8>::empty());
    lemma_decode_encoded(payload, Seq::empty());
}

} // verus!
