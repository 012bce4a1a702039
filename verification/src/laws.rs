use vstd::prelude::*;

use crate::FLAG_MASK;
use crate::FOOT_BYTE;
use crate::HEAD_BYTE;
use crate::PACKET_SIZE;
use crate::SBusPacket;
use crate::channel_spec;
use crate::completes;
use crate::decode_result;
use crate::decodes_to;
use crate::drain_seek;
use crate::finds_sync;
use crate::first_header;
use crate::ingest_frame;
use crate::ingest_partial;
use crate::ingest_rest;
use crate::lemma_first_header;
use crate::lemma_first_header_at;
use crate::payload_bit;
use crate::payload_of;
use crate::valid_frame_spec;

verus! {

broadcast use vstd::array::group_array_axioms;

/// A single bit of the payload bit stream is 0 or 1.
pub proof fn lemma_payload_bit_le(p: Seq<u8>, k: int)
    ensures
        payload_bit(p, k) <= 1,
{
    let b = p[k / 8];
    let sh = (k % 8) as u8;
    assert((b >> sh) & 1 <= 1) by (bit_vector);
}

/// Every channel is an 11-bit quantity: its value lies in 0 ..= 2047.
pub proof fn lemma_channel_range(p: Seq<u8>, i: int)
    ensures
        0 <= channel_spec(p, i) <= 2047,
{
    reveal(channel_spec);
    lemma_payload_bit_le(p, 11 * i);
    lemma_payload_bit_le(p, 11 * i + 1);
    lemma_payload_bit_le(p, 11 * i + 2);
    lemma_payload_bit_le(p, 11 * i + 3);
    lemma_payload_bit_le(p, 11 * i + 4);
    lemma_payload_bit_le(p, 11 * i + 5);
    lemma_payload_bit_le(p, 11 * i + 6);
    lemma_payload_bit_le(p, 11 * i + 7);
    lemma_payload_bit_le(p, 11 * i + 8);
    lemma_payload_bit_le(p, 11 * i + 9);
    lemma_payload_bit_le(p, 11 * i + 10);
}

/// A frame decodes the same way every time: the decode attempt is a pure
/// function of the frame bytes, so any two packets decoded from them are one
/// and the same.
pub proof fn lemma_decode_deterministic(frame: Seq<u8>, p1: SBusPacket, p2: SBusPacket)
    requires
        decodes_to(p1, frame),
        decodes_to(p2, frame),
    ensures
        p1 == p2,
{
    assert forall|i: int| 0 <= i < 16 implies p1.channels[i] == p2.channels[i] by {
        assert(p1.channels@[i] == channel_spec(payload_of(frame), i));
        assert(p2.channels@[i] == channel_spec(payload_of(frame), i));
    }
    assert(p1.channels =~= p2.channels);
}

/// Feeding one frame split at an arbitrary point over two calls accumulates
/// and completes exactly the frame that feeding it whole does, so both runs
/// hand the decoder the same bytes.
pub proof fn lemma_split_feed(got: Seq<u8>, frame: Seq<u8>, k: int)
    requires
        frame.len() == PACKET_SIZE,
        frame[0] == HEAD_BYTE,
        1 <= k < PACKET_SIZE,
    ensures
        completes(true, got, frame),
        ingest_frame(true, got, frame) == frame,
        ingest_rest(true, got, frame) == Seq::<u8>::empty(),
        finds_sync(true, frame.take(k)),
        !completes(true, got, frame.take(k)),
        ingest_partial(true, got, frame.take(k)) == frame.take(k),
        completes(false, frame.take(k), frame.skip(k)),
        ingest_frame(false, frame.take(k), frame.skip(k)) == frame,
        ingest_rest(false, frame.take(k), frame.skip(k)) == Seq::<u8>::empty(),
{
    lemma_sync_on_header(got, frame);
    assert(frame.take(PACKET_SIZE as int) =~= frame);
    assert(frame.skip(PACKET_SIZE as int) =~= Seq::<u8>::empty());
    let s1 = frame.take(k);
    lemma_sync_on_header(got, s1);
    assert(s1[0] == HEAD_BYTE);
    assert(ingest_partial(true, got, s1) == s1);
    assert(s1 + frame.skip(k).take(PACKET_SIZE - k) =~= frame);
    assert(frame.skip(k).skip(PACKET_SIZE - k) =~= Seq::<u8>::empty());
}

/// While a frame is still filling, feeding bytes that do not yet complete it
/// only appends them, and whatever is fed afterwards behaves as if the two
/// chunks had arrived as one: splitting a stream further never changes what
/// accumulates, what completes, or what is left over.
pub proof fn lemma_accumulate_step(got: Seq<u8>, s1: Seq<u8>, s2: Seq<u8>)
    requires
        got.len() + s1.len() < PACKET_SIZE,
    ensures
        !completes(false, got, s1),
        ingest_partial(false, got, s1) == got + s1,
        completes(false, got + s1, s2) == completes(false, got, s1 + s2),
        completes(false, got, s1 + s2) ==> ingest_frame(false, got + s1, s2) == ingest_frame(
            false,
            got,
            s1 + s2,
        ),
        completes(false, got, s1 + s2) ==> ingest_rest(false, got + s1, s2) == ingest_rest(
            false,
            got,
            s1 + s2,
        ),
        !completes(false, got, s1 + s2) ==> ingest_partial(false, got + s1, s2) == ingest_partial(
            false,
            got,
            s1 + s2,
        ),
{
    if completes(false, got, s1 + s2) {
        assert((got + s1) + s2.take(PACKET_SIZE - got.len() - s1.len()) =~= got + (s1 + s2).take(
            PACKET_SIZE - got.len(),
        ));
        assert(s2.skip(PACKET_SIZE - got.len() - s1.len()) =~= (s1 + s2).skip(
            PACKET_SIZE - got.len(),
        ));
    } else {
        assert((got + s1) + s2 =~= got + (s1 + s2));
    }
}

/// Garbage bytes that hold no header byte, placed in front of the input of a
/// seeking parser, change nothing: the parser synchronizes on the same
/// header, accumulates the same frame, and leaves the same suffix.
pub proof fn lemma_garbage_prefix(got: Seq<u8>, g: Seq<u8>, s: Seq<u8>)
    requires
        forall|k: int| 0 <= k < g.len() ==> g[k] != HEAD_BYTE,
    ensures
        finds_sync(true, g + s) == finds_sync(true, s),
        completes(true, got, g + s) == completes(true, got, s),
        completes(true, got, s) ==> ingest_frame(true, got, g + s) == ingest_frame(true, got, s),
        completes(true, got, s) ==> ingest_rest(true, got, g + s) == ingest_rest(true, got, s),
        finds_sync(true, s) && !completes(true, got, s) ==> ingest_partial(true, got, g + s)
            == ingest_partial(true, got, s),
{
    lemma_first_header(s);
    let j = g.len() + first_header(s);
    assert forall|k: int| 0 <= k < j implies (g + s)[k] != HEAD_BYTE by {
        if k >= g.len() {
            assert((g + s)[k] == s[k - g.len()]);
        }
    }
    if first_header(s) < s.len() {
        assert((g + s)[j] == s[first_header(s)]);
    }
    lemma_first_header_at(g + s, j);
    if first_header(s) < s.len() {
        assert((g + s).skip(j + 1) =~= s.skip(first_header(s) + 1));
    }
}

/// A chunk that begins with a header byte synchronizes at once: the frame is
/// its first 25 bytes (when that many arrived), everything after them is
/// handed back, and a shorter chunk is accumulated whole.
pub proof fn lemma_sync_on_header(got: Seq<u8>, s: Seq<u8>)
    requires
        s.len() >= 1,
        s[0] == HEAD_BYTE,
    ensures
        finds_sync(true, s),
        completes(true, got, s) == (s.len() >= PACKET_SIZE),
        s.len() >= PACKET_SIZE ==> ingest_frame(true, got, s) == s.take(PACKET_SIZE as int),
        s.len() >= PACKET_SIZE ==> ingest_rest(true, got, s) == s.skip(PACKET_SIZE as int),
        s.len() < PACKET_SIZE ==> ingest_partial(true, got, s) == s,
{
    lemma_first_header_at(s, 0);
    if s.len() >= PACKET_SIZE {
        assert(seq![HEAD_BYTE] + s.skip(1).take(PACKET_SIZE - 1) =~= s.take(PACKET_SIZE as int));
        assert(s.skip(1).skip(PACKET_SIZE - 1) =~= s.skip(PACKET_SIZE as int));
    } else {
        assert(seq![HEAD_BYTE] + s.skip(1) =~= s);
    }
}

/// Two valid frames laid back to back in one chunk complete one after the
/// other: the first call completes exactly the first frame and hands back
/// exactly the second, which the next call then completes in turn.
pub proof fn lemma_two_frames(got: Seq<u8>, f1: Seq<u8>, f2: Seq<u8>)
    requires
        f1.len() == PACKET_SIZE,
        f1[0] == HEAD_BYTE,
        f2.len() == PACKET_SIZE,
        f2[0] == HEAD_BYTE,
    ensures
        completes(true, got, f1 + f2),
        ingest_frame(true, got, f1 + f2) == f1,
        ingest_rest(true, got, f1 + f2) == f2,
        completes(true, got, f2),
        ingest_frame(true, got, f2) == f2,
        ingest_rest(true, got, f2) == Seq::<u8>::empty(),
{
    lemma_sync_on_header(got, f1 + f2);
    assert((f1 + f2).take(PACKET_SIZE as int) =~= f1);
    assert((f1 + f2).skip(PACKET_SIZE as int) =~= f2);
    lemma_sync_on_header(got, f2);
    assert(f2.take(PACKET_SIZE as int) =~= f2);
    assert(f2.skip(PACKET_SIZE as int) =~= Seq::<u8>::empty());
}

/// A rejected frame does not desynchronize the stream: when a structurally
/// invalid frame is followed back to back by a valid one, a single adapter
/// pass skips the bad frame and yields exactly the valid one, consuming the
/// chunk whole.
pub proof fn lemma_invalid_then_valid(bad: Seq<u8>, good: Seq<u8>)
    requires
        bad.len() == PACKET_SIZE,
        bad[0] == HEAD_BYTE,
        !valid_frame_spec(bad),
        good.len() == PACKET_SIZE,
        good[0] == HEAD_BYTE,
        valid_frame_spec(good),
    ensures
        drain_seek(bad + good) == (
            Some(good),
            Seq::<u8>::empty(),
            true,
            Seq::<u8>::empty(),
        ),
{
    let e = Seq::<u8>::empty();
    lemma_two_frames(e, bad, good);
    assert(drain_seek(bad + good) == drain_seek(good));
    assert(drain_seek(good) == (Some(good), e, true, e));
}

/// A frame whose footer is corrupted, or whose flags byte has any of its
/// high bits set, is rejected: the decode attempt yields no packet.
pub proof fn lemma_corrupt_frame_rejected(frame: Seq<u8>, r: Option<SBusPacket>)
    requires
        frame.len() == PACKET_SIZE,
        frame[24] != FOOT_BYTE || frame[23] & FLAG_MASK != 0,
        decode_result(r, frame),
    ensures
        r is None,
        !valid_frame_spec(frame),
{
}

} // verus!
