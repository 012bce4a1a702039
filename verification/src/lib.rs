use vstd::prelude::*;

mod bits;
pub mod laws;
mod reader;

pub use reader::Reader;

use bits::field_at_0;
use bits::field_at_1;
use bits::field_at_2;
use bits::field_at_3;
use bits::field_at_4;
use bits::field_at_5;
use bits::field_at_6;
use bits::field_at_7;
use bits::lemma_chan0;
use bits::lemma_chan1;
use bits::lemma_chan10;
use bits::lemma_chan11;
use bits::lemma_chan12;
use bits::lemma_chan13;
use bits::lemma_chan14;
use bits::lemma_chan15;
use bits::lemma_chan2;
use bits::lemma_chan3;
use bits::lemma_chan4;
use bits::lemma_chan5;
use bits::lemma_chan6;
use bits::lemma_chan7;
use bits::lemma_chan8;
use bits::lemma_chan9;

verus! {

broadcast use vstd::array::group_array_axioms;

/// Sentinel byte that opens every frame.
pub const HEAD_BYTE: u8 = 0x0F;

/// Sentinel byte that closes every frame.
pub const FOOT_BYTE: u8 = 0x00;

/// High nibble of the flags byte; a well-formed frame has all four bits clear.
pub const FLAG_MASK: u8 = 0xF0;

/// Number of bytes in one frame: 1 header + 22 payload + 1 flags + 1 footer.
pub const PACKET_SIZE: usize = 25;

/// A fully accumulated frame is structurally valid when the two sentinels are
/// in place and the high nibble of the flags byte is clear.
pub open spec fn valid_frame_spec(frame: Seq<u8>) -> bool {
    &&& frame.len() == PACKET_SIZE
    &&& frame[0] == HEAD_BYTE
    &&& frame[24] == FOOT_BYTE
    &&& frame[23] & FLAG_MASK == 0
}

/// Bit `k` of the packed payload bit stream (bit 0 is the least significant
/// bit of the first payload byte): either 0 or 1.
pub open spec fn payload_bit(p: Seq<u8>, k: int) -> u8 {
    (p[k / 8] >> ((k % 8) as u8)) & 1
}

/// Channel `i` is the 11-bit little-endian field of the payload bit stream
/// that starts at bit offset `11 * i`.
#[verifier::opaque]
pub open spec fn channel_spec(p: Seq<u8>, i: int) -> int {
    payload_bit(p, 11 * i) + 2 * payload_bit(p, 11 * i + 1) + 4 * payload_bit(p, 11 * i + 2) + 8
        * payload_bit(p, 11 * i + 3) + 16 * payload_bit(p, 11 * i + 4) + 32 * payload_bit(
        p,
        11 * i + 5,
    ) + 64 * payload_bit(p, 11 * i + 6) + 128 * payload_bit(p, 11 * i + 7) + 256 * payload_bit(
        p,
        11 * i + 8,
    ) + 512 * payload_bit(p, 11 * i + 9) + 1024 * payload_bit(p, 11 * i + 10)
}

/// Status bit `bit` of the flags byte.
pub open spec fn flag_spec(flags: u8, bit: u8) -> bool {
    (flags >> bit) & 1 == 1
}

/// The 22 payload bytes of a frame, between the header and the flags byte.
pub open spec fn payload_of(frame: Seq<u8>) -> Seq<u8> {
    frame.subrange(1, 23)
}

/// One decoded frame: 16 proportional channels of 11 bits each, plus the four
/// status flags of the low nibble of the flags byte.
#[derive(Debug, Ord, PartialOrd, Eq, PartialEq, Copy, Clone)]
pub struct SBusPacket {
    pub channels: [u16; 16],
    pub d1: bool,
    pub d2: bool,
    pub failsafe: bool,
    pub frame_lost: bool,
}

/// `p` is exactly what a structurally valid frame decodes to.
pub open spec fn decodes_to(p: SBusPacket, frame: Seq<u8>) -> bool {
    &&& forall|i: int| 0 <= i < 16 ==> p.channels@[i] == channel_spec(payload_of(frame), i)
    &&& p.d1 == flag_spec(frame[23], 0)
    &&& p.d2 == flag_spec(frame[23], 1)
    &&& p.frame_lost == flag_spec(frame[23], 2)
    &&& p.failsafe == flag_spec(frame[23], 3)
}

/// The outcome of one decode attempt on an accumulated frame: a packet
/// exactly when the frame is structurally valid, and then the right one.
pub open spec fn decode_result(r: Option<SBusPacket>, frame: Seq<u8>) -> bool {
    match r {
        Some(p) => valid_frame_spec(frame) && decodes_to(p, frame),
        None => !valid_frame_spec(frame),
    }
}

/// Position of the first header byte in `s`, or `s.len()` when none occurs.
pub open spec fn first_header(s: Seq<u8>) -> int
    decreases s.len(),
{
    if s.len() == 0 {
        0
    } else if s[0] == HEAD_BYTE {
        0
    } else {
        1 + first_header(s.drop_first())
    }
}

/// `first_header` points at a header byte (unless there is none), and
/// nothing before it is one.
pub proof fn lemma_first_header(s: Seq<u8>)
    ensures
        0 <= first_header(s) <= s.len(),
        first_header(s) < s.len() ==> s[first_header(s)] == HEAD_BYTE,
        forall|k: int| 0 <= k < first_header(s) ==> s[k] != HEAD_BYTE,
    decreases s.len(),
{
    if s.len() == 0 {
    } else if s[0] == HEAD_BYTE {
    } else {
        lemma_first_header(s.drop_first());
        assert forall|k: int| 0 <= k < first_header(s) implies s[k] != HEAD_BYTE by {
            if k > 0 {
                assert(s.drop_first()[k - 1] == s[k]);
            }
        }
    }
}

/// Conversely, a position with a header byte and none before it is
/// `first_header`; scanning every byte without a match means there is none.
pub proof fn lemma_first_header_at(s: Seq<u8>, j: int)
    requires
        0 <= j <= s.len(),
        forall|k: int| 0 <= k < j ==> s[k] != HEAD_BYTE,
        j < s.len() ==> s[j] == HEAD_BYTE,
    ensures
        first_header(s) == j,
    decreases s.len(),
{
    if j == 0 {
    } else {
        assert(s[0] != HEAD_BYTE);
        assert forall|k: int| 0 <= k < j - 1 implies s.drop_first()[k] != HEAD_BYTE by {
            assert(s.drop_first()[k] == s[k + 1]);
        }
        if j - 1 < s.drop_first().len() {
            assert(s.drop_first()[j - 1] == s[j]);
        }
        lemma_first_header_at(s.drop_first(), j - 1);
    }
}

/// The bytes accumulated once the seeking phase of one call is over: the
/// matched header byte alone when the call began seeking, otherwise whatever
/// was already accumulated.
pub open spec fn sync_got(seeking: bool, got: Seq<u8>) -> Seq<u8> {
    if seeking {
        seq![HEAD_BYTE]
    } else {
        got
    }
}

/// The part of the input chunk left once the seeking phase is over.
pub open spec fn sync_rest(seeking: bool, s: Seq<u8>) -> Seq<u8> {
    if seeking {
        s.skip(first_header(s) + 1)
    } else {
        s
    }
}

/// Whether the call leaves the seeking phase at all: it does unless it
/// starts seeking and the chunk holds no header byte.
pub open spec fn finds_sync(seeking: bool, s: Seq<u8>) -> bool {
    !seeking || first_header(s) < s.len()
}

/// Whether one call that starts in mode `seeking` with `got` accumulated
/// completes a frame out of the chunk `s`.
pub open spec fn completes(seeking: bool, got: Seq<u8>, s: Seq<u8>) -> bool {
    &&& finds_sync(seeking, s)
    &&& sync_got(seeking, got).len() + sync_rest(seeking, s).len() >= PACKET_SIZE
}

/// The frame such a call accumulates and attempts to decode.
pub open spec fn ingest_frame(seeking: bool, got: Seq<u8>, s: Seq<u8>) -> Seq<u8> {
    sync_got(seeking, got) + sync_rest(seeking, s).take(
        PACKET_SIZE - sync_got(seeking, got).len(),
    )
}

/// The unconsumed suffix of the chunk handed back after a completed frame.
pub open spec fn ingest_rest(seeking: bool, got: Seq<u8>, s: Seq<u8>) -> Seq<u8> {
    sync_rest(seeking, s).skip(PACKET_SIZE - sync_got(seeking, got).len())
}

/// The partial accumulation left when the chunk runs out before a frame is
/// complete.
pub open spec fn ingest_partial(seeking: bool, got: Seq<u8>, s: Seq<u8>) -> Seq<u8> {
    sync_got(seeking, got) + sync_rest(seeking, s)
}

/// One whole pass of the sequence adapter over chunk `s`, starting from a
/// freshly seeking parser: ingest steps repeat, and a completed frame that
/// fails validation is skipped, until a frame validates or the chunk runs
/// out.  Yields the validated frame (if any), the chunk left after it, and
/// the parser's mode and accumulation when the pass ends.
pub open spec fn drain_seek(s: Seq<u8>) -> (Option<Seq<u8>>, Seq<u8>, bool, Seq<u8>)
    decreases s.len(),
    via drain_seek_decreases
{
    if completes(true, Seq::<u8>::empty(), s) {
        let f = ingest_frame(true, Seq::<u8>::empty(), s);
        let rest = ingest_rest(true, Seq::<u8>::empty(), s);
        if valid_frame_spec(f) {
            (Some(f), rest, true, Seq::<u8>::empty())
        } else {
            drain_seek(rest)
        }
    } else if finds_sync(true, s) {
        (None, Seq::<u8>::empty(), false, ingest_partial(true, Seq::<u8>::empty(), s))
    } else {
        (None, Seq::<u8>::empty(), true, Seq::<u8>::empty())
    }
}

#[via_fn]
proof fn drain_seek_decreases(s: Seq<u8>) {
    if completes(true, Seq::<u8>::empty(), s) {
        lemma_first_header(s);
    }
}

/// The same pass when it may start in the middle of a frame: the first
/// ingest step continues that frame; every later step starts from seeking.
pub open spec fn drain_from(seeking: bool, got: Seq<u8>, s: Seq<u8>) -> (
    Option<Seq<u8>>,
    Seq<u8>,
    bool,
    Seq<u8>,
) {
    if seeking {
        drain_seek(s)
    } else if completes(false, got, s) {
        let f = ingest_frame(false, got, s);
        let rest = ingest_rest(false, got, s);
        if valid_frame_spec(f) {
            (Some(f), rest, true, Seq::<u8>::empty())
        } else {
            drain_seek(rest)
        }
    } else {
        (None, Seq::<u8>::empty(), false, ingest_partial(false, got, s))
    }
}

/// The two modes of the synchronizer: scanning the input for a header byte,
/// or filling the frame buffer towards a complete frame.
enum State {
    SeekHeader,
    Reading,
}

/// The streaming frame synchronizer.  It owns a fixed-capacity frame buffer
/// and survives across calls, so a frame may arrive in arbitrary fragments.
pub struct SBusPacketParser {
    state: State,
    buf: [u8; PACKET_SIZE],
    len: usize,
}

impl SBusPacketParser {
    /// True while the parser is scanning for the next header byte.
    pub closed spec fn seeking(self) -> bool {
        self.state is SeekHeader
    }

    /// The bytes accumulated towards the current frame.
    pub closed spec fn filled(self) -> Seq<u8> {
        self.buf@.take(self.len as int)
    }

    /// While seeking nothing is accumulated (the fill count was reset after
    /// the last decode attempt); while accumulating the buffer starts with
    /// the header byte that was matched.
    pub closed spec fn wf(self) -> bool {
        &&& self.seeking() ==> self.len == 0
        &&& !self.seeking() ==> 1 <= self.len < PACKET_SIZE && self.buf@[0] == HEAD_BYTE
    }

    pub fn new() -> (r: SBusPacketParser)
        ensures
            r.wf(),
            r.seeking(),
            r.filled() == Seq::<u8>::empty(),
    {
        let r = SBusPacketParser { state: State::SeekHeader, buf: [0; 25], len: 0 };
        proof {
            assert(r.filled() =~= Seq::<u8>::empty());
        }
        r
    }

    /// Returns `true` iff the buffer holds a complete, structurally valid
    /// frame.
    fn valid_frame(&self) -> (r: bool)
        requires
            self.wf(),
        ensures
            r == valid_frame_spec(self.filled()),
    {
        self.len == PACKET_SIZE && self.buf[0] == HEAD_BYTE && self.buf[24] == FOOT_BYTE
            && self.buf[23] & FLAG_MASK == 0
    }

    /// Pushes one chunk of the byte stream into the synchronizer.  While
    /// seeking, bytes up to and including the first header byte are consumed;
    /// the buffer then fills until either the chunk runs out (the partial
    /// frame persists into the next call) or the frame is complete, in which
    /// case exactly one decode attempt is made, the parser returns to
    /// seeking with an empty buffer, and the unconsumed suffix of the chunk
    /// is handed back.
    pub fn push_bytes<'b>(&mut self, bytes: &'b [u8]) -> (r: (Option<SBusPacket>, &'b [u8]))
        requires
            old(self).wf(),
        ensures
            final(self).wf(),
            ({
                let seeking = old(self).seeking();
                let got = old(self).filled();
                let s = bytes@;
                if completes(seeking, got, s) {
                    &&& final(self).seeking()
                    &&& final(self).filled() == Seq::<u8>::empty()
                    &&& decode_result(r.0, ingest_frame(seeking, got, s))
                    &&& r.1@ == ingest_rest(seeking, got, s)
                } else if finds_sync(seeking, s) {
                    &&& !final(self).seeking()
                    &&& final(self).filled() == ingest_partial(seeking, got, s)
                    &&& r.0 is None
                    &&& r.1@.len() == 0
                } else {
                    &&& final(self).seeking()
                    &&& final(self).filled() == old(self).filled()
                    &&& r.0 is None
                    &&& r.1@.len() == 0
                }
            }),
    {
        let ghost s = bytes@;
        let mut reader = Reader::new(bytes);
        match self.state {
            State::Reading => {},
            State::SeekHeader => {
                let ghost mut cnt: int = 0;
                let mut found = false;
                let mut done = false;
                while !done
                    invariant
                        reader.wf(),
                        self.wf(),
                        0 <= cnt <= s.len(),
                        forall|k: int| 0 <= k < cnt ==> s[k] != HEAD_BYTE,
                        !found ==> {
                            &&& self.seeking()
                            &&& reader.unread() == s.skip(cnt)
                        },
                        found ==> {
                            &&& cnt < s.len()
                            &&& s[cnt] == HEAD_BYTE
                            &&& reader.unread() == s.skip(cnt + 1)
                            &&& !self.seeking()
                            &&& self.len == 1
                            &&& self.buf@[0] == HEAD_BYTE
                        },
                        found ==> done,
                        done ==> (found || reader.unread().len() == 0),
                    decreases s.len() - cnt + (if done {
                        0int
                    } else {
                        1int
                    }),
                {
                    match reader.next() {
                        Some(byte) => {
                            if byte == HEAD_BYTE {
                                self.buf[0] = byte;
                                self.len = 1;
                                self.state = State::Reading;
                                found = true;
                                done = true;
                                proof {
                                    assert(s.skip(cnt).drop_first() =~= s.skip(cnt + 1));
                                }
                            } else {
                                proof {
                                    assert(s.skip(cnt).drop_first() =~= s.skip(cnt + 1));
                                    cnt = cnt + 1;
                                }
                            }
                        },
                        None => {
                            done = true;
                        },
                    }
                }
                if !found {
                    proof {
                        assert(cnt == s.len());
                        lemma_first_header_at(s, s.len() as int);
                        assert(self.filled() =~= old(self).filled());
                    }
                    return (None, reader.remaining());
                }
                proof {
                    lemma_first_header_at(s, cnt);
                }
            },
        }
        // Accumulating: the buffer starts with a matched header byte.
        let ghost got = self.filled();
        let ghost rest = reader.unread();
        proof {
            assert(got == sync_got(old(self).seeking(), old(self).filled()));
            assert(rest == sync_rest(old(self).seeking(), s));
            assert(finds_sync(old(self).seeking(), s));
            assert(got.len() == self.len);
            if old(self).seeking() {
                assert(self.filled() =~= seq![HEAD_BYTE]);
            }
        }
        let want = PACKET_SIZE - self.len;
        let take = reader.next_n(want);
        let n = take.len();
        let ghost buf0 = self.buf@;
        let ghost len0 = self.len as int;
        let mut i: usize = 0;
        while i < n
            invariant
                0 <= i <= n,
                n == take@.len(),
                len0 + n <= PACKET_SIZE,
                !self.seeking(),
                self.len == len0,
                self.buf@.len() == PACKET_SIZE,
                forall|j: int| 0 <= j < len0 ==> self.buf@[j] == buf0[j],
                forall|j: int| 0 <= j < i ==> self.buf@[len0 + j] == take@[j],
            decreases n - i,
        {
            self.buf[self.len + i] = take[i];
            i += 1;
        }
        self.len = self.len + n;
        proof {
            assert(self.filled() =~= got + take@);
        }
        if self.len == PACKET_SIZE {
            proof {
                assert(take@ =~= rest.take(PACKET_SIZE - got.len()));
                assert(self.buf@ =~= self.filled());
                assert(self.buf@ == ingest_frame(old(self).seeking(), old(self).filled(), s));
                assert(reader.unread() =~= ingest_rest(old(self).seeking(), old(self).filled(), s));
            }
            let result = decode_frame(&self.buf);
            self.state = State::SeekHeader;
            self.len = 0;
            proof {
                assert(self.filled() =~= Seq::<u8>::empty());
            }
            return (result, reader.remaining());
        }
        proof {
            assert(take@ =~= rest);
            assert(reader.unread().len() == 0);
            assert(self.filled() == ingest_partial(old(self).seeking(), old(self).filled(), s));
        }
        (None, reader.remaining())
    }

    /// Attempts to decode the accumulated frame.  This is a pure function of
    /// the buffer contents: repeating the call returns the same answer.
    pub fn try_parse(&self) -> (r: Option<SBusPacket>)
        requires
            self.wf(),
        ensures
            decode_result(r, self.filled()),
    {
        if !self.valid_frame() {
            return None;
        }
        proof {
            assert(self.filled() =~= self.buf@);
        }
        decode_frame(&self.buf)
    }
}

/// Validates and unpacks one fully-accumulated frame: a packet exactly when
/// the sentinels are in place and the flags byte's high nibble is clear.
/// Pure in the buffer bytes.
#[verifier::rlimit(100)]
fn decode_frame(buf: &[u8; PACKET_SIZE]) -> (r: Option<SBusPacket>)
    ensures
        decode_result(r, buf@),
{
    if !(buf[0] == HEAD_BYTE && buf[24] == FOOT_BYTE && buf[23] & FLAG_MASK == 0) {
        return None;
    }
    let b1 = buf[1];
    let b2 = buf[2];
    let b3 = buf[3];
    let b4 = buf[4];
    let b5 = buf[5];
    let b6 = buf[6];
    let b7 = buf[7];
    let b8 = buf[8];
    let b9 = buf[9];
    let b10 = buf[10];
    let b11 = buf[11];
    let b12 = buf[12];
    let b13 = buf[13];
    let b14 = buf[14];
    let b15 = buf[15];
    let b16 = buf[16];
    let b17 = buf[17];
    let b18 = buf[18];
    let b19 = buf[19];
    let b20 = buf[20];
    let b21 = buf[21];
    let b22 = buf[22];
    let flag_byte = buf[23];

    let c0 = field_at_0(b1, b2);
    let c1 = field_at_3(b2, b3);
    let c2 = field_at_6(b3, b4, b5);
    let c3 = field_at_1(b5, b6);
    let c4 = field_at_4(b6, b7);
    let c5 = field_at_7(b7, b8, b9);
    let c6 = field_at_2(b9, b10);
    let c7 = field_at_5(b10, b11);
    let c8 = field_at_0(b12, b13);
    let c9 = field_at_3(b13, b14);
    let c10 = field_at_6(b14, b15, b16);
    let c11 = field_at_1(b16, b17);
    let c12 = field_at_4(b17, b18);
    let c13 = field_at_7(b18, b19, b20);
    let c14 = field_at_2(b20, b21);
    let c15 = field_at_5(b21, b22);

    let channels: [u16; 16] = [
        c0,
        c1,
        c2,
        c3,
        c4,
        c5,
        c6,
        c7,
        c8,
        c9,
        c10,
        c11,
        c12,
        c13,
        c14,
        c15,
    ];

    proof {
        let p = payload_of(buf@);
        lemma_chan0(p, b1, b2);
        lemma_chan1(p, b2, b3);
        lemma_chan2(p, b3, b4, b5);
        lemma_chan3(p, b5, b6);
        lemma_chan4(p, b6, b7);
        lemma_chan5(p, b7, b8, b9);
        lemma_chan6(p, b9, b10);
        lemma_chan7(p, b10, b11);
        lemma_chan8(p, b12, b13);
        lemma_chan9(p, b13, b14);
        lemma_chan10(p, b14, b15, b16);
        lemma_chan11(p, b16, b17);
        lemma_chan12(p, b17, b18);
        lemma_chan13(p, b18, b19, b20);
        lemma_chan14(p, b20, b21);
        lemma_chan15(p, b21, b22);
        assert forall|i: int| 0 <= i < 16 implies channels@[i] == channel_spec(p, i) by {
            if i == 0 {
            } else if i == 1 {
            } else if i == 2 {
            } else if i == 3 {
            } else if i == 4 {
            } else if i == 5 {
            } else if i == 6 {
            } else if i == 7 {
            } else if i == 8 {
            } else if i == 9 {
            } else if i == 10 {
            } else if i == 11 {
            } else if i == 12 {
            } else if i == 13 {
            } else if i == 14 {
            } else {
                assert(i == 15);
            }
        }
    }

    Some(
        SBusPacket {
            channels,
            d1: is_flag_set(flag_byte, 0),
            d2: is_flag_set(flag_byte, 1),
            frame_lost: is_flag_set(flag_byte, 2),
            failsafe: is_flag_set(flag_byte, 3),
        },
    )
}

impl SBusPacketParser {
    /// A lazy sequence of the packets decodable from one chunk: it borrows
    /// the parser for its lifetime, so partial-frame state carries over into
    /// whatever is fed to the parser afterwards.
    pub fn iter_packets<'a, 'b>(&'a mut self, buf: &'b [u8]) -> (r: IterPackets<'a, 'b>)
        requires
            old(self).wf(),
        ensures
            r.wf(),
            r.parser_now() == *old(self),
            r.chunk() == buf@,
    {
        IterPackets { parser: self, buf }
    }
}

/// A forward-only walk over the packets that one borrowed chunk yields,
/// advancing the borrowed parser as it goes.
pub struct IterPackets<'a, 'b> {
    parser: &'a mut SBusPacketParser,
    buf: &'b [u8],
}

impl<'a, 'b> IterPackets<'a, 'b> {
    /// The parser as it stands now.
    pub closed spec fn parser_now(self) -> SBusPacketParser {
        *self.parser
    }

    /// The bytes not yet fed to the parser.
    pub closed spec fn chunk(self) -> Seq<u8> {
        self.buf@
    }

    pub closed spec fn wf(self) -> bool {
        self.parser.wf()
    }

    /// One step of the walk: feeds the remaining bytes into the parser,
    /// silently skipping completed frames that fail validation, until a
    /// packet is decoded or the chunk is exhausted.  `None` is returned only
    /// once the whole chunk has been consumed.
    pub fn next(&mut self) -> (r: Option<SBusPacket>)
        requires
            old(self).wf(),
        ensures
            final(self).wf(),
            ({
                let d = drain_from(
                    old(self).parser_now().seeking(),
                    old(self).parser_now().filled(),
                    old(self).chunk(),
                );
                &&& final(self).chunk() == d.1
                &&& final(self).parser_now().seeking() == d.2
                &&& final(self).parser_now().filled() == d.3
                &&& match (d.0, r) {
                    (Some(frame), Some(p)) => valid_frame_spec(frame) && decodes_to(p, frame),
                    (None, None) => true,
                    _ => false,
                }
            }),
    {
        let (packet, rest) = drain_chunk(self.parser, self.buf);
        self.buf = rest;
        packet
    }
}

/// Feeds `bytes` to the parser, skipping completed frames that fail
/// validation, until a packet is decoded or the chunk runs out, and hands
/// back the unconsumed suffix.
fn drain_chunk<'b>(parser: &mut SBusPacketParser, bytes: &'b [u8]) -> (r: (
    Option<SBusPacket>,
    &'b [u8],
))
    requires
        old(parser).wf(),
    ensures
        final(parser).wf(),
        ({
            let d = drain_from(old(parser).seeking(), old(parser).filled(), bytes@);
            &&& r.1@ == d.1
            &&& final(parser).seeking() == d.2
            &&& final(parser).filled() == d.3
            &&& match (d.0, r.0) {
                (Some(frame), Some(p)) => valid_frame_spec(frame) && decodes_to(p, frame),
                (None, None) => true,
                _ => false,
            }
        }),
{
    let ghost d = drain_from(old(parser).seeking(), old(parser).filled(), bytes@);
    let mut cur: &'b [u8] = bytes;
    let mut result: Option<SBusPacket> = None;
    let mut done = false;
    while !done
        invariant
            parser.wf(),
            !done ==> {
                &&& result is None
                &&& drain_from(parser.seeking(), parser.filled(), cur@) == d
            },
            done ==> {
                &&& cur@ == d.1
                &&& parser.seeking() == d.2
                &&& parser.filled() == d.3
                &&& match (d.0, result) {
                    (Some(frame), Some(p)) => valid_frame_spec(frame) && decodes_to(p, frame),
                    (None, None) => true,
                    _ => false,
                }
            },
        decreases cur@.len() + (if done {
            0int
        } else {
            1int
        }),
    {
        let ghost seek_pre = parser.seeking();
        let ghost got_pre = parser.filled();
        let ghost s_pre = cur@;
        let (packet, rest) = parser.push_bytes(cur);
        cur = rest;
        match packet {
            Some(p) => {
                proof {
                    let e = Seq::<u8>::empty();
                    assert(completes(seek_pre, got_pre, s_pre));
                    let f = ingest_frame(seek_pre, got_pre, s_pre);
                    let tail = ingest_rest(seek_pre, got_pre, s_pre);
                    assert(valid_frame_spec(f));
                    if seek_pre {
                        lemma_first_header(s_pre);
                        assert(completes(true, e, s_pre));
                        assert(ingest_frame(true, e, s_pre) == f);
                        assert(ingest_rest(true, e, s_pre) == tail);
                    }
                    assert(d == (Some(f), tail, true, e));
                    assert(rest@.len() <= s_pre.len());
                }
                result = Some(p);
                done = true;
            },
            None => {
                let ghost e = Seq::<u8>::empty();
                if rest.is_empty() {
                    proof {
                        if completes(seek_pre, got_pre, s_pre) {
                            // the rejected frame ended exactly at the
                            // chunk's end: the drain stops on the empty
                            // suffix
                            let f = ingest_frame(seek_pre, got_pre, s_pre);
                            let tail = ingest_rest(seek_pre, got_pre, s_pre);
                            assert(!valid_frame_spec(f));
                            if seek_pre {
                                assert(completes(true, e, s_pre));
                                assert(ingest_frame(true, e, s_pre) == f);
                                assert(ingest_rest(true, e, s_pre) == tail);
                            }
                            assert(tail =~= e);
                            assert(d == drain_seek(e));
                            assert(!finds_sync(true, e));
                            assert(d == (None::<Seq<u8>>, e, true, e));
                        } else if finds_sync(seek_pre, s_pre) {
                            if seek_pre {
                                assert(got_pre =~= e);
                                assert(ingest_partial(true, e, s_pre) == ingest_partial(
                                    true,
                                    got_pre,
                                    s_pre,
                                ));
                            }
                            assert(d == (
                                None::<Seq<u8>>,
                                e,
                                false,
                                ingest_partial(seek_pre, got_pre, s_pre),
                            ));
                        } else {
                            assert(seek_pre);
                            assert(got_pre =~= e);
                            assert(d == (None::<Seq<u8>>, e, true, e));
                        }
                        assert(rest@ =~= e);
                    }
                    done = true;
                } else {
                    proof {
                        // a completed frame failed validation mid-chunk; the
                        // scan resumes from seeking on the handed-back suffix
                        assert(completes(seek_pre, got_pre, s_pre));
                        let f = ingest_frame(seek_pre, got_pre, s_pre);
                        assert(!valid_frame_spec(f));
                        if seek_pre {
                            lemma_first_header(s_pre);
                            assert(completes(true, e, s_pre));
                            assert(ingest_frame(true, e, s_pre) == f);
                            assert(ingest_rest(true, e, s_pre) == rest@);
                        }
                        assert(d == drain_seek(rest@));
                        assert(rest@.len() < s_pre.len());
                    }
                }
            },
        }
    }
    (result, cur)
}

/// Tests one status bit of the flags byte.
fn is_flag_set(flag_byte: u8, shift_by: u8) -> (r: bool)
    requires
        shift_by < 8,
    ensures
        r == flag_spec(flag_byte, shift_by),
{
    (flag_byte >> shift_by) & 1 == 1
}

} // verus!
