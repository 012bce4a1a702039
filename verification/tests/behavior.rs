use sbus::Reader;
use sbus::SBusPacket;
use sbus::SBusPacketParser;

// One valid 25-byte frame, decoding to the golden packet below.
fn frame() -> [u8; 25] {
    [
        0x0F, 0xE0, 0x03, 0x1F, 0x58, 0xC0, 0x07, 0x16, 0xB0, 0x80, 0x05, 0x2C, 0x60, 0x01, 0x0B,
        0xF8, 0xC0, 0x07, 0x00, 0x00, 0x00, 0x00, 0x00, 0x03, 0x00,
    ]
}

fn golden() -> SBusPacket {
    SBusPacket {
        channels: [992, 992, 352, 992, 352, 352, 352, 352, 352, 352, 992, 992, 0, 0, 0, 0],
        d1: true,
        d2: true,
        failsafe: false,
        frame_lost: false,
    }
}

// A frame that is all zero but for the sentinels and the given flags byte.
fn zero_frame(flags: u8) -> [u8; 25] {
    let mut f = [0u8; 25];
    f[0] = 0x0F;
    f[23] = flags;
    f
}

#[test]
fn whole_frame_one_call() {
    let mut parser = SBusPacketParser::new();
    let f = frame();
    let (packet, rest) = parser.push_bytes(&f);
    assert_eq!(packet, Some(golden()));
    assert!(rest.is_empty());
}

#[test]
fn split_two_calls() {
    let f = frame();
    for k in 1..25usize {
        let mut parser = SBusPacketParser::new();
        let (first, _) = parser.push_bytes(&f[..k]);
        assert_eq!(first, None);
        let (second, rest) = parser.push_bytes(&f[k..]);
        assert_eq!(second, Some(golden()));
        assert!(rest.is_empty());
    }
}

#[test]
fn split_byte_by_byte() {
    let f = frame();
    let mut parser = SBusPacketParser::new();
    let mut decoded = Vec::new();
    for byte in f.iter() {
        let (packet, _) = parser.push_bytes(std::slice::from_ref(byte));
        if let Some(p) = packet {
            decoded.push(p);
        }
    }
    assert_eq!(decoded, vec![golden()]);
}

#[test]
fn garbage_prefix_ignored() {
    let mut bytes = vec![0x55u8, 0xAA, 0x00, 0x01, 0xFE];
    bytes.extend_from_slice(&frame());
    let mut parser = SBusPacketParser::new();
    let (packet, rest) = parser.push_bytes(&bytes);
    assert_eq!(packet, Some(golden()));
    assert!(rest.is_empty());
}

#[test]
fn corrupt_footer_rejected_then_resync() {
    let mut bad = frame();
    bad[24] = 0x01;
    let mut bytes = Vec::new();
    bytes.extend_from_slice(&bad);
    bytes.extend_from_slice(&frame());
    let mut parser = SBusPacketParser::new();
    let (first, rest) = parser.push_bytes(&bytes);
    assert_eq!(first, None);
    let rest = rest.to_vec();
    let (second, tail) = parser.push_bytes(&rest);
    assert_eq!(second, Some(golden()));
    assert!(tail.is_empty());
}

#[test]
fn flags_high_bits_rejected() {
    for bit in [0x10u8, 0x20, 0x40, 0x80] {
        let mut bad = frame();
        bad[23] |= bit;
        let mut parser = SBusPacketParser::new();
        let (packet, _) = parser.push_bytes(&bad);
        assert_eq!(packet, None);
        // the parser resynchronizes: a valid frame right after still decodes
        let (next, _) = parser.push_bytes(&frame());
        assert_eq!(next, Some(golden()));
    }
}

#[test]
fn two_frames_in_sequence() {
    let mut bytes = Vec::new();
    bytes.extend_from_slice(&frame());
    bytes.extend_from_slice(&frame());
    let mut parser = SBusPacketParser::new();
    let mut iter = parser.iter_packets(&bytes);
    let mut decoded = Vec::new();
    loop {
        match iter.next() {
            Some(p) => decoded.push(p),
            None => break,
        }
    }
    assert_eq!(decoded, vec![golden(), golden()]);
}

#[test]
fn revalidation_is_deterministic() {
    let f = frame();
    // after a completed decode attempt the buffer is reset, so a direct
    // decode attempt finds nothing -- and repeating it says the same
    let mut parser = SBusPacketParser::new();
    parser.push_bytes(&f);
    assert_eq!(parser.try_parse(), None);
    assert_eq!(parser.try_parse(), parser.try_parse());
    // mid-accumulation the attempt is equally repeatable
    let mut partial = SBusPacketParser::new();
    partial.push_bytes(&f[..10]);
    assert_eq!(partial.try_parse(), None);
    assert_eq!(partial.try_parse(), partial.try_parse());
    // and decoding the same frame bytes again gives the same packet
    let (p1, _) = parser.push_bytes(&f);
    let (p2, _) = parser.push_bytes(&f);
    assert_eq!(p1, Some(golden()));
    assert_eq!(p1, p2);
}

#[test]
fn sequence_skips_invalid_frame() {
    // a corrupt frame directly before a valid one: the walk skips the bad
    // frame and yields the good packet in the same step
    let mut bad = frame();
    bad[24] = 0x01;
    let mut bytes = Vec::new();
    bytes.extend_from_slice(&bad);
    bytes.extend_from_slice(&frame());
    let mut parser = SBusPacketParser::new();
    let mut iter = parser.iter_packets(&bytes);
    assert_eq!(iter.next(), Some(golden()));
    assert_eq!(iter.next(), None);
}

#[test]
fn sequence_exhausts_past_invalid_tail() {
    // a corrupt frame and a stray byte: no packet, but the walk only says
    // so once the whole chunk is consumed
    let mut bad = frame();
    bad[24] = 0x01;
    let mut bytes = Vec::new();
    bytes.extend_from_slice(&bad);
    bytes.push(0xAB);
    let mut parser = SBusPacketParser::new();
    let mut iter = parser.iter_packets(&bytes);
    assert_eq!(iter.next(), None);
}

#[test]
fn unconsumed_tail_returned() {
    let mut bytes = Vec::new();
    bytes.extend_from_slice(&frame());
    bytes.extend_from_slice(&[0xAB, 0xCD]);
    let mut parser = SBusPacketParser::new();
    let (packet, rest) = parser.push_bytes(&bytes);
    assert_eq!(packet, Some(golden()));
    assert_eq!(rest, &[0xAB, 0xCD][..]);
}

#[test]
fn empty_and_headerless_chunks() {
    let mut parser = SBusPacketParser::new();
    let (packet, rest) = parser.push_bytes(&[]);
    assert_eq!(packet, None);
    assert!(rest.is_empty());
    let (packet, rest) = parser.push_bytes(&[0x01, 0x02, 0xFE]);
    assert_eq!(packet, None);
    assert!(rest.is_empty());
    // the parser is still usable afterwards
    let (packet, _) = parser.push_bytes(&frame());
    assert_eq!(packet, Some(golden()));
}

#[test]
fn all_zero_payload_decodes_to_zero() {
    let mut parser = SBusPacketParser::new();
    let (packet, _) = parser.push_bytes(&zero_frame(0x00));
    let p = packet.unwrap();
    assert_eq!(p.channels, [0u16; 16]);
    assert!(!p.d1 && !p.d2 && !p.frame_lost && !p.failsafe);
}

#[test]
fn low_nibble_flags_all_set() {
    let mut parser = SBusPacketParser::new();
    let (packet, _) = parser.push_bytes(&zero_frame(0x0F));
    let p = packet.unwrap();
    assert!(p.d1 && p.d2 && p.frame_lost && p.failsafe);
}

#[test]
fn channel_group_boundary_bits() {
    // bit 87 of the payload is the top bit of channel 7; bit 88 is the
    // bottom bit of channel 8
    let mut f = zero_frame(0x00);
    f[11] = 0x80;
    f[12] = 0x01;
    let mut parser = SBusPacketParser::new();
    let (packet, _) = parser.push_bytes(&f);
    let p = packet.unwrap();
    let mut expected = [0u16; 16];
    expected[7] = 1024;
    expected[8] = 1;
    assert_eq!(p.channels, expected);
}

#[test]
fn last_channel_bits() {
    // bit 165 is the bottom bit of channel 15, bit 175 its top bit
    let mut f = zero_frame(0x00);
    f[21] = 0x20;
    f[22] = 0x80;
    let mut parser = SBusPacketParser::new();
    let (packet, _) = parser.push_bytes(&f);
    let p = packet.unwrap();
    let mut expected = [0u16; 16];
    expected[15] = 1025;
    assert_eq!(p.channels, expected);
}

#[test]
fn reader_walks_and_saturates() {
    let data = [10u8, 20, 30, 40, 50];
    let mut reader = Reader::new(&data);
    assert!(!reader.is_empty());
    assert_eq!(reader.next(), Some(10));
    assert_eq!(reader.next_n(2), &[20, 30][..]);
    assert_eq!(reader.remaining(), &[40, 50][..]);
    assert_eq!(reader.next_n(9), &[40, 50][..]);
    assert!(reader.is_empty());
    assert_eq!(reader.next(), None);
    assert_eq!(reader.next_n(3), &[] as &[u8]);
    assert_eq!(reader.remaining(), &[] as &[u8]);
}
