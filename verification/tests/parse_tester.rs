use sbus::SBusPacket;
use sbus::SBusPacketParser;

// The scenario vector: a stray null byte, then one valid 25-byte frame.
fn golden_bytes() -> [u8; 26] {
    [
        0x00, 0x0F, 0xE0, 0x03, 0x1F, 0x58, 0xC0, 0x07, 0x16, 0xB0, 0x80, 0x05, 0x2C, 0x60, 0x01,
        0x0B, 0xF8, 0xC0, 0x07, 0x00, 0x00, 0x00, 0x00, 0x00, 0x03, 0x00,
    ]
}

fn golden_packet() -> SBusPacket {
    SBusPacket {
        channels: [992, 992, 352, 992, 352, 352, 352, 352, 352, 352, 992, 992, 0, 0, 0, 0],
        d1: true,
        d2: true,
        failsafe: false,
        frame_lost: false,
    }
}

#[test]
fn test_sbus_parse_original() {
    let mut parser = SBusPacketParser::new();

    let bytes = golden_bytes();

    let (parsed, _) = parser.push_bytes(&bytes);

    assert_eq!(golden_packet(), parsed.unwrap());
}

#[test]
fn test_sbus_parse_bitvec() {
    let mut parser = SBusPacketParser::new();

    let bytes = golden_bytes();

    let (parsed, _) = parser.push_bytes(&bytes);

    assert_eq!(golden_packet(), parsed.unwrap());
}

#[test]
fn test_sbus_parse_same() {
    let mut parser = SBusPacketParser::new();

    let bytes = golden_bytes();

    let (parsed_1, _) = parser.push_bytes(&bytes);

    let (parsed_2, _) = parser.push_bytes(&bytes);

    assert_eq!(parsed_1.unwrap(), parsed_2.unwrap());
}
