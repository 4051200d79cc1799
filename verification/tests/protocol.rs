use playground_common::protocol::{decode_lock_id, decode_request, encode_request, Command, FRAME_LEN};

#[test]
fn command_bytes_are_r_w_u() {
    assert_eq!(Command::Read.to_byte(), b'r');
    assert_eq!(Command::Write.to_byte(), b'w');
    assert_eq!(Command::Unlock.to_byte(), b'u');
}

#[test]
fn command_from_byte_accepts_only_three_bytes() {
    assert_eq!(Command::from_byte(b'r'), Some(Command::Read));
    assert_eq!(Command::from_byte(b'w'), Some(Command::Write));
    assert_eq!(Command::from_byte(b'u'), Some(Command::Unlock));
    assert_eq!(Command::from_byte(b'x'), None);
    assert_eq!(Command::from_byte(0), None);
    assert_eq!(Command::from_byte(b'R'), None);
}

#[test]
fn every_byte_roundtrips_when_it_decodes() {
    for b in 0..=255u8 {
        if let Some(c) = Command::from_byte(b) {
            assert_eq!(c.to_byte(), b);
        }
    }
}

#[test]
fn encode_request_is_big_endian() {
    assert_eq!(encode_request(Command::Read, 0x0102_0304), vec![b'r', 1, 2, 3, 4]);
    assert_eq!(encode_request(Command::Write, 7), vec![b'w', 0, 0, 0, 7]);
    assert_eq!(encode_request(Command::Unlock, u32::MAX), vec![b'u', 255, 255, 255, 255]);
    assert_eq!(encode_request(Command::Read, 0).len(), FRAME_LEN);
}

#[test]
fn encode_matches_to_be_bytes() {
    for id in [0u32, 1, 255, 256, 65535, 65536, 0x00ff_ff00, 123_456_789, u32::MAX] {
        let frame = encode_request(Command::Write, id);
        assert_eq!(&frame[1..], &id.to_be_bytes());
    }
}

#[test]
fn decode_lock_id_is_big_endian() {
    assert_eq!(decode_lock_id(0, 0, 1, 0), 256);
    assert_eq!(decode_lock_id(0x12, 0x34, 0x56, 0x78), 0x1234_5678);
    assert_eq!(decode_lock_id(255, 255, 255, 255), u32::MAX);
}

#[test]
fn frame_roundtrip() {
    for c in [Command::Read, Command::Write, Command::Unlock] {
        for id in [0u32, 42, 0xdead_beef, u32::MAX] {
            assert_eq!(decode_request(&encode_request(c, id)), Some((c, id)));
        }
    }
}

#[test]
fn decode_rejects_bad_frames() {
    assert_eq!(decode_request(&[]), None);
    assert_eq!(decode_request(&[b'r', 0, 0, 0]), None);
    assert_eq!(decode_request(&[b'r', 0, 0, 0, 1, 2]), None);
    assert_eq!(decode_request(&[b'q', 0, 0, 0, 1]), None);
    assert_eq!(decode_request(&[b'u', 0, 0, 0, 9]), Some((Command::Unlock, 9)));
}
