use aunisoma::decode::{decode_radio_frame, radio_payload_len, SerialReceiver};
use aunisoma::hex::{parse_hex_byte, parse_hex_bytes};
use aunisoma::packet::Packet;
use aunisoma::protocol::{Address, Message, MAX_PAYLOAD_SIZE};

fn packet(from: u8, to: u8, tag: Message, data: &[u8]) -> Packet {
    let mut p = Packet::new(Address(from), Address(to), tag);
    p.push_data(data);
    p
}

fn same(a: &Packet, b: &Packet) -> bool {
    a.from == b.from && a.to == b.to && a.tag == b.tag && a.payload() == b.payload()
}

fn feed(rx: &mut SerialReceiver, bytes: &[u8]) -> Vec<Packet> {
    let mut out = Vec::new();
    for &b in bytes {
        if let Some(p) = rx.push_byte(b) {
            out.push(p);
        }
    }
    out
}

#[test]
fn hex_byte_examples() {
    assert_eq!(parse_hex_byte(b"ff"), Some(255));
    assert_eq!(parse_hex_byte(b"fg"), None);
    assert_eq!(parse_hex_byte(b"f"), None);
    assert_eq!(parse_hex_byte(b"0A"), Some(10));
    assert_eq!(parse_hex_byte(b"+f"), None);
    assert_eq!(parse_hex_byte(b"fff"), None);
}

#[test]
fn hex_bytes_examples() {
    assert_eq!(parse_hex_bytes(b"04080a"), Some(vec![4, 8, 10]));
    assert_eq!(parse_hex_bytes(b""), Some(vec![]));
    assert_eq!(parse_hex_bytes(b"040"), None);
    assert_eq!(parse_hex_bytes(b"04zz"), None);
}

#[test]
fn serial_format_layout() {
    let p = packet(3, 9, Message::SetColor, &[1, 2, 3]);
    let mut buf = [0u8; MAX_PAYLOAD_SIZE + 8];
    let frame = p.serial_wire_format(&mut buf);
    assert_eq!(frame, &[0x55, 0xAA, 9, 5, 3, b'C', 1, 2, 3, b'C']);
}

#[test]
fn radio_format_layout() {
    let p = packet(3, 9, Message::Ping, &[7]);
    let mut buf = [0u8; MAX_PAYLOAD_SIZE + 8];
    let frame = p.radio_wire_format(&mut buf);
    assert_eq!(frame, &[4, 9, 3, b'P', 7]);
}

#[test]
fn serial_round_trip() {
    let data: Vec<u8> = (0..MAX_PAYLOAD_SIZE as u8).collect();
    for len in [0usize, 1, 18, MAX_PAYLOAD_SIZE] {
        let p = packet(4, 8, Message::Test, &data[..len]);
        let mut buf = [0u8; MAX_PAYLOAD_SIZE + 8];
        let frame = p.serial_wire_format(&mut buf).to_vec();
        let mut rx = SerialReceiver::new(Address(8));
        let got = feed(&mut rx, &frame);
        assert_eq!(got.len(), 1);
        assert!(same(&got[0], &p));
    }
}

#[test]
fn serial_broadcast_accepted_other_address_ignored() {
    let mut buf = [0u8; MAX_PAYLOAD_SIZE + 8];
    let to_all = packet(1, 0xFF, Message::Ping, &[]);
    let frame = to_all.serial_wire_format(&mut buf).to_vec();
    let mut rx = SerialReceiver::new(Address(8));
    assert_eq!(feed(&mut rx, &frame).len(), 1);
    let to_other = packet(1, 9, Message::Ping, &[]);
    let frame = to_other.serial_wire_format(&mut buf).to_vec();
    assert_eq!(feed(&mut rx, &frame).len(), 0);
}

#[test]
fn serial_resync_after_corrupted_sentinel() {
    let p = packet(2, 8, Message::MapPanels, &[4, 8, 10]);
    let mut buf = [0u8; MAX_PAYLOAD_SIZE + 8];
    let frame = p.serial_wire_format(&mut buf).to_vec();
    let mut stream = vec![0x55, 0x00, 0x13, 0x55, 0x55];
    stream.extend_from_slice(&frame);
    let mut rx = SerialReceiver::new(Address(8));
    let got = feed(&mut rx, &stream);
    assert_eq!(got.len(), 1);
    assert!(same(&got[0], &p));
}

#[test]
fn serial_bad_length_tag_or_check_dropped() {
    let mut rx = SerialReceiver::new(Address(8));
    assert!(feed(&mut rx, &[0x55, 0xAA, 8, 1, 2, b'P', b'C']).is_empty());
    assert!(feed(&mut rx, &[0x55, 0xAA, 8, 64, 2, b'P', b'C']).is_empty());
    assert!(feed(&mut rx, &[0x55, 0xAA, 8, 2, 2, b'x', b'C']).is_empty());
    assert!(feed(&mut rx, &[0x55, 0xAA, 8, 2, 2, b'P', b'D']).is_empty());
    assert_eq!(feed(&mut rx, &[0x55, 0xAA, 8, 2, 2, b'P', b'C']).len(), 1);
}

#[test]
fn radio_round_trip() {
    let p = packet(4, 0xFF, Message::SetColor, &[1, 2, 3, 4, 5, 6]);
    let mut buf = [0u8; MAX_PAYLOAD_SIZE + 8];
    let frame = p.radio_wire_format(&mut buf).to_vec();
    assert_eq!(radio_payload_len(frame[0]), Some(6));
    let got = decode_radio_frame(&frame, Address(8)).unwrap();
    assert!(same(&got, &p));
}

#[test]
fn radio_rejects_bad_frames() {
    assert!(decode_radio_frame(&[3, 8, 1], Address(8)).is_none());
    assert!(decode_radio_frame(&[4, 8, 1, b'P'], Address(8)).is_none());
    assert!(decode_radio_frame(&[3, 8, 1, b'z'], Address(8)).is_none());
    assert!(decode_radio_frame(&[3, 9, 1, b'P'], Address(8)).is_none());
    assert!(decode_radio_frame(&[3, 8, 1, b'P'], Address(8)).is_some());
    assert_eq!(radio_payload_len(2), None);
    assert_eq!(radio_payload_len(65), None);
}

#[test]
fn message_tags_round_trip() {
    for tag in [
        Message::Ping,
        Message::SetColor,
        Message::MapPanels,
        Message::Reset,
        Message::SetStatus,
        Message::Test,
        Message::PingReply,
        Message::SetColorReply,
        Message::MapPanelsReply,
    ] {
        assert_eq!(Message::from_byte(tag.to_byte()), Some(tag));
    }
    assert_eq!(Message::from_byte(b'x'), None);
}
