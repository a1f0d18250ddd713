use microbit_radio_bridge::{Packet, PacketBuffer, PacketData, MAX_DATA_SIZE, MAX_PACKET_SIZE};

fn data(id: u8, bytes: &[u8]) -> PacketData {
    let mut d = [0u8; MAX_DATA_SIZE];
    d[..bytes.len()].copy_from_slice(bytes);
    PacketData {
        id,
        data_len: bytes.len() as u8,
        data: d,
    }
}

fn payload(pd: &PacketData) -> Vec<u8> {
    pd.iter().copied().collect()
}

fn encode(p: &Packet) -> PacketBuffer {
    let mut buf = [0xEEu8; MAX_PACKET_SIZE];
    p.write(&mut buf);
    buf
}

#[test]
fn ack_encodes_to_three_bytes() {
    let buf = encode(&Packet::Ack(7));
    assert_eq!(&buf[..3], &[3, b'A', 7]);
    assert_eq!(buf[3], 0xEE);
}

#[test]
fn data_encodes_with_length_tag_and_id() {
    let buf = encode(&Packet::Data(data(5, b"ABC")));
    assert_eq!(&buf[..6], &[6, b'D', 5, 0x41, 0x42, 0x43]);
    assert_eq!(buf[6], 0xEE);
}

#[test]
fn both_encodes_ack_then_id() {
    let buf = encode(&Packet::Both(9, data(4, b"YZ")));
    assert_eq!(&buf[..6], &[6, b'X', 9, 4, b'Y', b'Z']);
}

#[test]
fn decode_ack() {
    match Packet::read(&[3, b'A', 42]) {
        Some(Packet::Ack(a)) => assert_eq!(a, 42),
        other => panic!("unexpected {:?}", other),
    }
}

#[test]
fn round_trip_data_zero_length() {
    let buf = encode(&Packet::Data(data(1, b"")));
    assert_eq!(&buf[..3], &[3, b'D', 1]);
    match Packet::read(&buf) {
        Some(Packet::Data(pd)) => {
            assert_eq!(pd.id, 1);
            assert_eq!(pd.data_len, 0);
        }
        other => panic!("unexpected {:?}", other),
    }
}

#[test]
fn round_trip_data_max_length() {
    let bytes: Vec<u8> = (0..MAX_DATA_SIZE as u8).collect();
    let buf = encode(&Packet::Data(data(200, &bytes)));
    assert_eq!(buf[0] as usize, MAX_DATA_SIZE + 3);
    match Packet::read(&buf) {
        Some(Packet::Data(pd)) => {
            assert_eq!(pd.id, 200);
            assert_eq!(payload(&pd), bytes);
        }
        other => panic!("unexpected {:?}", other),
    }
}

#[test]
fn round_trip_both_max_length() {
    let bytes: Vec<u8> = (100..100 + MAX_DATA_SIZE as u8).collect();
    let buf = encode(&Packet::Both(3, data(255, &bytes)));
    assert_eq!(buf[0] as usize, MAX_PACKET_SIZE);
    match Packet::read(&buf) {
        Some(Packet::Both(a, pd)) => {
            assert_eq!(a, 3);
            assert_eq!(pd.id, 255);
            assert_eq!(payload(&pd), bytes);
        }
        other => panic!("unexpected {:?}", other),
    }
}

#[test]
fn encode_of_decode_gives_bytes_back() {
    let frames: [&[u8]; 3] = [&[3, b'A', 1], &[5, b'D', 2, 9, 8], &[6, b'X', 3, 4, 7, 7]];
    for b in frames {
        let p = Packet::read(b).expect("well formed");
        let mut buf = [0u8; MAX_PACKET_SIZE];
        p.write(&mut buf);
        assert_eq!(&buf[..b.len()], b);
    }
}

#[test]
fn decode_rejects_unknown_tag() {
    assert!(Packet::read(&[3, b'Q', 1]).is_none());
}

#[test]
fn decode_rejects_short_length() {
    assert!(Packet::read(&[2, b'A', 1]).is_none());
    assert!(Packet::read(&[]).is_none());
}

#[test]
fn decode_rejects_long_length() {
    let mut buf = [0u8; 80];
    buf[0] = 65;
    buf[1] = b'X';
    assert!(Packet::read(&buf).is_none());
}

#[test]
fn decode_rejects_truncated_payload() {
    assert!(Packet::read(&[6, b'D', 1, 2]).is_none());
}

#[test]
fn decode_rejects_oversized_data_payload() {
    let mut buf = [0u8; MAX_PACKET_SIZE];
    buf[0] = MAX_PACKET_SIZE as u8;
    buf[1] = b'D';
    assert!(Packet::read(&buf).is_none());
}

#[test]
fn decode_rejects_both_without_id() {
    assert!(Packet::read(&[3, b'X', 1]).is_none());
}
