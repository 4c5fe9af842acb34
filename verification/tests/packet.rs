use pnet::packet::icmp::echo_reply::MutableEchoReplyPacket;
use pnet::packet::icmp::echo_request::EchoRequestPacket;
use pnet::packet::icmp::{IcmpPacket, IcmpTypes};
use pnet::packet::{FromPacket, Packet};
use sysutils::checksum::{checksum, verify_checksum};
use sysutils::packet::{
    decode_echo_reply, encode_echo_request, DecodingError, EchoRequest, EncodingError,
    ECHO_REPLY_TYPE, ECHO_REQUEST_TYPE, HEADER_LEN,
};

#[test]
fn encodes_the_header_in_network_order() {
    let mut buf = [0xAAu8; 16];
    let n = encode_echo_request(0x1234, 0x0102, b"ping", &mut buf).unwrap();
    assert_eq!(n, 12);
    assert_eq!(buf[0], 8);
    assert_eq!(buf[1], 0);
    assert_eq!(&buf[4..8], &[0x12, 0x34, 0x01, 0x02]);
    assert_eq!(&buf[8..12], b"ping");
    // The rest of the buffer is left alone.
    assert_eq!(&buf[12..], &[0xAA; 4]);
}

#[test]
fn encodes_the_expected_checksum() {
    let mut buf = [0u8; 8];
    let n = encode_echo_request(1, 1, &[], &mut buf).unwrap();
    assert_eq!(n, 8);
    // Words: 0x0800 + 0x0000 + 0x0001 + 0x0001 = 0x0802; complement 0xF7FD.
    assert_eq!(buf, [8, 0, 0xF7, 0xFD, 0, 1, 0, 1]);
}

#[test]
fn encoded_checksum_is_that_of_the_message_with_a_zero_field() {
    let payload: Vec<u8> = (0..41u8).collect();
    let mut buf = vec![0u8; 64];
    let n = encode_echo_request(0xBEEF, 7, &payload, &mut buf).unwrap();
    let stored = u16::from_be_bytes([buf[2], buf[3]]);
    let mut zeroed = buf[..n].to_vec();
    zeroed[2] = 0;
    zeroed[3] = 0;
    assert_eq!(stored, checksum(&zeroed));
}

#[test]
fn encoded_request_validates() {
    for len in 0..40usize {
        let payload: Vec<u8> = (0..len).map(|i| (i * 7 + 3) as u8).collect();
        let mut buf = vec![0u8; 64];
        let n = encode_echo_request(0xFFFF, len as u16, &payload, &mut buf).unwrap();
        assert!(verify_checksum(&buf[..n]));
    }
}

#[test]
fn flipping_a_payload_bit_breaks_validation() {
    let payload = b"abcdefghijklmnopqrstuvw";
    let mut buf = vec![0u8; 64];
    let n = encode_echo_request(77, 5, payload, &mut buf).unwrap();
    let sent = buf[..n].to_vec();
    for i in HEADER_LEN..n {
        for bit in 0..8 {
            let mut damaged = sent.clone();
            damaged[i] ^= 1 << bit;
            assert!(!verify_checksum(&damaged));
            assert_ne!(checksum(&damaged), checksum(&sent));
        }
    }
}

#[test]
fn pnet_reads_back_what_was_encoded() {
    let payload = b"hello, world";
    let mut buf = vec![0u8; 64];
    let n = encode_echo_request(0xCAFE, 513, payload, &mut buf).unwrap();
    let packet = EchoRequestPacket::new(&buf[..n]).unwrap();
    assert_eq!(packet.get_icmp_type(), IcmpTypes::EchoRequest);
    assert_eq!(packet.get_icmp_code().0, 0);
    assert_eq!(packet.get_identifier(), 0xCAFE);
    assert_eq!(packet.get_sequence_number(), 513);
    assert_eq!(packet.payload(), payload);
    let generic = IcmpPacket::new(&buf[..n]).unwrap();
    assert_eq!(packet.get_checksum(), pnet::packet::icmp::checksum(&generic));
}

#[test]
fn exact_fit_is_enough() {
    let mut buf = [0u8; 11];
    assert_eq!(encode_echo_request(1, 2, &[9, 9, 9], &mut buf), Ok(11));
}

#[test]
fn too_small_a_buffer_is_refused_and_left_alone() {
    let mut buf = [0x55u8; 10];
    assert_eq!(
        encode_echo_request(1, 2, &[9, 9, 9], &mut buf),
        Err(EncodingError::BufferTooSmall)
    );
    assert_eq!(buf, [0x55u8; 10]);
    let mut tiny = [0u8; 7];
    assert_eq!(encode_echo_request(1, 2, &[], &mut tiny), Err(EncodingError::BufferTooSmall));
    let mut none: [u8; 0] = [];
    assert_eq!(encode_echo_request(1, 2, &[], &mut none), Err(EncodingError::BufferTooSmall));
}

#[test]
fn request_struct_encodes_like_the_function() {
    let request = EchoRequest { identifier: 9, sequence: 10, payload: vec![1, 2, 3, 4, 5] };
    let mut a = [0u8; 32];
    let mut b = [0u8; 32];
    assert_eq!(request.encode(&mut a), encode_echo_request(9, 10, &[1, 2, 3, 4, 5], &mut b));
    assert_eq!(a, b);
}

#[test]
fn decodes_a_reply() {
    let raw = [0u8, 0, 0xAB, 0xCD, 0x12, 0x34, 0x00, 0x2A, b'o', b'k'];
    let reply = decode_echo_reply(&raw).unwrap();
    assert_eq!(reply.identifier, 0x1234);
    assert_eq!(reply.sequence, 42);
    assert_eq!(reply.payload, b"ok".to_vec());
    assert_eq!(reply.size, 10);
}

#[test]
fn decodes_a_reply_without_payload() {
    let raw = [0u8, 0, 0, 0, 0xFF, 0xFF, 0xFF, 0xFF];
    let reply = decode_echo_reply(&raw).unwrap();
    assert_eq!(reply.identifier, 0xFFFF);
    assert_eq!(reply.sequence, 0xFFFF);
    assert!(reply.payload.is_empty());
    assert_eq!(reply.size, 8);
}

#[test]
fn decodes_what_pnet_builds() {
    let mut buf = vec![0u8; 20];
    {
        let mut packet = MutableEchoReplyPacket::new(&mut buf).unwrap();
        packet.set_icmp_type(IcmpTypes::EchoReply);
        packet.set_identifier(4660);
        packet.set_sequence_number(99);
        packet.set_payload(b"0123456789ab");
    }
    let reply = decode_echo_reply(&buf).unwrap();
    assert_eq!(reply.identifier, 4660);
    assert_eq!(reply.sequence, 99);
    assert_eq!(reply.payload, b"0123456789ab".to_vec());
    assert_eq!(reply.size, 20);
}

#[test]
fn short_input_is_truncated() {
    for len in 0..HEADER_LEN {
        let raw = vec![0u8; len];
        assert_eq!(decode_echo_reply(&raw).err(), Some(DecodingError::Truncated));
    }
}

#[test]
fn other_types_and_codes_are_not_replies() {
    let mut raw = [0u8; 8];
    raw[0] = 3;
    assert_eq!(decode_echo_reply(&raw).err(), Some(DecodingError::NotEchoReply));
    raw[0] = ECHO_REPLY_TYPE;
    raw[1] = 1;
    assert_eq!(decode_echo_reply(&raw).err(), Some(DecodingError::NotEchoReply));
}

#[test]
fn an_encoded_request_never_decodes_as_a_reply() {
    for (identifier, sequence, len) in [(0u16, 0u16, 0usize), (1, 1, 1), (0xFFFF, 0xFFFF, 56)] {
        let payload = vec![0x5Au8; len];
        let mut buf = vec![0u8; 64];
        let n = encode_echo_request(identifier, sequence, &payload, &mut buf).unwrap();
        assert_eq!(buf[0], ECHO_REQUEST_TYPE);
        assert_eq!(decode_echo_reply(&buf[..n]).err(), Some(DecodingError::NotEchoReply));
    }
}

#[test]
fn a_request_turned_reply_gives_its_fields_back() {
    let payload = b"round trip";
    let mut buf = vec![0u8; 64];
    let n = encode_echo_request(321, 654, payload, &mut buf).unwrap();
    buf[0] = ECHO_REPLY_TYPE;
    let reply = decode_echo_reply(&buf[..n]).unwrap();
    assert_eq!(reply.identifier, 321);
    assert_eq!(reply.sequence, 654);
    assert_eq!(reply.payload, payload.to_vec());
    assert_eq!(reply.size, n);
}

#[test]
fn reply_size_is_what_pnet_calls_the_packet_size() {
    for len in 0..30usize {
        let mut raw = vec![0u8; HEADER_LEN + len];
        raw[5] = 1;
        raw[7] = len as u8;
        let reply = decode_echo_reply(&raw).unwrap();
        let packet = IcmpPacket::new(&raw).unwrap();
        assert_eq!(reply.size, IcmpPacket::packet_size(&packet.from_packet()));
        assert_eq!(&reply.payload[..], &packet.payload()[4..]);
    }
}
