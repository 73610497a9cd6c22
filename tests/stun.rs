use bincode::Options;
use stun_server::message::{Headers, IpAddress, SocketAddress};
use stun_server::stun_handler::{
    error_response, error_response420, process_request, success_response, validate_headers,
};

const TID: [u8; 12] = [0xec, 0xcb, 0x9a, 0x1a, 0xaa, 0xa9, 0xcd, 0x09, 0, 0, 0, 0];

fn v4(octets: [u8; 4], port: u16) -> SocketAddress {
    SocketAddress { ip: IpAddress::V4(octets), port }
}

fn v6(octets: [u8; 16], port: u16) -> SocketAddress {
    SocketAddress { ip: IpAddress::V6(octets), port }
}

fn request(message_type: u16, cookie: u32, tid: [u8; 12]) -> Vec<u8> {
    let mut out = Vec::new();
    out.extend_from_slice(&message_type.to_be_bytes());
    out.extend_from_slice(&[0, 0]);
    out.extend_from_slice(&cookie.to_be_bytes());
    out.extend_from_slice(&tid);
    out
}

fn u16_at(bytes: &[u8], at: usize) -> u16 {
    u16::from_be_bytes([bytes[at], bytes[at + 1]])
}

fn u32_at(bytes: &[u8], at: usize) -> u32 {
    u32::from_be_bytes([bytes[at], bytes[at + 1], bytes[at + 2], bytes[at + 3]])
}

const BAD_REQUEST_RESPONSE: [u8; 40] = [
    0x01, 0x11, 0x00, 0x14, 0x21, 0x12, 0xa4, 0x42, 0, 0, 0, 0, 0, 0, 0, 0, 0, 0, 0, 0, 0x00,
    0x09, 0x00, 0x10, 0x00, 0x00, 0x04, 0x00, b'B', b'a', b'd', b' ', b'r', b'e', b'q', b'u', b'e',
    b's', b't', b'.',
];

#[test]
fn ipv4_binding_request_example() {
    let buffer = [
        0x00, 0x01, 0x00, 0x00, 0x21, 0x12, 0xa4, 0x42, 0xec, 0xcb, 0x9a, 0x1a, 0xaa, 0xa9, 0xcd,
        0x09, 0x00, 0x00, 0x00, 0x00,
    ];
    assert_eq!(u16_at(&buffer, 0), 0x0001);
    let response = process_request(&buffer, v4([127, 0, 0, 1], 45321));
    assert_eq!(
        response,
        vec![
            0x01, 0x01, 0x00, 0x0c, 0x21, 0x12, 0xa4, 0x42, 0xec, 0xcb, 0x9a, 0x1a, 0xaa, 0xa9,
            0xcd, 0x09, 0x00, 0x00, 0x00, 0x00, 0x00, 0x20, 0x00, 0x08, 0x00, 0x01, 0x90, 0x1b,
            0x5e, 0x12, 0xa4, 0x43,
        ]
    );
    let port = u16_at(&response, 26) ^ 0x2112;
    let address = u32_at(&response, 28) ^ 0x2112_a442;
    assert_eq!(port, 45321);
    assert_eq!(address.to_be_bytes(), [127, 0, 0, 1]);
}

#[test]
fn ipv4_round_trip_for_several_peers() {
    let peers = [([0, 0, 0, 0], 0u16), ([255, 255, 255, 255], 65535), ([10, 1, 2, 3], 3478)];
    for (octets, port) in peers {
        let response = process_request(&request(0x0001, 0x2112_a442, TID), v4(octets, port));
        assert_eq!(response.len(), 32);
        assert_eq!(u16_at(&response, 26), port ^ 0x2112);
        assert_eq!(u32_at(&response, 28), u32::from_be_bytes(octets) ^ 0x2112_a442);
        assert_eq!(u16_at(&response, 26) ^ 0x2112, port);
        assert_eq!((u32_at(&response, 28) ^ 0x2112_a442).to_be_bytes(), octets);
    }
}

#[test]
fn ipv6_binding_request_masks_with_cookie_and_transaction_id() {
    let octets = [0x20, 0x01, 0x0d, 0xb8, 0, 0, 0, 0, 0, 0, 0, 0, 0, 0, 0, 0x01];
    let response = process_request(&request(0x0001, 0x2112_a442, TID), v6(octets, 8080));
    let mut expected = vec![0x01, 0x01, 0x00, 0x18, 0x21, 0x12, 0xa4, 0x42];
    expected.extend_from_slice(&TID);
    expected.extend_from_slice(&[0x00, 0x20, 0x00, 0x14, 0x00, 0x02, 0x3e, 0x82]);
    expected.extend_from_slice(&[
        0x01, 0x13, 0xa9, 0xfa, 0xec, 0xcb, 0x9a, 0x1a, 0xaa, 0xa9, 0xcd, 0x09, 0x00, 0x00, 0x00,
        0x01,
    ]);
    assert_eq!(response, expected);
    let mut sent = [0u8; 16];
    sent.copy_from_slice(&response[28..44]);
    let mask = (0x2112_a442u128 << 96) | 0xeccb_9a1a_aaa9_cd09_0000_0000u128;
    assert_eq!((u128::from_be_bytes(sent) ^ mask).to_be_bytes(), octets);
    assert_eq!(u16_at(&response, 26) ^ 0x2112, 8080);
}

#[test]
fn ipv6_mask_changes_with_transaction_id() {
    let octets = [0u8; 16];
    let tid = [1, 2, 3, 4, 5, 6, 7, 8, 9, 10, 11, 12];
    let response = process_request(&request(0x0001, 0x2112_a442, tid), v6(octets, 0));
    assert_eq!(&response[28..32], &[0x21, 0x12, 0xa4, 0x42]);
    assert_eq!(&response[32..44], &tid);
}

#[test]
fn empty_buffer_is_bad_request() {
    let response = process_request(&[], v4([127, 0, 0, 1], 1));
    assert_eq!(response, BAD_REQUEST_RESPONSE.to_vec());
    assert_eq!(u16_at(&response, 0), 0x0111);
    assert_eq!(response[26] as u16 * 100 + response[27] as u16, 400);
}

#[test]
fn nineteen_bytes_is_bad_request() {
    let buffer = &request(0x0001, 0x2112_a442, TID)[..19];
    let response = process_request(buffer, v6([0; 16], 1));
    assert_eq!(response, BAD_REQUEST_RESPONSE.to_vec());
}

#[test]
fn twenty_bytes_is_enough() {
    let response = process_request(&request(0x0001, 0x2112_a442, TID), v4([1, 2, 3, 4], 5));
    assert_eq!(u16_at(&response, 0), 0x0101);
}

#[test]
fn wrong_type_is_error420_with_type_echoed() {
    let response = process_request(&request(0x0002, 0x2112_a442, TID), v4([127, 0, 0, 1], 1));
    let mut expected = vec![0x01, 0x11, 0x00, 0x10, 0x21, 0x12, 0xa4, 0x42];
    expected.extend_from_slice(&TID);
    expected.extend_from_slice(&[0x00, 0x0a, 0x00, 0x0c, 0, 0, 4, 20, 0, 2, 0, 0, 0, 0, 0, 0]);
    assert_eq!(response, expected);
}

#[test]
fn wrong_cookie_is_error420_with_cookie_halves() {
    let response = process_request(&request(0x0001, 0xdead_beef, TID), v4([127, 0, 0, 1], 1));
    assert_eq!(u16_at(&response, 0), 0x0111);
    assert_eq!(u16_at(&response, 20), 0x000a);
    assert_eq!(&response[24..28], &[0, 0, 4, 20]);
    assert_eq!(u16_at(&response, 28), 0xdead);
    assert_eq!(u16_at(&response, 30), 0xbeef);
    assert_eq!(&response[32..36], &[0, 0, 0, 0]);
}

#[test]
fn wrong_type_is_reported_before_wrong_cookie() {
    let response = process_request(&request(0x0101, 0xdead_beef, TID), v4([127, 0, 0, 1], 1));
    assert_eq!(u16_at(&response, 28), 0x0101);
    assert_eq!(&response[30..36], &[0, 0, 0, 0, 0, 0]);
}

#[test]
fn transaction_id_is_echoed_in_every_response() {
    let tid = [9, 8, 7, 6, 5, 4, 3, 2, 1, 0, 0xff, 0x80];
    let cases = [
        request(0x0001, 0x2112_a442, tid),
        request(0x0003, 0x2112_a442, tid),
        request(0x0001, 0, tid),
    ];
    for buffer in cases.iter() {
        let response = process_request(buffer, v4([192, 168, 0, 1], 40000));
        assert_eq!(&response[8..20], &tid);
    }
}

#[test]
fn bytes_after_the_header_are_ignored() {
    let mut buffer = request(0x0001, 0x2112_a442, TID);
    buffer.extend_from_slice(&[0x00, 0x06, 0x00, 0x04, 1, 2, 3, 4]);
    buffer.resize(576, 0xaa);
    let response = process_request(&buffer, v4([127, 0, 0, 1], 45321));
    assert_eq!(response, process_request(&buffer[..20], v4([127, 0, 0, 1], 45321)));
}

#[test]
fn length_fields_are_derived_from_the_body() {
    let responses = [
        process_request(&[], v4([1, 1, 1, 1], 1)),
        process_request(&request(0x0001, 0x2112_a442, TID), v4([1, 1, 1, 1], 1)),
        process_request(&request(0x0001, 0x2112_a442, TID), v6([1; 16], 1)),
        process_request(&request(0x0007, 0x2112_a442, TID), v6([1; 16], 1)),
    ];
    for response in responses.iter() {
        assert_eq!(u16_at(response, 2) as usize, response.len() - 20);
        assert_eq!(u16_at(response, 22) as usize, response.len() - 24);
        assert_eq!(u32_at(response, 4), 0x2112_a442);
    }
}

#[test]
fn error_response_pads_reason_to_four_bytes() {
    let response = error_response(500, String::from("Foo bar"), TID);
    let mut expected = vec![0x01, 0x11, 0x00, 0x10, 0x21, 0x12, 0xa4, 0x42];
    expected.extend_from_slice(&TID);
    expected.extend_from_slice(&[0x00, 0x09, 0x00, 0x0c, 0, 0, 5, 0]);
    expected.extend_from_slice(b"Foo bar");
    expected.push(0);
    assert_eq!(response, expected);
}

#[test]
fn error_response_padding_for_each_remainder() {
    for (reason, body) in [("", 4usize), ("a", 8), ("ab", 8), ("abc", 8), ("abcd", 8), ("abcde", 12)] {
        let response = error_response(300, String::from(reason), [0; 12]);
        assert_eq!(response.len(), 24 + body);
        assert_eq!(u16_at(&response, 22) as usize, body);
        assert_eq!(&response[24..28], &[0, 0, 3, 0]);
        assert!(response[28 + reason.len()..].iter().all(|b| *b == 0));
    }
}

#[test]
fn error_response_splits_class_and_number() {
    let response = error_response(699, String::from("x"), TID);
    assert_eq!(&response[24..28], &[0, 0, 6, 99]);
    let response = error_response(487, String::from("é"), TID);
    assert_eq!(&response[24..30], &[0, 0, 4, 87, 0xc3, 0xa9]);
    assert_eq!(&response[30..], &[0, 0]);
}

#[test]
fn error_response420_layout() {
    let response = error_response420([0x1212, 0, 0, 0], TID);
    let mut expected = vec![0x01, 0x11, 0x00, 0x10, 0x21, 0x12, 0xa4, 0x42];
    expected.extend_from_slice(&TID);
    expected.extend_from_slice(&[0x00, 0x0a, 0x00, 0x0c, 0, 0, 4, 20, 0x12, 0x12, 0, 0, 0, 0, 0, 0]);
    assert_eq!(response, expected);
}

#[test]
fn success_response_matches_bincode_layout() {
    let options = bincode::DefaultOptions::new()
        .with_big_endian()
        .with_fixint_encoding();
    let expected = options
        .serialize(&(
            0x0101u16,
            12u16,
            0x2112_a442u32,
            TID,
            0x0020u16,
            8u16,
            0u8,
            1u8,
            0x901bu16,
            0x5e12_a443u32,
        ))
        .unwrap();
    assert_eq!(success_response(v4([127, 0, 0, 1], 45321), TID), expected);
}

#[test]
fn error_response420_matches_bincode_layout() {
    let options = bincode::DefaultOptions::new()
        .with_big_endian()
        .with_fixint_encoding();
    let slots = [0xdeadu16, 0xbeef, 0, 0];
    let expected = options
        .serialize(&(0x0111u16, 16u16, 0x2112_a442u32, TID, 0x000au16, 12u16, [0u8, 0, 4, 20], slots))
        .unwrap();
    assert_eq!(error_response420(slots, TID), expected);
}

#[test]
fn validate_headers_outcomes() {
    let header = |message_type: u16, magic_cookie: u32| Headers {
        message_type,
        message_length: 0,
        magic_cookie,
        transaction_id: TID,
    };
    assert_eq!(validate_headers(header(0x0001, 0x2112_a442)), (true, [0, 0, 0, 0]));
    assert_eq!(validate_headers(header(0x0111, 0x2112_a442)), (false, [0x0111, 0, 0, 0]));
    assert_eq!(validate_headers(header(0x0001, 0x1234_5678)), (false, [0x1234, 0x5678, 0, 0]));
    assert_eq!(validate_headers(header(0x0002, 0x1234_5678)), (false, [0x0002, 0, 0, 0]));
}
