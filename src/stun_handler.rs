//! Validation of a request header, construction of the responses, and the
//! entry point that turns a received buffer into the bytes to send back.

use vstd::prelude::*;
use vstd::utf8::{encode_utf8, is_ascii_chars, is_ascii_chars_encode_utf8};
use crate::codec::{be_value, format_bytes16, format_bytes32, format_bytes96, u128_bytes, u16_bytes, u32_bytes};
use crate::message::{
    padding_len, zeros, Attribute, Error, Error420, Headers, IpAddress, SocketAddress,
    XorMappedAddressV4, XorMappedAddressV6, ATTRIBUTE_HEADER_LENGTH, BINDING_REQUEST,
    ERROR_ATTRIBUTE, ERROR_RESPONSE, HEADER_LENGTH, IPV4, IPV6, MAGIC_COOKIE, SUCCESS_RESPONSE,
    UNKNOWN_ATTRIBUTES, XOR_MAPPED_ADDRESS,
};

verus! {

/// Reason phrase of the response to a buffer too short to hold a header.
pub const BAD_REQUEST: &'static str = "Bad request.";

/// Whether a header with this type and cookie is a request this server answers.
pub open spec fn header_is_valid(message_type: u16, magic_cookie: u32) -> bool {
    message_type == BINDING_REQUEST && magic_cookie == MAGIC_COOKIE
}

/// The four slots reported for a header with this type and cookie: the type
/// when it is not a Binding request, else the two halves of a wrong cookie,
/// else nothing.
pub open spec fn unknown_attributes_of(message_type: u16, magic_cookie: u32) -> Seq<u16> {
    if message_type != BINDING_REQUEST {
        seq![message_type, 0u16, 0u16, 0u16]
    } else if magic_cookie != MAGIC_COOKIE {
        seq![(magic_cookie >> 16u32) as u16, magic_cookie as u16, 0u16, 0u16]
    } else {
        seq![0u16, 0u16, 0u16, 0u16]
    }
}

/// Checks a header: type first, then cookie.
///
/// Returns whether the header is valid, and the unknown-attribute slots to
/// report when it is not.
pub fn validate_headers(headers: Headers) -> (r: (bool, [u16; 4]))
    ensures
        r.0 == header_is_valid(headers.message_type, headers.magic_cookie),
        r.1@ == unknown_attributes_of(headers.message_type, headers.magic_cookie),
{
    let r = if headers.message_type != BINDING_REQUEST {
        (false, [headers.message_type, 0, 0, 0])
    } else if headers.magic_cookie != MAGIC_COOKIE {
        (false, [(headers.magic_cookie >> 16u32) as u16, headers.magic_cookie as u16, 0, 0])
    } else {
        (true, [0, 0, 0, 0])
    };
    assert(r.1@ =~= unknown_attributes_of(headers.message_type, headers.magic_cookie));
    r
}

/// A whole message on the wire: header with the derived length, attribute
/// header with the derived length, then the attribute body.
pub open spec fn message(
    message_type: u16,
    transaction_id: Seq<u8>,
    attribute_type: u16,
    body: Seq<u8>,
) -> Seq<u8> {
    u16_bytes(message_type) + u16_bytes((ATTRIBUTE_HEADER_LENGTH + body.len()) as u16) + u32_bytes(
        MAGIC_COOKIE,
    ) + transaction_id + u16_bytes(attribute_type) + u16_bytes(body.len() as u16) + body
}

/// The port as the mapped-address attribute carries it.
pub open spec fn x_port(port: u16) -> u16 {
    port ^ ((MAGIC_COOKIE >> 16u32) as u16)
}

/// The mask of an IPv6 address: the cookie in the high 32 bits, the
/// transaction id in the low 96.
pub open spec fn ipv6_mask(transaction_id: Seq<u8>) -> u128 {
    ((MAGIC_COOKIE as u128) << 96u128) | (be_value(transaction_id) as u128)
}

/// XOR-MAPPED-ADDRESS body for a peer.
pub open spec fn xor_mapped_body(peer: SocketAddress, transaction_id: Seq<u8>) -> Seq<u8> {
    match peer.ip {
        IpAddress::V4(octets) => seq![0u8, IPV4] + u16_bytes(x_port(peer.port)) + u32_bytes(
            (be_value(octets@) as u32) ^ MAGIC_COOKIE,
        ),
        IpAddress::V6(octets) => seq![0u8, IPV6] + u16_bytes(x_port(peer.port)) + u128_bytes(
            (be_value(octets@) as u128) ^ ipv6_mask(transaction_id),
        ),
    }
}

/// ERROR-CODE body: class, number, reason in UTF-8, zero padding.
pub open spec fn error_body(error_code: nat, reason: Seq<char>) -> Seq<u8> {
    let text = encode_utf8(reason);
    seq![0u8, 0u8, (error_code / 100) as u8, (error_code % 100) as u8] + text + zeros(
        padding_len(text.len()),
    )
}

/// UNKNOWN-ATTRIBUTES error body: code 420 and the four slots.
pub open spec fn error420_body(unknown_attributes: Seq<u16>) -> Seq<u8> {
    seq![0u8, 0u8, 4u8, 20u8] + u16_bytes(unknown_attributes[0]) + u16_bytes(
        unknown_attributes[1],
    ) + u16_bytes(unknown_attributes[2]) + u16_bytes(unknown_attributes[3])
}

/// Frames an attribute body: derives both length fields from the body, then
/// writes header, attribute header and body in that order.
fn serialize(body: &Vec<u8>, attribute: Attribute, headers: Headers) -> (r: Vec<u8>)
    requires
        ATTRIBUTE_HEADER_LENGTH + body@.len() <= 0xffff,
    ensures
        r@ == ({
            let h = Headers {
                message_length: (ATTRIBUTE_HEADER_LENGTH + body@.len()) as u16,
                ..headers
            };
            let a = Attribute { attribute_length: body@.len() as u16, ..attribute };
            h.spec_bytes() + a.spec_bytes() + body@
        }),
{
    let mut attribute = attribute;
    let mut headers = headers;
    attribute.attribute_length = body.len() as u16;
    headers.message_length = (ATTRIBUTE_HEADER_LENGTH + body.len()) as u16;
    let mut out: Vec<u8> = Vec::new();
    headers.write_to(&mut out);
    attribute.write_to(&mut out);
    crate::codec::push_bytes(&mut out, body.as_slice());
    out
}

/// Builds the success response to a Binding request from `socket_address`.
pub fn success_response(socket_address: SocketAddress, transaction_id: [u8; 12]) -> (r: Vec<u8>)
    ensures
        r@ == message(
            SUCCESS_RESPONSE,
            transaction_id@,
            XOR_MAPPED_ADDRESS,
            xor_mapped_body(socket_address, transaction_id@),
        ),
{
    let x_port = socket_address.port ^ ((MAGIC_COOKIE >> 16u32) as u16);
    let headers = Headers {
        message_type: SUCCESS_RESPONSE,
        message_length: 0,
        magic_cookie: MAGIC_COOKIE,
        transaction_id,
    };
    let attribute = Attribute { attribute_type: XOR_MAPPED_ADDRESS, attribute_length: 0 };
    let body = match socket_address.ip {
        IpAddress::V6(octets) => {
            let xor_mapped_address = XorMappedAddressV6 {
                reserved: 0x0,
                family: IPV6,
                x_port,
                x_address: crate::codec::format_bytes128(vstd::array::array_as_slice(&octets)) ^ (
                ((MAGIC_COOKIE as u128) << 96u128) | format_bytes96(&transaction_id)),
            };
            assert(octets@.subrange(0, 16) =~= octets@);
            xor_mapped_address.to_bytes()
        },
        IpAddress::V4(octets) => {
            let xor_mapped_address = XorMappedAddressV4 {
                reserved: 0x0,
                family: IPV4,
                x_port,
                x_address: format_bytes32(vstd::array::array_as_slice(&octets)) ^ MAGIC_COOKIE,
            };
            assert(octets@.subrange(0, 4) =~= octets@);
            xor_mapped_address.to_bytes()
        },
    };
    let r = serialize(&body, attribute, headers);
    assert(r@ =~= message(
        SUCCESS_RESPONSE,
        transaction_id@,
        XOR_MAPPED_ADDRESS,
        xor_mapped_body(socket_address, transaction_id@),
    ));
    r
}

/// Builds an error response with an ERROR-CODE attribute.
///
/// `error_code` is class times one hundred plus number; the reason is padded
/// with zero bytes to a multiple of four.
pub fn error_response(error_code: usize, reason: String, transaction_id: [u8; 12]) -> (r: Vec<u8>)
    requires
        300 <= error_code < 700,
        ATTRIBUTE_HEADER_LENGTH + error_body(error_code as nat, reason@).len() <= 0xffff,
    ensures
        r@ == message(
            ERROR_RESPONSE,
            transaction_id@,
            ERROR_ATTRIBUTE,
            error_body(error_code as nat, reason@),
        ),
{
    let error: [u8; 4] = [0, 0, (error_code / 100) as u8, (error_code % 100) as u8];
    let headers = Headers {
        message_type: ERROR_RESPONSE,
        message_length: 0,
        magic_cookie: MAGIC_COOKIE,
        transaction_id,
    };
    let attribute = Attribute { attribute_type: ERROR_ATTRIBUTE, attribute_length: 0 };
    let error = Error { error_code: error, reason };
    let body = error.to_bytes();
    assert(body@ =~= error_body(error_code as nat, error.reason@));
    let r = serialize(&body, attribute, headers);
    assert(r@ =~= message(
        ERROR_RESPONSE,
        transaction_id@,
        ERROR_ATTRIBUTE,
        error_body(error_code as nat, error.reason@),
    ));
    r
}

/// Builds an error response with code 420 and the four unknown-attribute
/// slots.
pub fn error_response420(unknown_attributes: [u16; 4], transaction_id: [u8; 12]) -> (r: Vec<u8>)
    ensures
        r@ == message(
            ERROR_RESPONSE,
            transaction_id@,
            UNKNOWN_ATTRIBUTES,
            error420_body(unknown_attributes@),
        ),
{
    let headers = Headers {
        message_type: ERROR_RESPONSE,
        message_length: 0,
        magic_cookie: MAGIC_COOKIE,
        transaction_id,
    };
    let attribute = Attribute { attribute_type: UNKNOWN_ATTRIBUTES, attribute_length: 0 };
    let error = Error420 { error_code: [0, 0, 4, 20], unknown_attributes };
    let body = error.to_bytes();
    assert(body@ =~= error420_body(unknown_attributes@));
    let r = serialize(&body, attribute, headers);
    assert(r@ =~= message(
        ERROR_RESPONSE,
        transaction_id@,
        UNKNOWN_ATTRIBUTES,
        error420_body(unknown_attributes@),
    ));
    r
}

/// Message type of the header at the start of `buffer`.
pub open spec fn request_type(buffer: Seq<u8>) -> u16 {
    be_value(buffer.subrange(0, 2)) as u16
}

/// Cookie of the header at the start of `buffer`.
pub open spec fn request_cookie(buffer: Seq<u8>) -> u32 {
    be_value(buffer.subrange(4, 8)) as u32
}

/// Transaction id of the header at the start of `buffer`.
pub open spec fn request_transaction_id(buffer: Seq<u8>) -> Seq<u8> {
    buffer.subrange(8, 20)
}

/// The response to `buffer` received from `peer`.
///
/// A buffer shorter than a header gets error 400 with a zero transaction id.
/// Otherwise the header's first twenty bytes are read and checked: a valid
/// Binding request gets the peer's mapped address, any other header gets
/// error 420 with the slots that `unknown_attributes_of` gives. Either way the
/// request's transaction id is echoed.
pub open spec fn response(buffer: Seq<u8>, peer: SocketAddress) -> Seq<u8> {
    if buffer.len() < HEADER_LENGTH {
        message(ERROR_RESPONSE, zeros(12), ERROR_ATTRIBUTE, error_body(400, BAD_REQUEST@))
    } else {
        let message_type = request_type(buffer);
        let magic_cookie = request_cookie(buffer);
        let transaction_id = request_transaction_id(buffer);
        if header_is_valid(message_type, magic_cookie) {
            message(
                SUCCESS_RESPONSE,
                transaction_id,
                XOR_MAPPED_ADDRESS,
                xor_mapped_body(peer, transaction_id),
            )
        } else {
            message(
                ERROR_RESPONSE,
                transaction_id,
                UNKNOWN_ATTRIBUTES,
                error420_body(unknown_attributes_of(message_type, magic_cookie)),
            )
        }
    }
}

/// The ERROR-CODE body of the short-buffer response.
proof fn lemma_bad_request_body()
    ensures
        error_body(400, BAD_REQUEST@).len() == 16,
{
    reveal_strlit("Bad request.");
    let chars = BAD_REQUEST@;
    assert(chars.len() == 12);
    assert forall|i: int| 0 <= i < chars.len() implies '\0' <= #[trigger] chars[i] <= '\u{7f}' by {
        assert(chars[i] == "Bad request."@[i]);
    }
    assert(is_ascii_chars(chars));
    is_ascii_chars_encode_utf8(chars);
}

/// Answers one received buffer: the bytes to send back to `socket_address`.
///
/// Total: every buffer, of any length, gets a response.
pub fn process_request(buffer: &[u8], socket_address: SocketAddress) -> (r: Vec<u8>)
    ensures
        r@ == response(buffer@, socket_address),
        r@.len() >= HEADER_LENGTH + ATTRIBUTE_HEADER_LENGTH,
{
    if buffer.len() < HEADER_LENGTH {
        proof {
            lemma_bad_request_body();
        }
        let zero_id: [u8; 12] = [0, 0, 0, 0, 0, 0, 0, 0, 0, 0, 0, 0];
        assert(zero_id@ =~= zeros(12));
        return error_response(400, String::from_str(BAD_REQUEST), zero_id);
    }
    let transaction_id: [u8; 12] = [
        buffer[8],
        buffer[9],
        buffer[10],
        buffer[11],
        buffer[12],
        buffer[13],
        buffer[14],
        buffer[15],
        buffer[16],
        buffer[17],
        buffer[18],
        buffer[19],
    ];
    let headers = Headers {
        message_type: format_bytes16(buffer),
        message_length: format_bytes16(vstd::slice::slice_subrange(buffer, 2, 4)),
        magic_cookie: format_bytes32(vstd::slice::slice_subrange(buffer, 4, 8)),
        transaction_id,
    };
    proof {
        assert(transaction_id@ =~= buffer@.subrange(8, 20));
        assert(buffer@.subrange(4, 8).subrange(0, 4) =~= buffer@.subrange(4, 8));
    }
    let (valid, unknown_attributes) = validate_headers(headers);
    if valid {
        success_response(socket_address, headers.transaction_id)
    } else {
        error_response420(unknown_attributes, headers.transaction_id)
    }
}

} // verus!
