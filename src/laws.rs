//! Properties of the responses that hold for every request.

use vstd::prelude::*;
use crate::codec::{
    be_value, lemma_be_value_bound, lemma_pow256_widths, lemma_u128_bytes_value,
    lemma_u16_bytes_value, lemma_u32_bytes_value, u16_bytes,
};
use crate::message::{
    zeros, IpAddress, SocketAddress, ATTRIBUTE_HEADER_LENGTH, BINDING_REQUEST, ERROR_ATTRIBUTE,
    ERROR_RESPONSE, HEADER_LENGTH, IPV4, IPV6, MAGIC_COOKIE, SUCCESS_RESPONSE,
    UNKNOWN_ATTRIBUTES, XOR_MAPPED_ADDRESS,
};
use crate::stun_handler::{
    header_is_valid, ipv6_mask, message, request_cookie, request_transaction_id, request_type,
    response,
};

verus! {

/// Where the fields of a message stand.
pub proof fn lemma_message_layout(
    message_type: u16,
    transaction_id: Seq<u8>,
    attribute_type: u16,
    body: Seq<u8>,
)
    requires
        transaction_id.len() == 12,
    ensures
        ({
            let m = message(message_type, transaction_id, attribute_type, body);
            &&& m.len() == HEADER_LENGTH + ATTRIBUTE_HEADER_LENGTH + body.len()
            &&& be_value(m.subrange(0, 2)) == message_type
            &&& m.subrange(8, 20) == transaction_id
            &&& be_value(m.subrange(20, 22)) == attribute_type
            &&& m.subrange(24, m.len() as int) == body
        }),
{
    let m = message(message_type, transaction_id, attribute_type, body);
    lemma_u16_bytes_value(message_type);
    lemma_u16_bytes_value(attribute_type);
    lemma_u16_bytes_value((ATTRIBUTE_HEADER_LENGTH + body.len()) as u16);
    lemma_u16_bytes_value(body.len() as u16);
    lemma_u32_bytes_value(MAGIC_COOKIE);
    assert(m.subrange(0, 2) =~= u16_bytes(message_type));
    assert(m.subrange(8, 20) =~= transaction_id);
    assert(m.subrange(20, 22) =~= u16_bytes(attribute_type));
    assert(m.subrange(24, m.len() as int) =~= body);
}

/// A valid Binding request from an IPv4 peer gets a success response whose
/// mapped address carries the port XOR the cookie's high 16 bits and the
/// address XOR the cookie; XOR-ing again gives back the port and address.
pub proof fn lemma_ipv4_mapped_address(buffer: Seq<u8>, octets: [u8; 4], port: u16)
    requires
        buffer.len() >= HEADER_LENGTH,
        header_is_valid(request_type(buffer), request_cookie(buffer)),
    ensures
        ({
            let r = response(buffer, SocketAddress { ip: IpAddress::V4(octets), port });
            let sent_port = be_value(r.subrange(26, 28)) as u16;
            let sent_address = be_value(r.subrange(28, 32)) as u32;
            &&& r.len() == 32
            &&& be_value(r.subrange(0, 2)) == SUCCESS_RESPONSE
            &&& be_value(r.subrange(20, 22)) == XOR_MAPPED_ADDRESS
            &&& r[25] == IPV4
            &&& sent_port == port ^ ((MAGIC_COOKIE >> 16u32) as u16)
            &&& sent_address == (be_value(octets@) as u32) ^ MAGIC_COOKIE
            &&& sent_port ^ ((MAGIC_COOKIE >> 16u32) as u16) == port
            &&& sent_address ^ MAGIC_COOKIE == be_value(octets@)
        }),
{
    let peer = SocketAddress { ip: IpAddress::V4(octets), port };
    let tid = request_transaction_id(buffer);
    let xp = port ^ ((MAGIC_COOKIE >> 16u32) as u16);
    let address = be_value(octets@) as u32;
    let xa = address ^ MAGIC_COOKIE;
    let body = seq![0u8, IPV4] + u16_bytes(xp) + crate::codec::u32_bytes(xa);
    let r = response(buffer, peer);
    assert(r == message(SUCCESS_RESPONSE, tid, XOR_MAPPED_ADDRESS, body));
    lemma_message_layout(SUCCESS_RESPONSE, tid, XOR_MAPPED_ADDRESS, body);
    lemma_u16_bytes_value(xp);
    lemma_u32_bytes_value(xa);
    assert(r.subrange(26, 28) =~= r.subrange(24, 32).subrange(2, 4));
    assert(r.subrange(28, 32) =~= r.subrange(24, 32).subrange(4, 8));
    assert(body.subrange(2, 4) =~= u16_bytes(xp));
    assert(body.subrange(4, 8) =~= crate::codec::u32_bytes(xa));
    assert(r[25] == r.subrange(24, 32)[1]);
    lemma_be_value_bound(octets@);
    lemma_pow256_widths();
    assert(xp ^ ((MAGIC_COOKIE >> 16u32) as u16) == port) by (bit_vector)
        requires
            xp == port ^ ((MAGIC_COOKIE >> 16u32) as u16),
    ;
    assert(xa ^ MAGIC_COOKIE == address) by (bit_vector)
        requires
            xa == address ^ MAGIC_COOKIE,
    ;
}

/// A valid Binding request from an IPv6 peer gets a success response whose
/// mapped address carries the port XOR the cookie's high 16 bits and the
/// address XOR the cookie followed by the transaction id; XOR-ing again gives
/// back the port and address.
pub proof fn lemma_ipv6_mapped_address(buffer: Seq<u8>, octets: [u8; 16], port: u16)
    requires
        buffer.len() >= HEADER_LENGTH,
        header_is_valid(request_type(buffer), request_cookie(buffer)),
    ensures
        ({
            let r = response(buffer, SocketAddress { ip: IpAddress::V6(octets), port });
            let mask = ((MAGIC_COOKIE as u128) << 96u128) | (be_value(
                request_transaction_id(buffer),
            ) as u128);
            let sent_port = be_value(r.subrange(26, 28)) as u16;
            let sent_address = be_value(r.subrange(28, 44)) as u128;
            &&& r.len() == 44
            &&& be_value(r.subrange(0, 2)) == SUCCESS_RESPONSE
            &&& be_value(r.subrange(20, 22)) == XOR_MAPPED_ADDRESS
            &&& r[25] == IPV6
            &&& sent_port == port ^ ((MAGIC_COOKIE >> 16u32) as u16)
            &&& sent_address == (be_value(octets@) as u128) ^ mask
            &&& sent_port ^ ((MAGIC_COOKIE >> 16u32) as u16) == port
            &&& sent_address ^ mask == be_value(octets@)
        }),
{
    let peer = SocketAddress { ip: IpAddress::V6(octets), port };
    let tid = request_transaction_id(buffer);
    let mask = ipv6_mask(tid);
    let xp = port ^ ((MAGIC_COOKIE >> 16u32) as u16);
    let address = be_value(octets@) as u128;
    let xa = address ^ mask;
    let body = seq![0u8, IPV6] + u16_bytes(xp) + crate::codec::u128_bytes(xa);
    let r = response(buffer, peer);
    assert(r == message(SUCCESS_RESPONSE, tid, XOR_MAPPED_ADDRESS, body));
    lemma_message_layout(SUCCESS_RESPONSE, tid, XOR_MAPPED_ADDRESS, body);
    lemma_u16_bytes_value(xp);
    lemma_u128_bytes_value(xa);
    assert(r.subrange(26, 28) =~= r.subrange(24, 44).subrange(2, 4));
    assert(r.subrange(28, 44) =~= r.subrange(24, 44).subrange(4, 20));
    assert(body.subrange(2, 4) =~= u16_bytes(xp));
    assert(body.subrange(4, 20) =~= crate::codec::u128_bytes(xa));
    assert(r[25] == r.subrange(24, 44)[1]);
    lemma_be_value_bound(octets@);
    lemma_pow256_widths();
    assert(xp ^ ((MAGIC_COOKIE >> 16u32) as u16) == port) by (bit_vector)
        requires
            xp == port ^ ((MAGIC_COOKIE >> 16u32) as u16),
    ;
    assert(xa ^ mask == address) by (bit_vector)
        requires
            xa == address ^ mask,
    ;
}

/// A buffer shorter than a header gets an error response with code 400 and
/// a zero transaction id.
pub proof fn lemma_short_buffer_is_bad_request(buffer: Seq<u8>, peer: SocketAddress)
    requires
        buffer.len() < HEADER_LENGTH,
    ensures
        ({
            let r = response(buffer, peer);
            &&& be_value(r.subrange(0, 2)) == ERROR_RESPONSE
            &&& be_value(r.subrange(20, 22)) == ERROR_ATTRIBUTE
            &&& r[24] == 0 && r[25] == 0
            &&& r[26] * 100 + r[27] == 400
            &&& r.subrange(8, 20) == zeros(12)
        }),
{
    let body = crate::stun_handler::error_body(400, crate::stun_handler::BAD_REQUEST@);
    let r = response(buffer, peer);
    lemma_message_layout(ERROR_RESPONSE, zeros(12), ERROR_ATTRIBUTE, body);
    assert(r[24] == body[0] && r[25] == body[1] && r[26] == body[2] && r[27] == body[3]);
}

/// The body of a 420 response: the code, then the four slots.
proof fn lemma_error420_layout(buffer: Seq<u8>, peer: SocketAddress)
    requires
        buffer.len() >= HEADER_LENGTH,
        !header_is_valid(request_type(buffer), request_cookie(buffer)),
    ensures
        ({
            let r = response(buffer, peer);
            let slots = crate::stun_handler::unknown_attributes_of(
                request_type(buffer),
                request_cookie(buffer),
            );
            &&& r.len() == 36
            &&& be_value(r.subrange(0, 2)) == ERROR_RESPONSE
            &&& be_value(r.subrange(20, 22)) == UNKNOWN_ATTRIBUTES
            &&& r.subrange(24, 28) == seq![0u8, 0u8, 4u8, 20u8]
            &&& be_value(r.subrange(28, 30)) == slots[0]
            &&& be_value(r.subrange(30, 32)) == slots[1]
            &&& be_value(r.subrange(32, 34)) == slots[2]
            &&& be_value(r.subrange(34, 36)) == slots[3]
        }),
{
    let tid = request_transaction_id(buffer);
    let slots = crate::stun_handler::unknown_attributes_of(
        request_type(buffer),
        request_cookie(buffer),
    );
    let body = crate::stun_handler::error420_body(slots);
    let r = response(buffer, peer);
    lemma_message_layout(ERROR_RESPONSE, tid, UNKNOWN_ATTRIBUTES, body);
    lemma_u16_bytes_value(slots[0]);
    lemma_u16_bytes_value(slots[1]);
    lemma_u16_bytes_value(slots[2]);
    lemma_u16_bytes_value(slots[3]);
    let b = r.subrange(24, 36);
    assert(b == body);
    assert(r.subrange(24, 28) =~= b.subrange(0, 4));
    assert(r.subrange(28, 30) =~= b.subrange(4, 6));
    assert(r.subrange(30, 32) =~= b.subrange(6, 8));
    assert(r.subrange(32, 34) =~= b.subrange(8, 10));
    assert(r.subrange(34, 36) =~= b.subrange(10, 12));
    assert(body.subrange(0, 4) =~= seq![0u8, 0u8, 4u8, 20u8]);
    assert(body.subrange(4, 6) =~= u16_bytes(slots[0]));
    assert(body.subrange(6, 8) =~= u16_bytes(slots[1]));
    assert(body.subrange(8, 10) =~= u16_bytes(slots[2]));
    assert(body.subrange(10, 12) =~= u16_bytes(slots[3]));
}

/// A header whose type is not a Binding request gets error 420 with the type
/// in the first unknown-attribute slot and the other three zero.
pub proof fn lemma_wrong_type_is_error420(buffer: Seq<u8>, peer: SocketAddress)
    requires
        buffer.len() >= HEADER_LENGTH,
        request_type(buffer) != BINDING_REQUEST,
    ensures
        ({
            let r = response(buffer, peer);
            &&& be_value(r.subrange(0, 2)) == ERROR_RESPONSE
            &&& be_value(r.subrange(20, 22)) == UNKNOWN_ATTRIBUTES
            &&& r.subrange(24, 28) == seq![0u8, 0u8, 4u8, 20u8]
            &&& be_value(r.subrange(28, 30)) == request_type(buffer)
            &&& be_value(r.subrange(30, 32)) == 0
            &&& be_value(r.subrange(32, 34)) == 0
            &&& be_value(r.subrange(34, 36)) == 0
        }),
{
    lemma_error420_layout(buffer, peer);
}

/// A Binding request with a wrong cookie gets error 420 with the cookie's
/// high and low 16 bits in the first two slots and the other two zero.
pub proof fn lemma_wrong_cookie_is_error420(buffer: Seq<u8>, peer: SocketAddress)
    requires
        buffer.len() >= HEADER_LENGTH,
        request_type(buffer) == BINDING_REQUEST,
        request_cookie(buffer) != MAGIC_COOKIE,
    ensures
        ({
            let r = response(buffer, peer);
            let cookie = request_cookie(buffer);
            &&& be_value(r.subrange(0, 2)) == ERROR_RESPONSE
            &&& be_value(r.subrange(20, 22)) == UNKNOWN_ATTRIBUTES
            &&& r.subrange(24, 28) == seq![0u8, 0u8, 4u8, 20u8]
            &&& be_value(r.subrange(28, 30)) == cookie >> 16u32
            &&& be_value(r.subrange(30, 32)) == cookie & 0xffffu32
            &&& be_value(r.subrange(32, 34)) == 0
            &&& be_value(r.subrange(34, 36)) == 0
        }),
{
    lemma_error420_layout(buffer, peer);
    let cookie = request_cookie(buffer);
    assert((cookie >> 16u32) as u16 == cookie >> 16u32) by (bit_vector);
    assert(cookie as u16 == cookie & 0xffffu32) by (bit_vector);
}

/// Every response to a buffer that holds a header carries the request's
/// transaction id, byte for byte.
pub proof fn lemma_transaction_id_echoed(buffer: Seq<u8>, peer: SocketAddress)
    requires
        buffer.len() >= HEADER_LENGTH,
    ensures
        response(buffer, peer).subrange(8, 20) == buffer.subrange(8, 20),
{
    let tid = request_transaction_id(buffer);
    let t = request_type(buffer);
    let c = request_cookie(buffer);
    if header_is_valid(t, c) {
        lemma_message_layout(
            SUCCESS_RESPONSE,
            tid,
            XOR_MAPPED_ADDRESS,
            crate::stun_handler::xor_mapped_body(peer, tid),
        );
    } else {
        lemma_message_layout(
            ERROR_RESPONSE,
            tid,
            UNKNOWN_ATTRIBUTES,
            crate::stun_handler::error420_body(crate::stun_handler::unknown_attributes_of(t, c)),
        );
    }
}

} // verus!
