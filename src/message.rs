//! The message model: header, attribute header, address and error bodies, and
//! the peer's socket address, each with the bytes it stands for on the wire.

use vstd::prelude::*;
use vstd::utf8::encode_utf8;
use crate::codec::{
    push_bytes, push_u128, push_u16, push_u32, u128_bytes, u16_bytes, u32_bytes,
};

verus! {

/// Fixed value of the cookie field; also the mask of the mapped address.
pub const MAGIC_COOKIE: u32 = 0x2112a442;

/// Message type of a Binding request.
pub const BINDING_REQUEST: u16 = 0x0001;

/// Message type of a Binding success response.
pub const SUCCESS_RESPONSE: u16 = 0x0101;

/// Message type of a Binding error response.
pub const ERROR_RESPONSE: u16 = 0x0111;

/// Attribute type ERROR-CODE.
pub const ERROR_ATTRIBUTE: u16 = 0x0009;

/// Attribute type UNKNOWN-ATTRIBUTES.
pub const UNKNOWN_ATTRIBUTES: u16 = 0x000a;

/// Attribute type XOR-MAPPED-ADDRESS.
pub const XOR_MAPPED_ADDRESS: u16 = 0x0020;

/// Address family of an IPv4 address.
pub const IPV4: u8 = 0x01;

/// Address family of an IPv6 address.
pub const IPV6: u8 = 0x02;

/// Size in bytes of a message header.
pub const HEADER_LENGTH: usize = 20;

/// Size in bytes of an attribute header.
pub const ATTRIBUTE_HEADER_LENGTH: usize = 4;

/// An IP address as its bytes in network order.
#[derive(Clone, Copy, Debug)]
pub enum IpAddress {
    V4([u8; 4]),
    V6([u8; 16]),
}

/// The address and port a request came from.
#[derive(Clone, Copy, Debug)]
pub struct SocketAddress {
    pub ip: IpAddress,
    pub port: u16,
}

/// The header that starts every message.
#[derive(Clone, Copy, Debug)]
pub struct Headers {
    /// Type of the message.
    pub message_type: u16,
    /// Number of bytes that follow the header.
    pub message_length: u16,
    /// Always `MAGIC_COOKIE` in a valid message.
    pub magic_cookie: u32,
    /// Identifier chosen by the client and echoed in the response.
    pub transaction_id: [u8; 12],
}

impl Headers {
    /// The header on the wire.
    pub open spec fn spec_bytes(self) -> Seq<u8> {
        u16_bytes(self.message_type) + u16_bytes(self.message_length) + u32_bytes(
            self.magic_cookie,
        ) + self.transaction_id@
    }

    /// Appends the header's bytes.
    pub fn write_to(&self, out: &mut Vec<u8>)
        ensures
            final(out)@ == old(out)@ + self.spec_bytes(),
    {
        push_u16(out, self.message_type);
        push_u16(out, self.message_length);
        push_u32(out, self.magic_cookie);
        push_bytes(out, vstd::array::array_as_slice(&self.transaction_id));
        assert(final(out)@ =~= old(out)@ + self.spec_bytes());
    }
}

/// The header that starts every attribute.
#[derive(Clone, Copy, Debug)]
pub struct Attribute {
    /// Type of the attribute.
    pub attribute_type: u16,
    /// Number of bytes of the attribute body.
    pub attribute_length: u16,
}

impl Attribute {
    /// The attribute header on the wire.
    pub open spec fn spec_bytes(self) -> Seq<u8> {
        u16_bytes(self.attribute_type) + u16_bytes(self.attribute_length)
    }

    /// Appends the attribute header's bytes.
    pub fn write_to(&self, out: &mut Vec<u8>)
        ensures
            final(out)@ == old(out)@ + self.spec_bytes(),
    {
        push_u16(out, self.attribute_type);
        push_u16(out, self.attribute_length);
        assert(final(out)@ =~= old(out)@ + self.spec_bytes());
    }
}

/// XOR-MAPPED-ADDRESS body for an IPv4 peer.
#[derive(Clone, Copy, Debug)]
pub struct XorMappedAddressV4 {
    /// Always zero.
    pub reserved: u8,
    /// `IPV4`.
    pub family: u8,
    /// Port XOR the high 16 bits of the cookie.
    pub x_port: u16,
    /// Address XOR the cookie.
    pub x_address: u32,
}

impl XorMappedAddressV4 {
    /// The body on the wire: eight bytes.
    pub open spec fn spec_bytes(self) -> Seq<u8> {
        seq![self.reserved, self.family] + u16_bytes(self.x_port) + u32_bytes(self.x_address)
    }

    /// The body's bytes.
    pub fn to_bytes(&self) -> (r: Vec<u8>)
        ensures
            r@ == self.spec_bytes(),
    {
        let mut out: Vec<u8> = Vec::new();
        out.push(self.reserved);
        out.push(self.family);
        push_u16(&mut out, self.x_port);
        push_u32(&mut out, self.x_address);
        assert(out@ =~= self.spec_bytes());
        out
    }
}

/// XOR-MAPPED-ADDRESS body for an IPv6 peer.
#[derive(Clone, Copy, Debug)]
pub struct XorMappedAddressV6 {
    /// Always zero.
    pub reserved: u8,
    /// `IPV6`.
    pub family: u8,
    /// Port XOR the high 16 bits of the cookie.
    pub x_port: u16,
    /// Address XOR the cookie followed by the transaction id.
    pub x_address: u128,
}

impl XorMappedAddressV6 {
    /// The body on the wire: twenty bytes.
    pub open spec fn spec_bytes(self) -> Seq<u8> {
        seq![self.reserved, self.family] + u16_bytes(self.x_port) + u128_bytes(self.x_address)
    }

    /// The body's bytes.
    pub fn to_bytes(&self) -> (r: Vec<u8>)
        ensures
            r@ == self.spec_bytes(),
    {
        let mut out: Vec<u8> = Vec::new();
        out.push(self.reserved);
        out.push(self.family);
        push_u16(&mut out, self.x_port);
        push_u128(&mut out, self.x_address);
        assert(out@ =~= self.spec_bytes());
        out
    }
}

/// Number of zero bytes that bring `n` up to a multiple of four.
pub open spec fn padding_len(n: nat) -> nat {
    ((4 - n % 4) % 4) as nat
}

/// `n` zero bytes.
pub open spec fn zeros(n: nat) -> Seq<u8> {
    Seq::new(n, |i: int| 0u8)
}

/// ERROR-CODE body.
#[derive(Clone, Debug)]
pub struct Error {
    /// Two zero bytes, the class (hundreds) and the number (remainder).
    pub error_code: [u8; 4],
    /// Reason phrase.
    pub reason: String,
}

impl Error {
    /// The body on the wire: the code, the reason in UTF-8, then zero bytes up to
    /// a multiple of four.
    pub open spec fn spec_bytes(self) -> Seq<u8> {
        let text = encode_utf8(self.reason@);
        self.error_code@ + text + zeros(padding_len(text.len()))
    }

    /// The body's bytes.
    pub fn to_bytes(&self) -> (r: Vec<u8>)
        ensures
            r@ == self.spec_bytes(),
    {
        let mut out: Vec<u8> = Vec::new();
        push_bytes(&mut out, vstd::array::array_as_slice(&self.error_code));
        let text = self.reason.as_str().as_bytes();
        push_bytes(&mut out, text);
        let pad: usize = (4 - text.len() % 4) % 4;
        let ghost before = out@;
        let mut i: usize = 0;
        while i < pad
            invariant
                i <= pad,
                out@ == before + zeros(i as nat),
            decreases pad - i,
        {
            out.push(0u8);
            i = i + 1;
            assert(out@ =~= before + zeros(i as nat));
        }
        assert(out@ =~= self.spec_bytes());
        out
    }
}

/// UNKNOWN-ATTRIBUTES error body: code 420 and four 16-bit slots.
#[derive(Clone, Copy, Debug)]
pub struct Error420 {
    /// Always `[0, 0, 4, 20]`.
    pub error_code: [u8; 4],
    /// The values that could not be handled; unused slots are zero.
    pub unknown_attributes: [u16; 4],
}

impl Error420 {
    /// The body on the wire: twelve bytes.
    pub open spec fn spec_bytes(self) -> Seq<u8> {
        self.error_code@ + u16_bytes(self.unknown_attributes[0]) + u16_bytes(
            self.unknown_attributes[1],
        ) + u16_bytes(self.unknown_attributes[2]) + u16_bytes(self.unknown_attributes[3])
    }

    /// The body's bytes.
    pub fn to_bytes(&self) -> (r: Vec<u8>)
        ensures
            r@ == self.spec_bytes(),
    {
        let mut out: Vec<u8> = Vec::new();
        push_bytes(&mut out, vstd::array::array_as_slice(&self.error_code));
        push_u16(&mut out, self.unknown_attributes[0]);
        push_u16(&mut out, self.unknown_attributes[1]);
        push_u16(&mut out, self.unknown_attributes[2]);
        push_u16(&mut out, self.unknown_attributes[3]);
        assert(out@ =~= self.spec_bytes());
        out
    }
}

} // verus!
