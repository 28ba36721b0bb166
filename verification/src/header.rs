//! The fixed eight-byte header: width, then height, four bytes each, both in one
//! byte order.
//!
//! A container is written in the byte order of the machine that produces it, so
//! the order is a value here: every function that touches a header takes it, and
//! [`host_byte_order`] finds the one of the running machine.

use vstd::prelude::*;
use crate::error::CodecError;

verus! {

/// Number of bytes in a header.
pub const HEADER_LEN: usize = 8;

/// The order in which the four bytes of a header field are laid out.
#[derive(Debug, Clone, Copy, PartialEq, Eq, Structural)]
pub enum ByteOrder {
    /// Least significant byte first.
    Little,
    /// Most significant byte first.
    Big,
}

/// The four bytes of `value` in the given order.
pub open spec fn u32_bytes(order: ByteOrder, value: u32) -> Seq<u8> {
    let b0 = (value % 256) as u8;
    let b1 = (value / 256 % 256) as u8;
    let b2 = (value / 65536 % 256) as u8;
    let b3 = (value / 16777216) as u8;
    match order {
        ByteOrder::Little => seq![b0, b1, b2, b3],
        ByteOrder::Big => seq![b3, b2, b1, b0],
    }
}

/// The number that the first four bytes of `bytes` stand for in the given order.
pub open spec fn u32_value(order: ByteOrder, bytes: Seq<u8>) -> u32
    recommends
        bytes.len() >= 4,
{
    match order {
        ByteOrder::Little => (bytes[0] + 256 * bytes[1] + 65536 * bytes[2] + 16777216
            * bytes[3]) as u32,
        ByteOrder::Big => (bytes[3] + 256 * bytes[2] + 65536 * bytes[1] + 16777216
            * bytes[0]) as u32,
    }
}

/// The header of an image of the given size: the bytes of the width, then those of
/// the height.
pub open spec fn header_bytes(order: ByteOrder, width: u32, height: u32) -> Seq<u8> {
    u32_bytes(order, width) + u32_bytes(order, height)
}

/// The size that the start of `bytes` announces, or `TruncatedHeader` where fewer
/// than eight bytes are there.
pub open spec fn header_size(order: ByteOrder, bytes: Seq<u8>) -> Result<(u32, u32), CodecError> {
    if bytes.len() < HEADER_LEN {
        Err(CodecError::TruncatedHeader)
    } else {
        Ok((u32_value(order, bytes.subrange(0, 4)), u32_value(order, bytes.subrange(4, 8))))
    }
}

/// Whatever the order, reading back the bytes of a number gives that number.
pub proof fn lemma_u32_round_trip(order: ByteOrder, value: u32)
    ensures
        u32_bytes(order, value).len() == 4,
        u32_value(order, u32_bytes(order, value)) == value,
{
}

/// Header fidelity: a header read in the byte order it was written in announces
/// the size it was written for.
pub proof fn lemma_header_round_trip(order: ByteOrder, width: u32, height: u32)
    ensures
        header_bytes(order, width, height).len() == HEADER_LEN,
        header_size(order, header_bytes(order, width, height)) == Ok::<(u32, u32), CodecError>(
            (width, height),
        ),
{
    lemma_u32_round_trip(order, width);
    lemma_u32_round_trip(order, height);
    let header = header_bytes(order, width, height);
    assert(header.subrange(0, 4) =~= u32_bytes(order, width));
    assert(header.subrange(4, 8) =~= u32_bytes(order, height));
}

/// Lays `value` out as four bytes in the given order.
pub fn u32_to_bytes(value: u32, order: ByteOrder) -> (bytes: [u8; 4])
    ensures
        bytes@ == u32_bytes(order, value),
{
    let b0 = (value % 256) as u8;
    let b1 = (value / 256 % 256) as u8;
    let b2 = (value / 65536 % 256) as u8;
    let b3 = (value / 16777216) as u8;
    let bytes = match order {
        ByteOrder::Little => [b0, b1, b2, b3],
        ByteOrder::Big => [b3, b2, b1, b0],
    };
    assert(bytes@ =~= u32_bytes(order, value));
    bytes
}

/// Reads the number that four bytes stand for in the given order.
pub fn u32_from_bytes(bytes: &[u8], order: ByteOrder) -> (value: u32)
    requires
        bytes@.len() == 4,
    ensures
        value == u32_value(order, bytes@),
{
    let b0 = bytes[0] as u32;
    let b1 = bytes[1] as u32;
    let b2 = bytes[2] as u32;
    let b3 = bytes[3] as u32;
    match order {
        ByteOrder::Little => b0 + 256 * b1 + 65536 * b2 + 16777216 * b3,
        ByteOrder::Big => b3 + 256 * b2 + 65536 * b1 + 16777216 * b0,
    }
}

/// Writes the header of an image of the given size.
pub fn write_header(width: u32, height: u32, order: ByteOrder) -> (header: [u8; 8])
    ensures
        header@ == header_bytes(order, width, height),
{
    let w = u32_to_bytes(width, order);
    let h = u32_to_bytes(height, order);
    let header = [w[0], w[1], w[2], w[3], h[0], h[1], h[2], h[3]];
    assert(header@ =~= header_bytes(order, width, height));
    header
}

/// Reads the size that the first eight bytes of `bytes` announce.
pub fn read_header(bytes: &[u8], order: ByteOrder) -> (size: Result<(u32, u32), CodecError>)
    ensures
        size == header_size(order, bytes@),
{
    if bytes.len() < HEADER_LEN {
        return Err(CodecError::TruncatedHeader);
    }
    let width = u32_from_bytes(vstd::slice::slice_subrange(bytes, 0, 4), order);
    let height = u32_from_bytes(vstd::slice::slice_subrange(bytes, 4, 8), order);
    Ok((width, height))
}

/// `u32::from_ne_bytes` of std: the number that four bytes stand for in the byte
/// order of the running machine. Which order that is differs from one machine to
/// the next, so the contract claims only that it is one of the two.
#[verifier::external_body]
fn u32_from_native_bytes(bytes: [u8; 4]) -> (value: u32)
    ensures
        value == u32_value(ByteOrder::Little, bytes@) || value == u32_value(
            ByteOrder::Big,
            bytes@,
        ),
{
    u32::from_ne_bytes(bytes)
}

/// Reads four bytes as a number in the byte order of the running machine.
pub fn ne_vec_to_u32(bytes: &[u8]) -> (value: u32)
    requires
        bytes@.len() == 4,
    ensures
        value == u32_value(ByteOrder::Little, bytes@) || value == u32_value(
            ByteOrder::Big,
            bytes@,
        ),
{
    let res: [u8; 4] = [bytes[0], bytes[1], bytes[2], bytes[3]];
    assert(res@ =~= bytes@);
    u32_from_native_bytes(res)
}

/// The bytes that tell the two orders apart: they read as one in `Little`, and as
/// another number in `Big`.
pub open spec fn order_probe() -> Seq<u8> {
    seq![1u8, 0u8, 0u8, 0u8]
}

/// The byte order in which the probe bytes read as `probe`: an order in which they
/// do, and `Little` only where they read as one.
pub fn order_of_probe(probe: u32) -> (order: ByteOrder)
    ensures
        order == if probe == 1 {
            ByteOrder::Little
        } else {
            ByteOrder::Big
        },
        probe == 1 || probe == 16777216 ==> u32_value(order, order_probe()) == probe,
{
    if probe == 1 {
        ByteOrder::Little
    } else {
        ByteOrder::Big
    }
}

/// The byte order of the running machine, found by reading the probe bytes as the
/// machine reads them.
pub fn host_byte_order() -> (order: ByteOrder) {
    let probe: [u8; 4] = [1, 0, 0, 0];
    order_of_probe(ne_vec_to_u32(&probe))
}

} // verus!
