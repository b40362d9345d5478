//! Resolving a displacement that is stored in the target into an absolute
//! address, as the operand of a relative call or jump is resolved.

use byteorder::{ByteOrder, LittleEndian};
use vstd::prelude::*;

use crate::error::ResolveError;

verus! {

/// The number that four bytes hold, least significant byte first.
pub open spec fn little_endian_u32(bytes: Seq<u8>) -> nat {
    (bytes[0] + 0x100 * bytes[1] + 0x1_0000 * bytes[2] + 0x100_0000 * bytes[3]) as nat
}

/// The absolute address to which `displacement` leads from the instruction
/// of `size` bytes at `address`: the three added up.
pub open spec fn resolved_address(address: usize, size: usize, displacement: u32) -> int {
    displacement + address + size
}

/// `byteorder::LittleEndian::read_u32`, of the trait `ByteOrder`: reads
/// four bytes as an unsigned number in little-endian order. The method
/// panics on fewer than four bytes, which the type of `bytes` rules out.
#[verifier::external_body]
fn read_little_endian_u32(bytes: &[u8; 4]) -> (value: u32)
    ensures
        value == little_endian_u32(bytes@),
{
    LittleEndian::read_u32(bytes)
}

/// The address at which the displacement of the instruction at `address`
/// stands, `offset` bytes into it.
pub fn displacement_address(address: usize, offset: usize) -> (at: Result<usize, ResolveError>)
    ensures
        match at {
            Ok(a) => a == address + offset,
            Err(e) => e == ResolveError::Overflow && address + offset > usize::MAX,
        },
{
    match address.checked_add(offset) {
        Some(a) => Ok(a),
        None => Err(ResolveError::Overflow),
    }
}

/// The absolute address to which `displacement` leads from the instruction
/// of `size` bytes at `address`, if it fits the address width.
pub fn resolve_displacement(address: usize, size: usize, displacement: u32) -> (target: Result<
    usize,
    ResolveError,
>)
    ensures
        match target {
            Ok(t) => t == resolved_address(address, size, displacement),
            Err(e) => e == ResolveError::Overflow && resolved_address(address, size, displacement)
                > usize::MAX,
        },
{
    match (displacement as usize).checked_add(address) {
        Some(sum) => match sum.checked_add(size) {
            Some(t) => Ok(t),
            None => Err(ResolveError::Overflow),
        },
        None => Err(ResolveError::Overflow),
    }
}

/// The absolute address that the four bytes of a displacement, least
/// significant byte first, give for the instruction of `size` bytes at
/// `address`.
pub fn resolve_bytes(address: usize, size: usize, bytes: [u8; 4]) -> (target: Result<
    usize,
    ResolveError,
>)
    ensures
        match target {
            Ok(t) => t == resolved_address(address, size, little_endian_u32(bytes@) as u32),
            Err(e) => e == ResolveError::Overflow && resolved_address(
                address,
                size,
                little_endian_u32(bytes@) as u32,
            ) > usize::MAX,
        },
{
    resolve_displacement(address, size, read_little_endian_u32(&bytes))
}

} // verus!
