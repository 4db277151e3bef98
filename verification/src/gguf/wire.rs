//! Little-endian primitive readers over a byte buffer.
//!
//! Every reader takes the whole buffer and a position, and on success
//! returns the decoded value together with the position just past it.

use vstd::prelude::*;

use crate::error::ModelError;

verus! {

/// Success of any fixed-width read: the window lies inside the buffer.
pub open spec fn fits(data: Seq<u8>, pos: int, width: int) -> bool {
    0 <= pos && pos + width <= data.len()
}

/// Reads one byte.
pub fn read_u8(data: &[u8], pos: usize) -> (r: Result<(u8, usize), ModelError>)
    ensures
        (r is Ok) == fits(data@, pos as int, 1),
        r is Ok ==> r->Ok_0.0 == data@[pos as int] && r->Ok_0.1 == pos + 1,
        r is Err ==> r->Err_0 is Io,
{
    if pos < data.len() {
        Ok((*vstd::slice::slice_index_get(data, pos), pos + 1))
    } else {
        Err(ModelError::Io)
    }
}

/// Reads a `u16` stored little-endian.
pub fn read_u16(data: &[u8], pos: usize) -> (r: Result<(u16, usize), ModelError>)
    ensures
        (r is Ok) == fits(data@, pos as int, 2),
        r is Ok ==> r->Ok_0.0 == vstd::bytes::spec_u16_from_le_bytes(
            data@.subrange(pos as int, pos + 2),
        ) && r->Ok_0.1 == pos + 2,
        r is Err ==> r->Err_0 is Io,
{
    if pos <= data.len() && data.len() - pos >= 2 {
        let s = vstd::slice::slice_subrange(data, pos, pos + 2);
        Ok((vstd::bytes::u16_from_le_bytes(s), pos + 2))
    } else {
        Err(ModelError::Io)
    }
}

/// Reads a `u32` stored little-endian.
pub fn read_u32(data: &[u8], pos: usize) -> (r: Result<(u32, usize), ModelError>)
    ensures
        (r is Ok) == fits(data@, pos as int, 4),
        r is Ok ==> r->Ok_0.0 == vstd::bytes::spec_u32_from_le_bytes(
            data@.subrange(pos as int, pos + 4),
        ) && r->Ok_0.1 == pos + 4,
        r is Err ==> r->Err_0 is Io,
{
    if pos <= data.len() && data.len() - pos >= 4 {
        let s = vstd::slice::slice_subrange(data, pos, pos + 4);
        Ok((vstd::bytes::u32_from_le_bytes(s), pos + 4))
    } else {
        Err(ModelError::Io)
    }
}

/// Reads a `u64` stored little-endian.
pub fn read_u64(data: &[u8], pos: usize) -> (r: Result<(u64, usize), ModelError>)
    ensures
        (r is Ok) == fits(data@, pos as int, 8),
        r is Ok ==> r->Ok_0.0 == vstd::bytes::spec_u64_from_le_bytes(
            data@.subrange(pos as int, pos + 8),
        ) && r->Ok_0.1 == pos + 8,
        r is Err ==> r->Err_0 is Io,
{
    if pos <= data.len() && data.len() - pos >= 8 {
        let s = vstd::slice::slice_subrange(data, pos, pos + 8);
        Ok((vstd::bytes::u64_from_le_bytes(s), pos + 8))
    } else {
        Err(ModelError::Io)
    }
}

/// Copies `n` bytes starting at `pos`.
pub fn take_bytes(data: &[u8], pos: usize, n: usize) -> (r: Result<(Vec<u8>, usize), ModelError>)
    ensures
        (r is Ok) == fits(data@, pos as int, n as int),
        r is Ok ==> r->Ok_0.0@ == data@.subrange(pos as int, pos + n) && r->Ok_0.1 == pos + n,
        r is Err ==> r->Err_0 is Io,
{
    if pos <= data.len() && data.len() - pos >= n {
        let s = vstd::slice::slice_subrange(data, pos, pos + n);
        Ok((vstd::slice::slice_to_vec(s), pos + n))
    } else {
        Err(ModelError::Io)
    }
}

/// Relies on str::from_utf8: it accepts exactly the byte sequences that
/// are valid UTF-8, the same predicate vstd uses for its string
/// specifications.
#[verifier::external_body]
pub fn utf8_is_valid(bytes: &[u8]) -> (r: bool)
    ensures
        r == vstd::utf8::valid_utf8(bytes@),
{
    core::str::from_utf8(bytes).is_ok()
}

/// The decimal digits of a number, most significant first.
pub open spec fn spec_decimal(n: nat) -> Seq<u8>
    decreases n,
{
    if n < 10 {
        seq![(0x30 + n) as u8]
    } else {
        spec_decimal(n / 10) + seq![(0x30 + n % 10) as u8]
    }
}

/// Writes a number in decimal, as ASCII bytes.
pub fn u32_decimal(n: u32) -> (r: Vec<u8>)
    ensures
        r@ == spec_decimal(n as nat),
    decreases n,
{
    if n < 10 {
        let mut v: Vec<u8> = Vec::new();
        v.push(0x30 + (n as u8));
        proof {
            assert(v@ =~= spec_decimal(n as nat));
        }
        v
    } else {
        let mut v = u32_decimal(n / 10);
        v.push(0x30 + ((n % 10) as u8));
        proof {
            assert(v@ =~= spec_decimal(n as nat));
        }
        v
    }
}

/// Writes a number in decimal, as ASCII bytes.
pub fn usize_decimal(n: usize) -> (r: Vec<u8>)
    ensures
        r@ == spec_decimal(n as nat),
    decreases n,
{
    if n < 10 {
        let mut v: Vec<u8> = Vec::new();
        v.push(0x30 + (n as u8));
        proof {
            assert(v@ =~= spec_decimal(n as nat));
        }
        v
    } else {
        let mut v = usize_decimal(n / 10);
        v.push(0x30 + ((n % 10) as u8));
        proof {
            assert(v@ =~= spec_decimal(n as nat));
        }
        v
    }
}

/// The UTF-8 bytes of a string slice; for ASCII keys these are the
/// characters themselves.
pub fn str_to_bytes(s: &str) -> (r: Vec<u8>)
    ensures
        r@ == vstd::utf8::encode_utf8(s@),
{
    vstd::slice::slice_to_vec(s.as_bytes())
}

} // verus!
