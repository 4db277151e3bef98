//! Byte-level unpacking of tensor data.
//!
//! For the plain formats the elements come out as IEEE bit patterns; for
//! the block-quantized formats each element comes out as the pair of its
//! block's half-precision scale bits and its small signed quant value.
//! The one multiplication `quant x scale` that turns a pair into a number
//! happens outside the core.

use vstd::prelude::*;

use crate::gguf::wire;
use vstd::bytes::{spec_u16_from_le_bytes, spec_u32_from_le_bytes};

verus! {

/// The half-precision scale bits of the Q4_0 block holding element `i`:
/// the first two bytes of its 18-byte block.
pub open spec fn q4_scale_bits(raw: Seq<u8>, i: int) -> u16 {
    spec_u16_from_le_bytes(raw.subrange(18 * (i / 32), 18 * (i / 32) + 2))
}

/// The quant value of Q4_0 element `i`: the low nibble of its byte for an
/// even element, the high nibble for an odd one, each less 8.
pub open spec fn q4_quant(raw: Seq<u8>, i: int) -> i8 {
    let b = raw[18 * (i / 32) + 2 + (i % 32) / 2];
    if i % 2 == 0 {
        (b as int % 16 - 8) as i8
    } else {
        (b as int / 16 - 8) as i8
    }
}

/// The half-precision scale bits of the Q8_0 block holding element `i`:
/// the first two bytes of its 34-byte block.
pub open spec fn q8_scale_bits(raw: Seq<u8>, i: int) -> u16 {
    spec_u16_from_le_bytes(raw.subrange(34 * (i / 32), 34 * (i / 32) + 2))
}

/// The quant value of Q8_0 element `i`: its byte reinterpreted as signed.
pub open spec fn q8_quant(raw: Seq<u8>, i: int) -> i8 {
    raw[34 * (i / 32) + 2 + i % 32] as i8
}

/// Number of 32-element blocks covering `numel` elements.
pub open spec fn spec_n_blocks(numel: int) -> int {
    numel / 32 + (if numel % 32 == 0 {
        0int
    } else {
        1int
    })
}

/// Splits raw F32 tensor bytes into one little-endian bit pattern per
/// element.
pub fn unpack_f32_bits(raw: &[u8], numel: usize) -> (r: Vec<u32>)
    requires
        raw@.len() >= 4 * numel,
    ensures
        r@.len() == numel,
        forall|i: int|
            0 <= i < numel ==> r@[i] == spec_u32_from_le_bytes(raw@.subrange(4 * i, 4 * i + 4)),
{
    let mut out: Vec<u32> = Vec::new();
    let mut i: usize = 0;
    let mut pos: usize = 0;
    while i < numel
        invariant
            0 <= i <= numel,
            pos == 4 * i,
            raw@.len() >= 4 * numel,
            out@.len() == i,
            forall|k: int|
                0 <= k < i ==> out@[k] == spec_u32_from_le_bytes(raw@.subrange(4 * k, 4 * k + 4)),
        decreases numel - i,
    {
        let (x, p) = match wire::read_u32(raw, pos) {
            Ok(v) => v,
            Err(e) => {
                proof {
                    assert(false);
                }
                return Vec::new();
            },
        };
        out.push(x);
        pos = p;
        i += 1;
    }
    out
}

/// Splits raw F16 tensor bytes into one little-endian bit pattern per
/// element.
pub fn unpack_f16_bits(raw: &[u8], numel: usize) -> (r: Vec<u16>)
    requires
        raw@.len() >= 2 * numel,
    ensures
        r@.len() == numel,
        forall|i: int|
            0 <= i < numel ==> r@[i] == spec_u16_from_le_bytes(raw@.subrange(2 * i, 2 * i + 2)),
{
    let mut out: Vec<u16> = Vec::new();
    let mut i: usize = 0;
    let mut pos: usize = 0;
    while i < numel
        invariant
            0 <= i <= numel,
            pos == 2 * i,
            raw@.len() >= 2 * numel,
            out@.len() == i,
            forall|k: int|
                0 <= k < i ==> out@[k] == spec_u16_from_le_bytes(raw@.subrange(2 * k, 2 * k + 2)),
        decreases numel - i,
    {
        let (x, p) = match wire::read_u16(raw, pos) {
            Ok(v) => v,
            Err(e) => {
                proof {
                    assert(false);
                }
                return Vec::new();
            },
        };
        out.push(x);
        pos = p;
        i += 1;
    }
    out
}

/// Unpacks Q4_0 blocks: for each element, its block's scale bits and its
/// nibble quant, lower nibble first, truncated to exactly `numel`
/// elements after the last (possibly padded) block.
pub fn unpack_q4_0(raw: &[u8], numel: usize) -> (r: Vec<(u16, i8)>)
    requires
        raw@.len() >= 18 * spec_n_blocks(numel as int),
    ensures
        r@.len() == numel,
        forall|i: int|
            0 <= i < numel ==> #[trigger] r@[i] == (q4_scale_bits(raw@, i), q4_quant(raw@, i)),
{
    let n_blocks = numel / 32 + (if numel % 32 != 0 {
        1
    } else {
        0
    });
    let mut out: Vec<(u16, i8)> = Vec::new();
    let rlen = raw.len();
    let mut blk: usize = 0;
    while blk < n_blocks
        invariant
            0 <= blk <= n_blocks,
            n_blocks == spec_n_blocks(numel as int),
            rlen == raw@.len(),
            raw@.len() >= 18 * n_blocks,
            out@.len() == 32 * blk,
            forall|k: int|
                0 <= k < 32 * blk ==> #[trigger] out@[k] == (
                    q4_scale_bits(raw@, k),
                    q4_quant(raw@, k),
                ),
        decreases n_blocks - blk,
    {
        proof {
            assert(18 * (blk as int) + 18 <= raw@.len()) by (nonlinear_arith)
                requires
                    blk < n_blocks,
                    raw@.len() >= 18 * n_blocks,
            ;
        }
        let base = 18 * blk;
        let (scale, _) = match wire::read_u16(raw, base) {
            Ok(v) => v,
            Err(e) => {
                proof {
                    assert(false);
                }
                return Vec::new();
            },
        };
        let mut j: usize = 0;
        while j < 16
            invariant
                0 <= j <= 16,
                base == 18 * blk,
                blk < n_blocks,
                n_blocks == spec_n_blocks(numel as int),
                raw@.len() >= 18 * n_blocks,
                rlen == raw@.len(),
                base + 18 <= raw@.len(),
                scale == spec_u16_from_le_bytes(raw@.subrange(base as int, base + 2)),
                out@.len() == 32 * blk + 2 * j,
                forall|k: int|
                    0 <= k < out@.len() ==> #[trigger] out@[k] == (
                        q4_scale_bits(raw@, k),
                        q4_quant(raw@, k),
                    ),
            decreases 16 - j,
        {
            let byte = *vstd::slice::slice_index_get(raw, base + 2 + j);
            let lo: i8 = (byte % 16) as i8 - 8;
            let hi: i8 = (byte / 16) as i8 - 8;
            proof {
                let ilo = 32 * blk + 2 * j;
                let ihi = ilo + 1;
                assert(ilo / 32 == blk as int && ilo % 32 == 2 * j && ihi / 32 == blk as int
                    && ihi % 32 == 2 * j + 1) by (nonlinear_arith)
                    requires
                        ilo == 32 * (blk as int) + 2 * (j as int),
                        ihi == ilo + 1,
                        0 <= j < 16,
                        blk >= 0,
                ;
                assert(ilo % 2 == 0 && ihi % 2 == 1) by (nonlinear_arith)
                    requires
                        ilo == 32 * (blk as int) + 2 * (j as int),
                        ihi == ilo + 1,
                        0 <= j < 16,
                        blk >= 0,
                ;
                assert((2 * (j as int)) / 2 == j as int && (2 * (j as int) + 1) / 2 == j as int);
                assert(q4_scale_bits(raw@, ilo) == scale);
                assert(q4_scale_bits(raw@, ihi) == scale);
                assert(q4_quant(raw@, ilo) == lo);
                assert(q4_quant(raw@, ihi) == hi);
            }
            out.push((scale, lo));
            out.push((scale, hi));
            j += 1;
        }
        blk += 1;
    }
    proof {
        assert(numel <= 32 * spec_n_blocks(numel as int)) by (nonlinear_arith);
    }
    out.truncate(numel);
    out
}

/// Unpacks Q8_0 blocks: for each element, its block's scale bits and its
/// signed byte quant, truncated to exactly `numel` elements.
pub fn unpack_q8_0(raw: &[u8], numel: usize) -> (r: Vec<(u16, i8)>)
    requires
        raw@.len() >= 34 * spec_n_blocks(numel as int),
    ensures
        r@.len() == numel,
        forall|i: int|
            0 <= i < numel ==> #[trigger] r@[i] == (q8_scale_bits(raw@, i), q8_quant(raw@, i)),
{
    let n_blocks = numel / 32 + (if numel % 32 != 0 {
        1
    } else {
        0
    });
    let mut out: Vec<(u16, i8)> = Vec::new();
    let rlen = raw.len();
    let mut blk: usize = 0;
    while blk < n_blocks
        invariant
            0 <= blk <= n_blocks,
            n_blocks == spec_n_blocks(numel as int),
            rlen == raw@.len(),
            raw@.len() >= 34 * n_blocks,
            out@.len() == 32 * blk,
            forall|k: int|
                0 <= k < 32 * blk ==> #[trigger] out@[k] == (
                    q8_scale_bits(raw@, k),
                    q8_quant(raw@, k),
                ),
        decreases n_blocks - blk,
    {
        proof {
            assert(34 * (blk as int) + 34 <= raw@.len()) by (nonlinear_arith)
                requires
                    blk < n_blocks,
                    raw@.len() >= 34 * n_blocks,
            ;
        }
        let base = 34 * blk;
        let (scale, _) = match wire::read_u16(raw, base) {
            Ok(v) => v,
            Err(e) => {
                proof {
                    assert(false);
                }
                return Vec::new();
            },
        };
        let mut j: usize = 0;
        while j < 32
            invariant
                0 <= j <= 32,
                base == 34 * blk,
                blk < n_blocks,
                n_blocks == spec_n_blocks(numel as int),
                raw@.len() >= 34 * n_blocks,
                rlen == raw@.len(),
                base + 34 <= raw@.len(),
                scale == spec_u16_from_le_bytes(raw@.subrange(base as int, base + 2)),
                out@.len() == 32 * blk + j,
                forall|k: int|
                    0 <= k < out@.len() ==> #[trigger] out@[k] == (
                        q8_scale_bits(raw@, k),
                        q8_quant(raw@, k),
                    ),
            decreases 32 - j,
        {
            let byte = *vstd::slice::slice_index_get(raw, base + 2 + j);
            let q: i8 = byte as i8;
            proof {
                let idx = 32 * blk + j;
                assert(idx / 32 == blk as int && idx % 32 == j as int) by (nonlinear_arith)
                    requires
                        idx == 32 * (blk as int) + j as int,
                        0 <= j < 32,
                        blk >= 0,
                ;
                assert(q8_scale_bits(raw@, idx) == scale);
                assert(q8_quant(raw@, idx) == q);
            }
            out.push((scale, q));
            j += 1;
        }
        blk += 1;
    }
    proof {
        assert(numel <= 32 * spec_n_blocks(numel as int)) by (nonlinear_arith);
    }
    out.truncate(numel);
    out
}

} // verus!
