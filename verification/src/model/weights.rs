//! The tensor names a LLaMA checkpoint uses.

use vstd::prelude::*;

use crate::gguf::wire;
use vstd::utf8::encode_utf8;

verus! {

use crate::gguf::wire::{spec_decimal, u32_decimal};

/// The name of one per-layer weight tensor:
/// "blk." + the layer number + "." + the part + ".weight".
pub open spec fn spec_layer_weight_name(i: nat, part: Seq<char>) -> Seq<u8> {
    encode_utf8("blk."@) + spec_decimal(i) + encode_utf8("."@) + encode_utf8(part) + encode_utf8(
        ".weight"@,
    )
}

/// Builds the name of one per-layer weight tensor, for example
/// "blk.0.attn_q.weight".
pub fn layer_weight_name(i: u32, part: &str) -> (r: Vec<u8>)
    ensures
        r@ == spec_layer_weight_name(i as nat, part@),
{
    let mut v = wire::str_to_bytes("blk.");
    let mut num = u32_decimal(i);
    v.append(&mut num);
    let mut dot = wire::str_to_bytes(".");
    v.append(&mut dot);
    let mut p = wire::str_to_bytes(part);
    v.append(&mut p);
    let mut w = wire::str_to_bytes(".weight");
    v.append(&mut w);
    v
}

} // verus!
