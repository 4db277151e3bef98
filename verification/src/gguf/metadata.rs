//! GGUF metadata: the typed key-value table.
//!
//! Values of IEEE type are carried as raw bit patterns, exactly as they sit
//! in the file; the numeric interpretation happens outside the core.

use vstd::prelude::*;

use crate::error::{GgufValueType, ModelError};
use crate::gguf::wire;
use vstd::bytes::{spec_u32_from_le_bytes, spec_u64_from_le_bytes};
use vstd::utf8::valid_utf8;

verus! {

broadcast use vstd::std_specs::vec::axiom_vec_index_decreases;

/// A single GGUF metadata value.
#[derive(Debug, PartialEq)]
pub enum GgufMetadataValue {
    U8(u8),
    I8(i8),
    U16(u16),
    I16(i16),
    U32(u32),
    I32(i32),
    /// A 32-bit IEEE value, as its bit pattern.
    F32(u32),
    Bool(bool),
    /// A UTF-8 string, as its raw bytes.
    Str(Vec<u8>),
    Array(Vec<GgufMetadataValue>),
    U64(u64),
    I64(i64),
    /// A 64-bit IEEE value, as its bit pattern.
    F64(u64),
}

/// Mathematical image of a metadata value: byte strings and arrays become
/// sequences.
pub enum SpecGgufValue {
    U8(u8),
    I8(i8),
    U16(u16),
    I16(i16),
    U32(u32),
    I32(i32),
    F32(u32),
    Bool(bool),
    Str(Seq<u8>),
    Array(Seq<SpecGgufValue>),
    U64(u64),
    I64(i64),
    F64(u64),
}

/// The mathematical image of an executable metadata value.
pub open spec fn view_value(v: GgufMetadataValue) -> SpecGgufValue
    decreases v,
{
    match v {
        GgufMetadataValue::U8(x) => SpecGgufValue::U8(x),
        GgufMetadataValue::I8(x) => SpecGgufValue::I8(x),
        GgufMetadataValue::U16(x) => SpecGgufValue::U16(x),
        GgufMetadataValue::I16(x) => SpecGgufValue::I16(x),
        GgufMetadataValue::U32(x) => SpecGgufValue::U32(x),
        GgufMetadataValue::I32(x) => SpecGgufValue::I32(x),
        GgufMetadataValue::F32(x) => SpecGgufValue::F32(x),
        GgufMetadataValue::Bool(x) => SpecGgufValue::Bool(x),
        GgufMetadataValue::Str(s) => SpecGgufValue::Str(s@),
        GgufMetadataValue::Array(vs) => SpecGgufValue::Array(
            view_vec_prefix(vs, vs@.len() as int),
        ),
        GgufMetadataValue::U64(x) => SpecGgufValue::U64(x),
        GgufMetadataValue::I64(x) => SpecGgufValue::I64(x),
        GgufMetadataValue::F64(x) => SpecGgufValue::F64(x),
    }
}

/// The images of the first `n` elements of a vector of values.
pub open spec fn view_vec_prefix(vs: Vec<GgufMetadataValue>, n: int) -> Seq<SpecGgufValue>
    decreases vs, n,
{
    if n <= 0 || n > vs@.len() {
        Seq::empty()
    } else {
        view_vec_prefix(vs, n - 1).push(view_value(vs[n - 1]))
    }
}

/// The images of a sequence of executable values.
pub open spec fn view_values(vs: Seq<GgufMetadataValue>) -> Seq<SpecGgufValue> {
    Seq::new(vs.len(), |i: int| view_value(vs[i]))
}

/// `view_vec_prefix` over the whole vector agrees with the elementwise
/// image of its view.
pub proof fn lemma_view_vec_prefix(vs: Vec<GgufMetadataValue>, n: int)
    requires
        0 <= n <= vs@.len(),
    ensures
        view_vec_prefix(vs, n) =~= Seq::new(n as nat, |i: int| view_value(vs@[i])),
    decreases n,
{
    if n > 0 {
        lemma_view_vec_prefix(vs, n - 1);
    }
}

/// The kind tag of a value.
pub open spec fn spec_kind(v: SpecGgufValue) -> GgufValueType {
    match v {
        SpecGgufValue::U8(_) => GgufValueType::U8,
        SpecGgufValue::I8(_) => GgufValueType::I8,
        SpecGgufValue::U16(_) => GgufValueType::U16,
        SpecGgufValue::I16(_) => GgufValueType::I16,
        SpecGgufValue::U32(_) => GgufValueType::U32,
        SpecGgufValue::I32(_) => GgufValueType::I32,
        SpecGgufValue::F32(_) => GgufValueType::F32,
        SpecGgufValue::Bool(_) => GgufValueType::Bool,
        SpecGgufValue::Str(_) => GgufValueType::Str,
        SpecGgufValue::Array(_) => GgufValueType::Array,
        SpecGgufValue::U64(_) => GgufValueType::U64,
        SpecGgufValue::I64(_) => GgufValueType::I64,
        SpecGgufValue::F64(_) => GgufValueType::F64,
    }
}

impl GgufMetadataValue {
    /// The kind tag of this value, as used in type-mismatch reports.
    pub fn value_type(&self) -> (r: GgufValueType)
        ensures
            r == spec_kind(view_value(*self)),
    {
        match self {
            GgufMetadataValue::U8(_) => GgufValueType::U8,
            GgufMetadataValue::I8(_) => GgufValueType::I8,
            GgufMetadataValue::U16(_) => GgufValueType::U16,
            GgufMetadataValue::I16(_) => GgufValueType::I16,
            GgufMetadataValue::U32(_) => GgufValueType::U32,
            GgufMetadataValue::I32(_) => GgufValueType::I32,
            GgufMetadataValue::F32(_) => GgufValueType::F32,
            GgufMetadataValue::Bool(_) => GgufValueType::Bool,
            GgufMetadataValue::Str(_) => GgufValueType::Str,
            GgufMetadataValue::Array(_) => GgufValueType::Array,
            GgufMetadataValue::U64(_) => GgufValueType::U64,
            GgufMetadataValue::I64(_) => GgufValueType::I64,
            GgufMetadataValue::F64(_) => GgufValueType::F64,
        }
    }
}

/// What a GGUF string at `pos` denotes: a u64 little-endian length, that
/// many bytes, which must be valid UTF-8.
pub open spec fn spec_read_string(data: Seq<u8>, pos: int) -> Option<(Seq<u8>, int)> {
    if !wire::fits(data, pos, 8) {
        Option::None
    } else {
        let n = spec_u64_from_le_bytes(data.subrange(pos, pos + 8)) as int;
        if n > usize::MAX as int {
            Option::None
        } else if pos + 8 + n > data.len() {
            Option::None
        } else if !valid_utf8(data.subrange(pos + 8, pos + 8 + n)) {
            Option::None
        } else {
            Option::Some((data.subrange(pos + 8, pos + 8 + n), pos + 8 + n))
        }
    }
}

/// What a metadata value of the given GGUF type ID at `pos` denotes.
/// Numeric scalars are little-endian at their natural width; a boolean is
/// one byte, zero meaning false; an array is a u32 element type, a u64
/// count, and that many values of the element type.
pub open spec fn spec_read_value(data: Seq<u8>, pos: int, type_id: u32) -> Option<
    (SpecGgufValue, int),
>
    decreases data.len() - pos, 0int,
{
    if pos < 0 || pos > data.len() {
        Option::None
    } else if type_id == 0 {
        if wire::fits(data, pos, 1) {
            Option::Some((SpecGgufValue::U8(data[pos]), pos + 1))
        } else {
            Option::None
        }
    } else if type_id == 1 {
        if wire::fits(data, pos, 1) {
            Option::Some((SpecGgufValue::I8(data[pos] as i8), pos + 1))
        } else {
            Option::None
        }
    } else if type_id == 2 {
        if wire::fits(data, pos, 2) {
            Option::Some(
                (
                    SpecGgufValue::U16(
                        vstd::bytes::spec_u16_from_le_bytes(data.subrange(pos, pos + 2)),
                    ),
                    pos + 2,
                ),
            )
        } else {
            Option::None
        }
    } else if type_id == 3 {
        if wire::fits(data, pos, 2) {
            Option::Some(
                (
                    SpecGgufValue::I16(
                        vstd::bytes::spec_u16_from_le_bytes(data.subrange(pos, pos + 2)) as i16,
                    ),
                    pos + 2,
                ),
            )
        } else {
            Option::None
        }
    } else if type_id == 4 {
        if wire::fits(data, pos, 4) {
            Option::Some(
                (
                    SpecGgufValue::U32(spec_u32_from_le_bytes(data.subrange(pos, pos + 4))),
                    pos + 4,
                ),
            )
        } else {
            Option::None
        }
    } else if type_id == 5 {
        if wire::fits(data, pos, 4) {
            Option::Some(
                (
                    SpecGgufValue::I32(spec_u32_from_le_bytes(data.subrange(pos, pos + 4)) as i32),
                    pos + 4,
                ),
            )
        } else {
            Option::None
        }
    } else if type_id == 6 {
        if wire::fits(data, pos, 4) {
            Option::Some(
                (
                    SpecGgufValue::F32(spec_u32_from_le_bytes(data.subrange(pos, pos + 4))),
                    pos + 4,
                ),
            )
        } else {
            Option::None
        }
    } else if type_id == 7 {
        if wire::fits(data, pos, 1) {
            Option::Some((SpecGgufValue::Bool(data[pos] != 0), pos + 1))
        } else {
            Option::None
        }
    } else if type_id == 8 {
        match spec_read_string(data, pos) {
            Option::None => Option::None,
            Option::Some((s, end)) => Option::Some((SpecGgufValue::Str(s), end)),
        }
    } else if type_id == 9 {
        if !wire::fits(data, pos, 12) {
            Option::None
        } else {
            let et = spec_u32_from_le_bytes(data.subrange(pos, pos + 4));
            let cnt = spec_u64_from_le_bytes(data.subrange(pos + 4, pos + 12));
            if cnt > usize::MAX as u64 {
                Option::None
            } else {
                match spec_read_array(data, pos + 12, et, cnt as nat) {
                    Option::None => Option::None,
                    Option::Some((vs, end)) => Option::Some((SpecGgufValue::Array(vs), end)),
                }
            }
        }
    } else if type_id == 10 {
        if wire::fits(data, pos, 8) {
            Option::Some(
                (
                    SpecGgufValue::U64(spec_u64_from_le_bytes(data.subrange(pos, pos + 8))),
                    pos + 8,
                ),
            )
        } else {
            Option::None
        }
    } else if type_id == 11 {
        if wire::fits(data, pos, 8) {
            Option::Some(
                (
                    SpecGgufValue::I64(spec_u64_from_le_bytes(data.subrange(pos, pos + 8)) as i64),
                    pos + 8,
                ),
            )
        } else {
            Option::None
        }
    } else if type_id == 12 {
        if wire::fits(data, pos, 8) {
            Option::Some(
                (
                    SpecGgufValue::F64(spec_u64_from_le_bytes(data.subrange(pos, pos + 8))),
                    pos + 8,
                ),
            )
        } else {
            Option::None
        }
    } else {
        Option::None
    }
}

/// What `count` consecutive values of one element type at `pos` denote.
pub open spec fn spec_read_array(data: Seq<u8>, pos: int, elem_type: u32, count: nat) -> Option<
    (Seq<SpecGgufValue>, int),
>
    decreases data.len() - pos, count + 1,
{
    if pos < 0 || pos > data.len() {
        Option::None
    } else if count == 0 {
        Option::Some((Seq::empty(), pos))
    } else {
        match spec_read_value(data, pos, elem_type) {
            Option::None => Option::None,
            Option::Some((v, end)) => if end <= pos || end > data.len() {
                Option::None
            } else {
                match spec_read_array(data, end, elem_type, (count - 1) as nat) {
                    Option::None => Option::None,
                    Option::Some((vs, fin)) => Option::Some((seq![v] + vs, fin)),
                }
            },
        }
    }
}

/// The unsupported GGUF type ID a value read runs into, if any: the
/// given ID itself when it is unknown, or the first unknown element
/// type inside an array, in stream order.
pub open spec fn spec_value_bad_type_id(data: Seq<u8>, pos: int, type_id: u32) -> Option<u32>
    decreases data.len() - pos, 0int,
{
    if type_id > 12 {
        Option::Some(type_id)
    } else if pos < 0 || pos > data.len() {
        Option::None
    } else if type_id == 9 {
        if !wire::fits(data, pos, 12) {
            Option::None
        } else {
            let et = spec_u32_from_le_bytes(data.subrange(pos, pos + 4));
            let cnt = spec_u64_from_le_bytes(data.subrange(pos + 4, pos + 12));
            if cnt > usize::MAX as u64 {
                Option::None
            } else {
                spec_array_bad_type_id(data, pos + 12, et, cnt as nat)
            }
        }
    } else {
        Option::None
    }
}

/// The first unsupported type ID among `count` array elements at `pos`,
/// in stream order, when the stream parses that far.
pub open spec fn spec_array_bad_type_id(data: Seq<u8>, pos: int, elem_type: u32, count: nat) -> Option<u32>
    decreases data.len() - pos, count + 1,
{
    if pos < 0 || pos > data.len() || count == 0 {
        Option::None
    } else {
        match spec_value_bad_type_id(data, pos, elem_type) {
            Option::Some(id) => Option::Some(id),
            Option::None => match spec_read_value(data, pos, elem_type) {
                Option::None => Option::None,
                Option::Some((v, end)) => if end <= pos || end > data.len() {
                    Option::None
                } else {
                    spec_array_bad_type_id(data, end, elem_type, (count - 1) as nat)
                },
            },
        }
    }
}

/// A value that parses runs into no unsupported type ID.
proof fn lemma_read_value_no_bad_tid(data: Seq<u8>, pos: int, type_id: u32)
    requires
        spec_read_value(data, pos, type_id) is Some,
    ensures
        spec_value_bad_type_id(data, pos, type_id) is None,
    decreases data.len() - pos, 0int,
{
    if type_id == 9 {
        let et = spec_u32_from_le_bytes(data.subrange(pos, pos + 4));
        let cnt = spec_u64_from_le_bytes(data.subrange(pos + 4, pos + 12));
        lemma_read_array_no_bad_tid(data, pos + 12, et, cnt as nat);
    }
}

/// An array whose elements all parse runs into no unsupported type ID.
proof fn lemma_read_array_no_bad_tid(data: Seq<u8>, pos: int, elem_type: u32, count: nat)
    requires
        spec_read_array(data, pos, elem_type, count) is Some,
    ensures
        spec_array_bad_type_id(data, pos, elem_type, count) is None,
    decreases data.len() - pos, count + 1,
{
    if count > 0 {
        lemma_read_value_no_bad_tid(data, pos, elem_type);
        let (v, end) = spec_read_value(data, pos, elem_type)->Some_0;
        lemma_read_array_no_bad_tid(data, end, elem_type, (count - 1) as nat);
    }
}

/// Reads a GGUF string: u64 little-endian length, that many bytes of
/// UTF-8.  Truncation reports `Io`; bytes that are not UTF-8 are a load
/// error as well.
pub fn read_gguf_string(data: &[u8], pos: usize) -> (r: Result<(Vec<u8>, usize), ModelError>)
    ensures
        (r is Ok) == (spec_read_string(data@, pos as int) is Some),
        r is Ok ==> r->Ok_0.0@ == spec_read_string(data@, pos as int)->Some_0.0 && r->Ok_0.1
            == spec_read_string(data@, pos as int)->Some_0.1 && pos < r->Ok_0.1 <= data@.len(),
        r is Err ==> r->Err_0 is Io || r->Err_0 is Other,
{
    let (n64, p1) = match wire::read_u64(data, pos) {
        Ok(v) => v,
        Err(e) => {
            return Err(ModelError::Io);
        },
    };
    if n64 > usize::MAX as u64 {
        return Err(ModelError::Io);
    }
    let n = n64 as usize;
    let (bytes, p2) = match wire::take_bytes(data, p1, n) {
        Ok(v) => v,
        Err(e) => {
            return Err(ModelError::Io);
        },
    };
    if !wire::utf8_is_valid(bytes.as_slice()) {
        return Err(ModelError::Other(wire::str_to_bytes("invalid UTF-8 in string")));
    }
    Ok((bytes, p2))
}

/// Reads one metadata value of the given GGUF type ID.
pub fn read_value(data: &[u8], pos: usize, type_id: u32) -> (r: Result<
    (GgufMetadataValue, usize),
    ModelError,
>)
    ensures
        (r is Ok) == (spec_read_value(data@, pos as int, type_id) is Some),
        r is Ok ==> view_value(r->Ok_0.0) == spec_read_value(data@, pos as int, type_id)->Some_0.0
            && r->Ok_0.1 == spec_read_value(data@, pos as int, type_id)->Some_0.1 && pos
            < r->Ok_0.1 <= data@.len(),
        r is Err ==> r->Err_0 is Io || r->Err_0 is Other || r->Err_0 is UnsupportedGgufType,
        spec_value_bad_type_id(data@, pos as int, type_id) matches Option::Some(id) ==> (r matches
        Err(ModelError::UnsupportedGgufType(id2)) && id2 == id),
        r matches Err(ModelError::UnsupportedGgufType(id)) ==> spec_value_bad_type_id(
            data@,
            pos as int,
            type_id,
        ) == Option::Some(id),
    decreases data@.len() - pos,
{
    if type_id == 0 {
        match wire::read_u8(data, pos) {
            Ok((b, p)) => Ok((GgufMetadataValue::U8(b), p)),
            Err(e) => Err(ModelError::Io),
        }
    } else if type_id == 1 {
        match wire::read_u8(data, pos) {
            Ok((b, p)) => Ok((GgufMetadataValue::I8(b as i8), p)),
            Err(e) => Err(ModelError::Io),
        }
    } else if type_id == 2 {
        match wire::read_u16(data, pos) {
            Ok((x, p)) => Ok((GgufMetadataValue::U16(x), p)),
            Err(e) => Err(ModelError::Io),
        }
    } else if type_id == 3 {
        match wire::read_u16(data, pos) {
            Ok((x, p)) => Ok((GgufMetadataValue::I16(x as i16), p)),
            Err(e) => Err(ModelError::Io),
        }
    } else if type_id == 4 {
        match wire::read_u32(data, pos) {
            Ok((x, p)) => Ok((GgufMetadataValue::U32(x), p)),
            Err(e) => Err(ModelError::Io),
        }
    } else if type_id == 5 {
        match wire::read_u32(data, pos) {
            Ok((x, p)) => Ok((GgufMetadataValue::I32(x as i32), p)),
            Err(e) => Err(ModelError::Io),
        }
    } else if type_id == 6 {
        match wire::read_u32(data, pos) {
            Ok((x, p)) => Ok((GgufMetadataValue::F32(x), p)),
            Err(e) => Err(ModelError::Io),
        }
    } else if type_id == 7 {
        match wire::read_u8(data, pos) {
            Ok((b, p)) => Ok((GgufMetadataValue::Bool(b != 0), p)),
            Err(e) => Err(ModelError::Io),
        }
    } else if type_id == 8 {
        match read_gguf_string(data, pos) {
            Ok((s, p)) => Ok((GgufMetadataValue::Str(s), p)),
            Err(e) => Err(e),
        }
    } else if type_id == 9 {
        let (et, p1) = match wire::read_u32(data, pos) {
            Ok(v) => v,
            Err(e) => {
                return Err(ModelError::Io);
            },
        };
        let (cnt64, p2) = match wire::read_u64(data, p1) {
            Ok(v) => v,
            Err(e) => {
                return Err(ModelError::Io);
            },
        };
        if cnt64 > usize::MAX as u64 {
            return Err(ModelError::Io);
        }
        let count = cnt64 as usize;
        let mut vals: Vec<GgufMetadataValue> = Vec::new();
        let mut cur: usize = p2;
        proof {
            assert(pos + 12 <= data@.len());
            assert(spec_read_value(data@, pos as int, 9) == (
            match spec_read_array(data@, pos + 12, et, count as nat) {
                Option::None => Option::<(SpecGgufValue, int)>::None,
                Option::Some((vs, end)) => Option::Some((SpecGgufValue::Array(vs), end)),
            }));
            match spec_read_array(data@, p2 as int, et, count as nat) {
                Option::None => {},
                Option::Some((vs, fin)) => {
                    assert(view_values(vals@) + vs =~= vs);
                },
            }
        }
        let mut i: usize = 0;
        while i < count
            invariant
                type_id == 9,
                0 <= i <= count,
                pos + 12 <= data@.len(),
                pos < cur <= data@.len(),
                vals@.len() == i,
                spec_read_value(data@, pos as int, 9) is Some == spec_read_array(
                    data@,
                    pos + 12,
                    et,
                    count as nat,
                ) is Some,
                spec_read_array(data@, pos + 12, et, count as nat) is Some ==> spec_read_value(
                    data@,
                    pos as int,
                    9,
                ) == Option::Some(
                    (
                        SpecGgufValue::Array(
                            spec_read_array(data@, pos + 12, et, count as nat)->Some_0.0,
                        ),
                        spec_read_array(data@, pos + 12, et, count as nat)->Some_0.1,
                    ),
                ),
                spec_value_bad_type_id(data@, pos as int, 9) == spec_array_bad_type_id(
                    data@,
                    pos + 12,
                    et,
                    count as nat,
                ),
                spec_array_bad_type_id(data@, pos + 12, et, count as nat)
                    == spec_array_bad_type_id(data@, cur as int, et, (count - i) as nat),
                match spec_read_array(data@, cur as int, et, (count - i) as nat) {
                    Option::None => spec_read_array(data@, pos + 12, et, count as nat) is None,
                    Option::Some((vs, fin)) => spec_read_array(data@, pos + 12, et, count as nat)
                        == Option::Some((view_values(vals@) + vs, fin)),
                },
            decreases count - i,
        {
            let ghost rem = (count - i) as nat;
            match read_value(data, cur, et) {
                Ok((v, end)) => {
                    proof {
                        assert(rem >= 1);
                        assert(spec_read_value(data@, cur as int, et) == Option::Some(
                            (view_value(v), end as int),
                        ));
                        lemma_read_value_no_bad_tid(data@, cur as int, et);
                        assert(spec_array_bad_type_id(data@, cur as int, et, rem)
                            == spec_array_bad_type_id(data@, end as int, et, (rem - 1) as nat));
                        assert(spec_read_array(data@, cur as int, et, rem) == (
                        match spec_read_array(data@, end as int, et, (rem - 1) as nat) {
                            Option::None => Option::<(Seq<SpecGgufValue>, int)>::None,
                            Option::Some((vs, fin)) => Option::Some(
                                (seq![view_value(v)] + vs, fin),
                            ),
                        }));
                        match spec_read_array(data@, end as int, et, (rem - 1) as nat) {
                            Option::None => {},
                            Option::Some((vs, fin)) => {
                                assert(view_values(vals@.push(v)) =~= view_values(vals@) + seq![
                                    view_value(v),
                                ]);
                                assert(view_values(vals@) + (seq![view_value(v)] + vs) =~= (
                                view_values(vals@) + seq![view_value(v)]) + vs);
                            },
                        }
                    }
                    vals.push(v);
                    cur = end;
                },
                Err(e) => {
                    proof {
                        assert(rem >= 1);
                        assert(spec_read_value(data@, cur as int, et) is None);
                        assert(spec_read_array(data@, cur as int, et, rem) is None);
                        assert(spec_read_array(data@, pos + 12, et, count as nat) is None);
                        assert(spec_read_value(data@, pos as int, 9) is None);
                        assert(type_id == 9);
                        match spec_value_bad_type_id(data@, cur as int, et) {
                            Option::Some(id) => {
                                assert(spec_array_bad_type_id(data@, cur as int, et, rem)
                                    == Option::Some(id));
                            },
                            Option::None => {
                                assert(spec_array_bad_type_id(data@, cur as int, et, rem)
                                    is None);
                            },
                        }
                    }
                    return Err(e);
                },
            }
            i += 1;
        }
        proof {
            assert(spec_read_array(data@, cur as int, et, 0) == Option::Some(
                (Seq::<SpecGgufValue>::empty(), cur as int),
            ));
            assert(view_values(vals@) + Seq::<SpecGgufValue>::empty() =~= view_values(vals@));
            assert(view_value(GgufMetadataValue::Array(vals)) == SpecGgufValue::Array(
                view_values(vals@),
            )) by {
                lemma_view_vec_prefix(vals, vals@.len() as int);
                assert(view_vec_prefix(vals, vals@.len() as int) =~= view_values(vals@));
            }
            lemma_read_array_no_bad_tid(data@, pos + 12, et, count as nat);
        }
        Ok((GgufMetadataValue::Array(vals), cur))
    } else if type_id == 10 {
        match wire::read_u64(data, pos) {
            Ok((x, p)) => Ok((GgufMetadataValue::U64(x), p)),
            Err(e) => Err(ModelError::Io),
        }
    } else if type_id == 11 {
        match wire::read_u64(data, pos) {
            Ok((x, p)) => Ok((GgufMetadataValue::I64(x as i64), p)),
            Err(e) => Err(ModelError::Io),
        }
    } else if type_id == 12 {
        match wire::read_u64(data, pos) {
            Ok((x, p)) => Ok((GgufMetadataValue::F64(x), p)),
            Err(e) => Err(ModelError::Io),
        }
    } else {
        Err(ModelError::UnsupportedGgufType(type_id))
    }
}

/// The images of a sequence of executable entries.
pub open spec fn view_entries(s: Seq<(Vec<u8>, GgufMetadataValue)>) -> Seq<
    (Seq<u8>, SpecGgufValue),
> {
    Seq::new(s.len(), |i: int| (s[i].0@, view_value(s[i].1)))
}

/// What `n` consecutive key-value entries at `pos` denote.  Each entry is
/// a GGUF string key, a u32 type ID, and a value of that type.
pub open spec fn spec_read_entries(data: Seq<u8>, pos: int, n: nat) -> Option<
    (Seq<(Seq<u8>, SpecGgufValue)>, int),
>
    decreases data.len() - pos, n,
{
    if pos < 0 || pos > data.len() {
        Option::None
    } else if n == 0 {
        Option::Some((Seq::empty(), pos))
    } else {
        match spec_read_string(data, pos) {
            Option::None => Option::None,
            Option::Some((key, p1)) => if p1 <= pos || p1 + 4 > data.len() {
                Option::None
            } else {
                let tid = spec_u32_from_le_bytes(data.subrange(p1, p1 + 4));
                match spec_read_value(data, p1 + 4, tid) {
                    Option::None => Option::None,
                    Option::Some((v, p2)) => if p2 <= pos || p2 > data.len() {
                        Option::None
                    } else {
                        match spec_read_entries(data, p2, (n - 1) as nat) {
                            Option::None => Option::None,
                            Option::Some((es, fin)) => Option::Some((seq![(key, v)] + es, fin)),
                        }
                    },
                }
            },
        }
    }
}

/// The value, if any, that the entry table associates with `key`: the
/// last entry with that key wins, mirroring insertion into a map.
pub open spec fn spec_lookup(entries: Seq<(Seq<u8>, SpecGgufValue)>, key: Seq<u8>) -> Option<
    SpecGgufValue,
>
    decreases entries.len(),
{
    if entries.len() == 0 {
        Option::None
    } else if entries.last().0 == key {
        Option::Some(entries.last().1)
    } else {
        spec_lookup(entries.drop_last(), key)
    }
}

/// Index of the first element whose kind is not `kind`, or -1 when every
/// element has that kind.
pub open spec fn first_not_kind(vs: Seq<SpecGgufValue>, kind: GgufValueType) -> int
    decreases vs.len(),
{
    if vs.len() == 0 {
        -1
    } else if spec_kind(vs[0]) != kind {
        0
    } else {
        let r = first_not_kind(vs.drop_first(), kind);
        if r < 0 {
            -1
        } else {
            r + 1
        }
    }
}

/// When the first `i` elements have kind `kind` and element `i` does not,
/// `first_not_kind` is exactly `i`.
pub proof fn lemma_first_not_kind_at(vs: Seq<SpecGgufValue>, kind: GgufValueType, i: int)
    requires
        0 <= i < vs.len(),
        forall|k: int| 0 <= k < i ==> spec_kind(vs[k]) == kind,
        spec_kind(vs[i]) != kind,
    ensures
        first_not_kind(vs, kind) == i,
    decreases i,
{
    if i > 0 {
        lemma_first_not_kind_at(vs.drop_first(), kind, i - 1);
    }
}

/// When every element has kind `kind`, `first_not_kind` is -1.
pub proof fn lemma_first_not_kind_none(vs: Seq<SpecGgufValue>, kind: GgufValueType)
    requires
        forall|k: int| 0 <= k < vs.len() ==> spec_kind(vs[k]) == kind,
    ensures
        first_not_kind(vs, kind) == -1,
    decreases vs.len(),
{
    if vs.len() > 0 {
        lemma_first_not_kind_none(vs.drop_first(), kind);
    }
}

/// The key an array getter reports for a wrong-kind element: the
/// looked-up key with the element's index appended in brackets, for
/// example "tokenizer.ggml.tokens[3]".
pub open spec fn indexed_key(key: Seq<u8>, i: int) -> Seq<u8> {
    key + seq![0x5Bu8] + crate::gguf::wire::spec_decimal(i as nat) + seq![0x5Du8]
}

/// The error a typed scalar getter for `key` yields when the value is
/// absent or of another kind: `MissingKey` with the key, or
/// `TypeMismatch` naming the key, the expected kind and the found kind.
pub open spec fn is_scalar_lookup_err(
    e: ModelError,
    md: Seq<(Seq<u8>, SpecGgufValue)>,
    key: Seq<u8>,
    expected: GgufValueType,
) -> bool {
    match spec_lookup(md, key) {
        Option::None => e matches ModelError::MissingKey(k) && k@ == key,
        Option::Some(v) => e matches ModelError::TypeMismatch { key: k, expected: ex, got }
            && k@ == key && ex == expected && got == spec_kind(v),
    }
}

/// The error an array getter for `key` with `elem`-kind elements yields
/// when the value is absent, not an array, or holds a wrong-kind
/// element (the first such element's kind is named, under the key with
/// that element's index appended).
pub open spec fn is_array_lookup_err(
    e: ModelError,
    md: Seq<(Seq<u8>, SpecGgufValue)>,
    key: Seq<u8>,
    elem: GgufValueType,
) -> bool {
    match spec_lookup(md, key) {
        Option::None => e matches ModelError::MissingKey(k) && k@ == key,
        Option::Some(v) => match v {
            SpecGgufValue::Array(vs) => e matches ModelError::TypeMismatch {
                key: k,
                expected: ex,
                got,
            } && k@ == indexed_key(key, first_not_kind(vs, elem)) && ex == elem && got == spec_kind(
                vs[first_not_kind(vs, elem)],
            ),
            _ => e matches ModelError::TypeMismatch { key: k, expected: ex, got } && k@ == key
                && ex == GgufValueType::Array && got == spec_kind(v),
        },
    }
}

/// The GGUF metadata table: the key-value entries in file order.
pub struct GgufMetadata {
    /// The entries in file order; on lookup, the last entry with a given
    /// key wins.
    pub entries: Vec<(Vec<u8>, GgufMetadataValue)>,
}

impl View for GgufMetadata {
    type V = Seq<(Seq<u8>, SpecGgufValue)>;

    open spec fn view(&self) -> Seq<(Seq<u8>, SpecGgufValue)> {
        view_entries(self.entries@)
    }
}

impl GgufMetadata {
    /// The entry stored under `key`, if any.
    pub fn lookup(&self, key: &[u8]) -> (r: Option<&GgufMetadataValue>)
        ensures
            match spec_lookup(self@, key@) {
                Option::None => r is None,
                Option::Some(v) => r is Some && view_value(*r->Some_0) == v,
            },
    {
        let n = self.entries.len();
        let mut j: usize = n;
        proof {
            assert(self@.subrange(0, n as int) =~= self@);
        }
        while j > 0
            invariant
                0 <= j <= n,
                n == self.entries@.len(),
                spec_lookup(self@, key@) == spec_lookup(self@.subrange(0, j as int), key@),
            decreases j,
        {
            j -= 1;
            let pair = &self.entries[j];
            if crate::bytes_eq(pair.0.as_slice(), key) {
                proof {
                    assert(self@.subrange(0, j + 1).last() == (pair.0@, view_value(pair.1)));
                }
                return Some(&pair.1);
            }
            proof {
                assert(self@.subrange(0, j + 1).last().0 != key@);
                assert(self@.subrange(0, j + 1).drop_last() =~= self@.subrange(0, j as int));
            }
        }
        proof {
            assert(self@.subrange(0, 0) =~= Seq::<(Seq<u8>, SpecGgufValue)>::empty());
        }
        None
    }

    /// The `u32` stored under `key`; `MissingKey` when absent,
    /// `TypeMismatch` when present with another kind.
    pub fn get_u32(&self, key: &[u8]) -> (r: Result<u32, ModelError>)
        ensures
            match spec_lookup(self@, key@) {
                Option::None => r matches Err(ModelError::MissingKey(k)) && k@ == key@,
                Option::Some(v) => match v {
                    SpecGgufValue::U32(x) => r matches Ok(y) && y == x,
                    _ => r matches Err(ModelError::TypeMismatch { key: k, expected, got })
                        && k@ == key@ && expected == GgufValueType::U32 && got == spec_kind(v),
                },
            },
    {
        match self.lookup(key) {
            Some(v) => match v {
                GgufMetadataValue::U32(x) => Ok(*x),
                other => Err(
                    ModelError::TypeMismatch {
                        key: vstd::slice::slice_to_vec(key),
                        expected: GgufValueType::U32,
                        got: other.value_type(),
                    },
                ),
            },
            None => Err(ModelError::MissingKey(vstd::slice::slice_to_vec(key))),
        }
    }

    /// The `u64` stored under `key`.
    pub fn get_u64(&self, key: &[u8]) -> (r: Result<u64, ModelError>)
        ensures
            match spec_lookup(self@, key@) {
                Option::None => r matches Err(ModelError::MissingKey(k)) && k@ == key@,
                Option::Some(v) => match v {
                    SpecGgufValue::U64(x) => r matches Ok(y) && y == x,
                    _ => r matches Err(ModelError::TypeMismatch { key: k, expected, got })
                        && k@ == key@ && expected == GgufValueType::U64 && got == spec_kind(v),
                },
            },
    {
        match self.lookup(key) {
            Some(v) => match v {
                GgufMetadataValue::U64(x) => Ok(*x),
                other => Err(
                    ModelError::TypeMismatch {
                        key: vstd::slice::slice_to_vec(key),
                        expected: GgufValueType::U64,
                        got: other.value_type(),
                    },
                ),
            },
            None => Err(ModelError::MissingKey(vstd::slice::slice_to_vec(key))),
        }
    }

    /// The `i32` stored under `key`.
    pub fn get_i32(&self, key: &[u8]) -> (r: Result<i32, ModelError>)
        ensures
            match spec_lookup(self@, key@) {
                Option::None => r matches Err(ModelError::MissingKey(k)) && k@ == key@,
                Option::Some(v) => match v {
                    SpecGgufValue::I32(x) => r matches Ok(y) && y == x,
                    _ => r matches Err(ModelError::TypeMismatch { key: k, expected, got })
                        && k@ == key@ && expected == GgufValueType::I32 && got == spec_kind(v),
                },
            },
    {
        match self.lookup(key) {
            Some(v) => match v {
                GgufMetadataValue::I32(x) => Ok(*x),
                other => Err(
                    ModelError::TypeMismatch {
                        key: vstd::slice::slice_to_vec(key),
                        expected: GgufValueType::I32,
                        got: other.value_type(),
                    },
                ),
            },
            None => Err(ModelError::MissingKey(vstd::slice::slice_to_vec(key))),
        }
    }

    /// The 32-bit IEEE value stored under `key`, as its bit pattern.
    pub fn get_f32(&self, key: &[u8]) -> (r: Result<u32, ModelError>)
        ensures
            match spec_lookup(self@, key@) {
                Option::None => r matches Err(ModelError::MissingKey(k)) && k@ == key@,
                Option::Some(v) => match v {
                    SpecGgufValue::F32(x) => r matches Ok(y) && y == x,
                    _ => r matches Err(ModelError::TypeMismatch { key: k, expected, got })
                        && k@ == key@ && expected == GgufValueType::F32 && got == spec_kind(v),
                },
            },
    {
        match self.lookup(key) {
            Some(v) => match v {
                GgufMetadataValue::F32(x) => Ok(*x),
                other => Err(
                    ModelError::TypeMismatch {
                        key: vstd::slice::slice_to_vec(key),
                        expected: GgufValueType::F32,
                        got: other.value_type(),
                    },
                ),
            },
            None => Err(ModelError::MissingKey(vstd::slice::slice_to_vec(key))),
        }
    }

    /// The string stored under `key`, as its bytes.
    pub fn get_string(&self, key: &[u8]) -> (r: Result<Vec<u8>, ModelError>)
        ensures
            match spec_lookup(self@, key@) {
                Option::None => r matches Err(ModelError::MissingKey(k)) && k@ == key@,
                Option::Some(v) => match v {
                    SpecGgufValue::Str(s) => r matches Ok(y) && y@ == s,
                    _ => r matches Err(ModelError::TypeMismatch { key: k, expected, got })
                        && k@ == key@ && expected == GgufValueType::Str && got == spec_kind(v),
                },
            },
    {
        match self.lookup(key) {
            Some(v) => match v {
                GgufMetadataValue::Str(s) => Ok(s.clone()),
                other => Err(
                    ModelError::TypeMismatch {
                        key: vstd::slice::slice_to_vec(key),
                        expected: GgufValueType::Str,
                        got: other.value_type(),
                    },
                ),
            },
            None => Err(ModelError::MissingKey(vstd::slice::slice_to_vec(key))),
        }
    }

    /// The string array stored under `key`, each element as its bytes.
    /// An element of another kind is a `TypeMismatch` naming that kind,
    /// under the key with the element's index appended ("key[i]").
    pub fn get_string_array(&self, key: &[u8]) -> (r: Result<Vec<Vec<u8>>, ModelError>)
        ensures
            match spec_lookup(self@, key@) {
                Option::None => r matches Err(ModelError::MissingKey(k)) && k@ == key@,
                Option::Some(v) => match v {
                    SpecGgufValue::Array(vs) => if first_not_kind(vs, GgufValueType::Str) == -1 {
                        r matches Ok(y) && y@.len() == vs.len() && (forall|i: int|
                            0 <= i < vs.len() ==> y@[i]@ == vs[i]->Str_0)
                    } else {
                        r matches Err(ModelError::TypeMismatch { key: k, expected, got })
                            && k@ == indexed_key(key@, first_not_kind(vs, GgufValueType::Str))
                            && expected == GgufValueType::Str && got == spec_kind(
                            vs[first_not_kind(vs, GgufValueType::Str)],
                        )
                    },
                    _ => r matches Err(ModelError::TypeMismatch { key: k, expected, got })
                        && k@ == key@ && expected == GgufValueType::Array && got == spec_kind(v),
                },
            },
    {
        let arr = match self.lookup(key) {
            Some(v) => match v {
                GgufMetadataValue::Array(vs) => vs,
                other => {
                    return Err(
                        ModelError::TypeMismatch {
                            key: vstd::slice::slice_to_vec(key),
                            expected: GgufValueType::Array,
                            got: other.value_type(),
                        },
                    );
                },
            },
            None => {
                return Err(ModelError::MissingKey(vstd::slice::slice_to_vec(key)));
            },
        };
        let ghost vs = spec_lookup(self@, key@)->Some_0->Array_0;
        proof {
            lemma_view_vec_prefix(*arr, arr@.len() as int);
        }
        let mut out: Vec<Vec<u8>> = Vec::new();
        let mut i: usize = 0;
        while i < arr.len()
            invariant
                0 <= i <= arr@.len(),
                spec_lookup(self@, key@) == Option::Some(SpecGgufValue::Array(vs)),
                vs.len() == arr@.len(),
                forall|k: int| 0 <= k < vs.len() ==> vs[k] == view_value(arr@[k]),
                out@.len() == i,
                forall|k: int| 0 <= k < i ==> spec_kind(vs[k]) == GgufValueType::Str,
                forall|k: int| 0 <= k < i ==> out@[k]@ == vs[k]->Str_0,
            decreases arr@.len() - i,
        {
            match &arr[i] {
                GgufMetadataValue::Str(s) => {
                    out.push(s.clone());
                },
                other => {
                    proof {
                        lemma_first_not_kind_at(vs, GgufValueType::Str, i as int);
                    }
                    let mut bad_key = vstd::slice::slice_to_vec(key);
                    bad_key.push(0x5B);
                    let mut digits = wire::usize_decimal(i);
                    bad_key.append(&mut digits);
                    bad_key.push(0x5D);
                    proof {
                        assert(bad_key@ =~= indexed_key(key@, i as int));
                    }
                    return Err(
                        ModelError::TypeMismatch {
                            key: bad_key,
                            expected: GgufValueType::Str,
                            got: other.value_type(),
                        },
                    );
                },
            }
            i += 1;
        }
        proof {
            lemma_first_not_kind_none(vs, GgufValueType::Str);
        }
        Ok(out)
    }

    /// The 32-bit IEEE array stored under `key`, each element as its bit
    /// pattern; an element of another kind is a `TypeMismatch` naming
    /// that kind, under the key with the element's index appended
    /// ("key[i]").
    pub fn get_f32_array(&self, key: &[u8]) -> (r: Result<Vec<u32>, ModelError>)
        ensures
            match spec_lookup(self@, key@) {
                Option::None => r matches Err(ModelError::MissingKey(k)) && k@ == key@,
                Option::Some(v) => match v {
                    SpecGgufValue::Array(vs) => if first_not_kind(vs, GgufValueType::F32) == -1 {
                        r matches Ok(y) && y@ == Seq::new(vs.len(), |i: int| vs[i]->F32_0)
                    } else {
                        r matches Err(ModelError::TypeMismatch { key: k, expected, got })
                            && k@ == indexed_key(key@, first_not_kind(vs, GgufValueType::F32))
                            && expected == GgufValueType::F32 && got == spec_kind(
                            vs[first_not_kind(vs, GgufValueType::F32)],
                        )
                    },
                    _ => r matches Err(ModelError::TypeMismatch { key: k, expected, got })
                        && k@ == key@ && expected == GgufValueType::Array && got == spec_kind(v),
                },
            },
    {
        let arr = match self.lookup(key) {
            Some(v) => match v {
                GgufMetadataValue::Array(vs) => vs,
                other => {
                    return Err(
                        ModelError::TypeMismatch {
                            key: vstd::slice::slice_to_vec(key),
                            expected: GgufValueType::Array,
                            got: other.value_type(),
                        },
                    );
                },
            },
            None => {
                return Err(ModelError::MissingKey(vstd::slice::slice_to_vec(key)));
            },
        };
        let ghost vs = spec_lookup(self@, key@)->Some_0->Array_0;
        proof {
            lemma_view_vec_prefix(*arr, arr@.len() as int);
        }
        let mut out: Vec<u32> = Vec::new();
        let mut i: usize = 0;
        while i < arr.len()
            invariant
                0 <= i <= arr@.len(),
                spec_lookup(self@, key@) == Option::Some(SpecGgufValue::Array(vs)),
                vs.len() == arr@.len(),
                forall|k: int| 0 <= k < vs.len() ==> vs[k] == view_value(arr@[k]),
                out@.len() == i,
                forall|k: int| 0 <= k < i ==> spec_kind(vs[k]) == GgufValueType::F32,
                forall|k: int| 0 <= k < i ==> out@[k] == vs[k]->F32_0,
            decreases arr@.len() - i,
        {
            match &arr[i] {
                GgufMetadataValue::F32(x) => {
                    out.push(*x);
                },
                other => {
                    proof {
                        lemma_first_not_kind_at(vs, GgufValueType::F32, i as int);
                    }
                    let mut bad_key = vstd::slice::slice_to_vec(key);
                    bad_key.push(0x5B);
                    let mut digits = wire::usize_decimal(i);
                    bad_key.append(&mut digits);
                    bad_key.push(0x5D);
                    proof {
                        assert(bad_key@ =~= indexed_key(key@, i as int));
                    }
                    return Err(
                        ModelError::TypeMismatch {
                            key: bad_key,
                            expected: GgufValueType::F32,
                            got: other.value_type(),
                        },
                    );
                },
            }
            i += 1;
        }
        proof {
            lemma_first_not_kind_none(vs, GgufValueType::F32);
            assert(out@ =~= Seq::new(vs.len(), |k: int| vs[k]->F32_0));
        }
        Ok(out)
    }

    /// Parses `n_kv` key-value entries starting at `pos`.
    pub fn parse_kv(data: &[u8], pos: usize, n_kv: u64) -> (r: Result<
        (GgufMetadata, usize),
        ModelError,
    >)
        ensures
            (r is Ok) == (spec_read_entries(data@, pos as int, n_kv as nat) is Some),
            r is Ok ==> r->Ok_0.0@ == spec_read_entries(data@, pos as int, n_kv as nat)->Some_0.0
                && r->Ok_0.1 == spec_read_entries(data@, pos as int, n_kv as nat)->Some_0.1 && pos
                <= r->Ok_0.1 <= data@.len(),
            r is Err ==> r->Err_0 is Io || r->Err_0 is Other || r->Err_0 is UnsupportedGgufType,
    {
        if pos > data.len() {
            return Err(ModelError::Io);
        }
        let mut entries: Vec<(Vec<u8>, GgufMetadataValue)> = Vec::new();
        let mut cur: usize = pos;
        proof {
            match spec_read_entries(data@, pos as int, n_kv as nat) {
                Option::None => {},
                Option::Some((es, fin)) => {
                    assert(view_entries(entries@) + es =~= es);
                },
            }
        }
        let mut i: u64 = 0;
        while i < n_kv
            invariant
                0 <= i <= n_kv,
                pos <= cur <= data@.len(),
                entries@.len() == i,
                match spec_read_entries(data@, cur as int, (n_kv - i) as nat) {
                    Option::None => spec_read_entries(data@, pos as int, n_kv as nat) is None,
                    Option::Some((es, fin)) => spec_read_entries(data@, pos as int, n_kv as nat)
                        == Option::Some((view_entries(entries@) + es, fin)),
                },
            decreases n_kv - i,
        {
            let ghost rem = (n_kv - i) as nat;
            let (key, p1) = match read_gguf_string(data, cur) {
                Ok(v) => v,
                Err(e) => {
                    proof {
                        assert(spec_read_entries(data@, cur as int, rem) is None);
                    }
                    return Err(e);
                },
            };
            let (type_id, p2) = match wire::read_u32(data, p1) {
                Ok(v) => v,
                Err(e) => {
                    proof {
                        assert(spec_read_entries(data@, cur as int, rem) is None);
                    }
                    return Err(ModelError::Io);
                },
            };
            let (value, p3) = match read_value(data, p2, type_id) {
                Ok(v) => v,
                Err(e) => {
                    proof {
                        assert(spec_read_entries(data@, cur as int, rem) is None);
                    }
                    return Err(e);
                },
            };
            proof {
                assert(spec_read_entries(data@, cur as int, rem) == (
                match spec_read_entries(data@, p3 as int, (rem - 1) as nat) {
                    Option::None => Option::<(Seq<(Seq<u8>, SpecGgufValue)>, int)>::None,
                    Option::Some((es, fin)) => Option::Some(
                        (seq![(key@, view_value(value))] + es, fin),
                    ),
                }));
                match spec_read_entries(data@, p3 as int, (rem - 1) as nat) {
                    Option::None => {},
                    Option::Some((es, fin)) => {
                        assert(view_entries(entries@.push((key, value))) =~= view_entries(entries@)
                            + seq![(key@, view_value(value))]);
                        assert(view_entries(entries@) + (seq![(key@, view_value(value))] + es) =~= (
                        view_entries(entries@) + seq![(key@, view_value(value))]) + es);
                    },
                }
            }
            entries.push((key, value));
            cur = p3;
            i += 1;
        }
        proof {
            assert(spec_read_entries(data@, cur as int, 0) == Option::Some(
                (Seq::<(Seq<u8>, SpecGgufValue)>::empty(), cur as int),
            ));
            assert(view_entries(entries@) + Seq::<(Seq<u8>, SpecGgufValue)>::empty()
                =~= view_entries(entries@));
        }
        Ok((GgufMetadata { entries }, cur))
    }
}

} // verus!
