//! Conversion between values and the MessagePack value space of the wire.
//!
//! A wire value is held here as plain data: what a decoder read from a frame,
//! or what an encoder is to write into one.

use vstd::prelude::*;
use vstd::utf8::*;
use crate::error::EnokiError;
use crate::nt_types::{wire_type_of, NtType};
use crate::value::{copy_items, strings_model, EnokiValue, TypeTag, ValueModel};

verus! {

/// A MessagePack item as it stands at the top of a frame or inside an array.
#[derive(Clone, Debug, PartialEq)]
pub enum WireScalar {
    Nil,
    Boolean(bool),
    /// An integer that fits in 64 signed bits.
    Integer(i64),
    /// An integer above the signed range.
    Unsigned(u64),
    /// Single precision, as bits.
    F32(u32),
    /// Double precision, as bits.
    F64(u64),
    /// The bytes of a string, as received: they may not be UTF-8.
    String(Vec<u8>),
    Binary(Vec<u8>),
    /// An array, map or extension nested inside an array.
    Container,
}

/// A MessagePack value.
#[derive(Clone, Debug, PartialEq)]
pub enum WireValue {
    Scalar(WireScalar),
    Array(Vec<WireScalar>),
    Mapping,
    Ext,
}

/// The mathematical content of a [`WireScalar`].
pub enum WireScalarModel {
    Nil,
    Boolean(bool),
    Integer(i64),
    Unsigned(u64),
    F32(u32),
    F64(u64),
    String(Seq<u8>),
    Binary(Seq<u8>),
    Container,
}

/// The mathematical content of a [`WireValue`].
pub enum WireModel {
    Scalar(WireScalarModel),
    Array(Seq<WireScalarModel>),
    Mapping,
    Ext,
}

impl View for WireScalar {
    type V = WireScalarModel;

    open spec fn view(&self) -> WireScalarModel {
        match self {
            WireScalar::Nil => WireScalarModel::Nil,
            WireScalar::Boolean(b) => WireScalarModel::Boolean(*b),
            WireScalar::Integer(v) => WireScalarModel::Integer(*v),
            WireScalar::Unsigned(v) => WireScalarModel::Unsigned(*v),
            WireScalar::F32(v) => WireScalarModel::F32(*v),
            WireScalar::F64(v) => WireScalarModel::F64(*v),
            WireScalar::String(v) => WireScalarModel::String(v@),
            WireScalar::Binary(v) => WireScalarModel::Binary(v@),
            WireScalar::Container => WireScalarModel::Container,
        }
    }
}

/// The contents of a vector of wire items.
pub open spec fn scalars_model(v: Seq<WireScalar>) -> Seq<WireScalarModel> {
    Seq::new(v.len(), |i: int| v[i]@)
}

impl View for WireValue {
    type V = WireModel;

    open spec fn view(&self) -> WireModel {
        match self {
            WireValue::Scalar(s) => WireModel::Scalar(s@),
            WireValue::Array(v) => WireModel::Array(scalars_model(v@)),
            WireValue::Mapping => WireModel::Mapping,
            WireValue::Ext => WireModel::Ext,
        }
    }
}

/// An unsigned wire integer as a signed one: what does not fit becomes the
/// largest signed value.
pub open spec fn saturate(u: u64) -> i64 {
    if u <= i64::MAX as u64 {
        u as i64
    } else {
        i64::MAX
    }
}

impl WireScalarModel {
    /// The single-precision bits that the item holds.
    pub open spec fn f32_bits(self) -> Option<u32> {
        match self {
            WireScalarModel::F32(b) => Some(b),
            _ => None,
        }
    }

    /// The double-precision bits that the item holds.
    pub open spec fn f64_bits(self) -> Option<u64> {
        match self {
            WireScalarModel::F64(b) => Some(b),
            _ => None,
        }
    }

    /// The integer that the item stands for, saturated into the signed range.
    pub open spec fn integer(self) -> Option<i64> {
        match self {
            WireScalarModel::Integer(v) => Some(v),
            WireScalarModel::Unsigned(u) => Some(saturate(u)),
            _ => None,
        }
    }

    /// The boolean that the item holds.
    pub open spec fn boolean(self) -> Option<bool> {
        match self {
            WireScalarModel::Boolean(b) => Some(b),
            _ => None,
        }
    }

    /// The text of a string item whose bytes are UTF-8.
    pub open spec fn text(self) -> Option<Seq<char>> {
        match self {
            WireScalarModel::String(bytes) => if valid_utf8(bytes) {
                Some(decode_utf8(bytes))
            } else {
                None
            },
            _ => None,
        }
    }
}

/// The single-precision bits of all items, where every item holds one.
pub open spec fn all_f32_bits(items: Seq<WireScalarModel>) -> Option<Seq<u32>> {
    if forall|i: int| 0 <= i < items.len() ==> (#[trigger] items[i]).f32_bits().is_some() {
        Some(Seq::new(items.len(), |i: int| items[i].f32_bits().unwrap()))
    } else {
        None
    }
}

/// The double-precision bits of all items, where every item holds one.
pub open spec fn all_f64_bits(items: Seq<WireScalarModel>) -> Option<Seq<u64>> {
    if forall|i: int| 0 <= i < items.len() ==> (#[trigger] items[i]).f64_bits().is_some() {
        Some(Seq::new(items.len(), |i: int| items[i].f64_bits().unwrap()))
    } else {
        None
    }
}

/// The integers of all items, where every item holds one.
pub open spec fn all_integer(items: Seq<WireScalarModel>) -> Option<Seq<i64>> {
    if forall|i: int| 0 <= i < items.len() ==> (#[trigger] items[i]).integer().is_some() {
        Some(Seq::new(items.len(), |i: int| items[i].integer().unwrap()))
    } else {
        None
    }
}

/// The booleans of all items, where every item holds one.
pub open spec fn all_boolean(items: Seq<WireScalarModel>) -> Option<Seq<bool>> {
    if forall|i: int| 0 <= i < items.len() ==> (#[trigger] items[i]).boolean().is_some() {
        Some(Seq::new(items.len(), |i: int| items[i].boolean().unwrap()))
    } else {
        None
    }
}

/// The texts of all items, where every item holds one.
pub open spec fn all_text(items: Seq<WireScalarModel>) -> Option<Seq<Seq<char>>> {
    if forall|i: int| 0 <= i < items.len() ==> (#[trigger] items[i]).text().is_some() {
        Some(Seq::new(items.len(), |i: int| items[i].text().unwrap()))
    } else {
        None
    }
}

/// The value that a wire item stands for at the top of a frame whose
/// topic has the type `t`. The type is what tells a protobuf payload from
/// other bytes; for every other item the item itself says what it is.
pub open spec fn scalar_decode(t: NtType, s: WireScalarModel) -> Result<ValueModel, EnokiError> {
    match s {
        WireScalarModel::Boolean(b) => Ok(ValueModel::Boolean(b)),
        WireScalarModel::Integer(v) => Ok(ValueModel::Int(v)),
        WireScalarModel::Unsigned(u) => Ok(ValueModel::Int(saturate(u))),
        WireScalarModel::F32(b) => Ok(ValueModel::Float(b)),
        WireScalarModel::F64(b) => Ok(ValueModel::Double(b)),
        WireScalarModel::String(bytes) => if valid_utf8(bytes) {
            Ok(ValueModel::String(decode_utf8(bytes)))
        } else {
            Err(EnokiError::TypeMismatch)
        },
        WireScalarModel::Binary(b) => if t == NtType::ProtoBuf {
            Ok(ValueModel::Protobuf(b))
        } else {
            Ok(ValueModel::ByteArray(b))
        },
        WireScalarModel::Nil => Err(EnokiError::TypeMismatch),
        WireScalarModel::Container => Err(EnokiError::TypeMismatch),
    }
}

/// The array value that wire items stand for. Item 0 decides the element
/// type and every other item has to agree with it; no item at all gives an
/// empty array of doubles.
pub open spec fn array_decode(items: Seq<WireScalarModel>) -> Result<ValueModel, EnokiError> {
    if items.len() == 0 {
        Ok(ValueModel::DoubleArray(Seq::empty()))
    } else {
        match items[0] {
            WireScalarModel::F32(_) => match all_f32_bits(items) {
                Some(v) => Ok(ValueModel::FloatArray(v)),
                None => Err(EnokiError::TypeMismatch),
            },
            WireScalarModel::F64(_) => match all_f64_bits(items) {
                Some(v) => Ok(ValueModel::DoubleArray(v)),
                None => Err(EnokiError::TypeMismatch),
            },
            WireScalarModel::Integer(_) | WireScalarModel::Unsigned(_) => match all_integer(items) {
                Some(v) => Ok(ValueModel::IntArray(v)),
                None => Err(EnokiError::TypeMismatch),
            },
            WireScalarModel::String(_) => match all_text(items) {
                Some(v) => Ok(ValueModel::StringArray(v)),
                None => Err(EnokiError::TypeMismatch),
            },
            WireScalarModel::Boolean(_) => match all_boolean(items) {
                Some(v) => Ok(ValueModel::BooleanArray(v)),
                None => Err(EnokiError::TypeMismatch),
            },
            _ => Err(EnokiError::TypeMismatch),
        }
    }
}

/// The value that a wire value stands for in a frame whose topic has the
/// type `t`.
pub open spec fn wire_decode(t: NtType, w: WireModel) -> Result<ValueModel, EnokiError> {
    match w {
        WireModel::Scalar(s) => scalar_decode(t, s),
        WireModel::Array(items) => array_decode(items),
        WireModel::Mapping => Err(EnokiError::TypeMismatch),
        WireModel::Ext => Err(EnokiError::TypeMismatch),
    }
}

/// The one wire encoding of a value.
pub open spec fn wire_encode(v: ValueModel) -> WireModel {
    match v {
        ValueModel::ByteArray(b) => WireModel::Scalar(WireScalarModel::Binary(b)),
        ValueModel::Protobuf(b) => WireModel::Scalar(WireScalarModel::Binary(b)),
        ValueModel::Float(b) => WireModel::Scalar(WireScalarModel::F32(b)),
        ValueModel::Double(b) => WireModel::Scalar(WireScalarModel::F64(b)),
        ValueModel::Int(i) => WireModel::Scalar(WireScalarModel::Integer(i)),
        ValueModel::String(s) => WireModel::Scalar(WireScalarModel::String(encode_utf8(s))),
        ValueModel::Boolean(b) => WireModel::Scalar(WireScalarModel::Boolean(b)),
        ValueModel::FloatArray(v) => WireModel::Array(
            Seq::new(v.len(), |i: int| WireScalarModel::F32(v[i])),
        ),
        ValueModel::DoubleArray(v) => WireModel::Array(
            Seq::new(v.len(), |i: int| WireScalarModel::F64(v[i])),
        ),
        ValueModel::IntArray(v) => WireModel::Array(
            Seq::new(v.len(), |i: int| WireScalarModel::Integer(v[i])),
        ),
        ValueModel::StringArray(v) => WireModel::Array(
            Seq::new(v.len(), |i: int| WireScalarModel::String(encode_utf8(v[i]))),
        ),
        ValueModel::BooleanArray(v) => WireModel::Array(
            Seq::new(v.len(), |i: int| WireScalarModel::Boolean(v[i])),
        ),
    }
}

/// What a value reads as after a trip over the wire: an empty array comes
/// back as an empty array of doubles, and every other value as itself.
pub open spec fn wire_canonical(v: ValueModel) -> ValueModel {
    match v {
        ValueModel::FloatArray(a) => if a.len() == 0 {
            ValueModel::DoubleArray(Seq::empty())
        } else {
            v
        },
        ValueModel::IntArray(a) => if a.len() == 0 {
            ValueModel::DoubleArray(Seq::empty())
        } else {
            v
        },
        ValueModel::StringArray(a) => if a.len() == 0 {
            ValueModel::DoubleArray(Seq::empty())
        } else {
            v
        },
        ValueModel::BooleanArray(a) => if a.len() == 0 {
            ValueModel::DoubleArray(Seq::empty())
        } else {
            v
        },
        _ => v,
    }
}

/// Decoding the encoding of a value, under the topic type of the value,
/// gives the value back; only an empty array comes back as the empty array
/// of doubles.
pub proof fn lemma_wire_roundtrip(v: ValueModel)
    ensures
        wire_decode(wire_type_of(v.tag()), wire_encode(v)) == Ok::<ValueModel, EnokiError>(
            wire_canonical(v),
        ),
        v.len() != Some(0nat) || v.tag().is_binary() || v.tag() == TypeTag::DoubleArray
            ==> wire_decode(
            wire_type_of(v.tag()),
            wire_encode(v),
        ) == Ok::<ValueModel, EnokiError>(v),
{
    broadcast use group_utf8_lib;

    match v {
        ValueModel::FloatArray(a) => {
            if a.len() > 0 {
                let items = Seq::new(a.len(), |i: int| WireScalarModel::F32(a[i]));
                assert forall|i: int| 0 <= i < items.len() implies (#[trigger] items[i]).f32_bits().is_some() by {}
                assert(all_f32_bits(items).unwrap() =~= a);
            }
        },
        ValueModel::DoubleArray(a) => {
            if a.len() > 0 {
                let items = Seq::new(a.len(), |i: int| WireScalarModel::F64(a[i]));
                assert forall|i: int| 0 <= i < items.len() implies (#[trigger] items[i]).f64_bits().is_some() by {}
                assert(all_f64_bits(items).unwrap() =~= a);
            } else {
                assert(a =~= Seq::empty());
            }
        },
        ValueModel::IntArray(a) => {
            if a.len() > 0 {
                let items = Seq::new(a.len(), |i: int| WireScalarModel::Integer(a[i]));
                assert forall|i: int| 0 <= i < items.len() implies (#[trigger] items[i]).integer().is_some() by {}
                assert(all_integer(items).unwrap() =~= a);
            }
        },
        ValueModel::StringArray(a) => {
            if a.len() > 0 {
                let items = Seq::new(a.len(), |i: int| WireScalarModel::String(encode_utf8(a[i])));
                assert forall|i: int| 0 <= i < items.len() implies (#[trigger] items[i]).text().is_some() by {}
                assert(all_text(items).unwrap() =~= a);
            }
        },
        ValueModel::BooleanArray(a) => {
            if a.len() > 0 {
                let items = Seq::new(a.len(), |i: int| WireScalarModel::Boolean(a[i]));
                assert forall|i: int| 0 <= i < items.len() implies (#[trigger] items[i]).boolean().is_some() by {}
                assert(all_boolean(items).unwrap() =~= a);
            }
        },
        _ => {},
    }
}

/// The text that UTF-8 bytes spell, or `None` where they are not UTF-8.
///
/// Trusted: `std::str::from_utf8` accepts a slice exactly when it is
/// well-formed UTF-8, and the string slice it returns has those bytes.
#[verifier::external_body]
fn text_from_utf8(bytes: &Vec<u8>) -> (r: Option<String>)
    ensures
        r.is_some() == valid_utf8(bytes@),
        r.is_some() ==> r.unwrap()@ == decode_utf8(bytes@),
{
    match std::str::from_utf8(bytes.as_slice()) {
        Ok(s) => Some(s.to_string()),
        Err(_) => None,
    }
}

/// The signed integer for an unsigned wire integer.
pub fn saturate_unsigned(u: u64) -> (r: i64)
    ensures
        r == saturate(u),
{
    if u <= 0x7fff_ffff_ffff_ffffu64 {
        u as i64
    } else {
        i64::MAX
    }
}

fn f32_payloads(items: &Vec<WireScalar>) -> (r: Option<Vec<u32>>)
    ensures
        r.is_some() == all_f32_bits(scalars_model(items@)).is_some(),
        r.is_some() ==> r.unwrap()@ == all_f32_bits(scalars_model(items@)).unwrap(),
{
    let ghost m = scalars_model(items@);
    let mut out: Vec<u32> = Vec::new();
    let mut i: usize = 0;
    while i < items.len()
        invariant
            i <= items.len(),
            m == scalars_model(items@),
            out.len() == i,
            forall|j: int| 0 <= j < i ==> (#[trigger] m[j]).f32_bits() == Some(out@[j]),
        decreases items.len() - i,
    {
        match &items[i] {
            WireScalar::F32(b) => {
                out.push(*b);
            },
            _ => {
                assert(m[i as int].f32_bits().is_none());
                return None;
            },
        }
        i += 1;
    }
    assert(all_f32_bits(m).unwrap() =~= out@);
    Some(out)
}

fn f64_payloads(items: &Vec<WireScalar>) -> (r: Option<Vec<u64>>)
    ensures
        r.is_some() == all_f64_bits(scalars_model(items@)).is_some(),
        r.is_some() ==> r.unwrap()@ == all_f64_bits(scalars_model(items@)).unwrap(),
{
    let ghost m = scalars_model(items@);
    let mut out: Vec<u64> = Vec::new();
    let mut i: usize = 0;
    while i < items.len()
        invariant
            i <= items.len(),
            m == scalars_model(items@),
            out.len() == i,
            forall|j: int| 0 <= j < i ==> (#[trigger] m[j]).f64_bits() == Some(out@[j]),
        decreases items.len() - i,
    {
        match &items[i] {
            WireScalar::F64(b) => {
                out.push(*b);
            },
            _ => {
                assert(m[i as int].f64_bits().is_none());
                return None;
            },
        }
        i += 1;
    }
    assert(all_f64_bits(m).unwrap() =~= out@);
    Some(out)
}

fn int_payloads(items: &Vec<WireScalar>) -> (r: Option<Vec<i64>>)
    ensures
        r.is_some() == all_integer(scalars_model(items@)).is_some(),
        r.is_some() ==> r.unwrap()@ == all_integer(scalars_model(items@)).unwrap(),
{
    let ghost m = scalars_model(items@);
    let mut out: Vec<i64> = Vec::new();
    let mut i: usize = 0;
    while i < items.len()
        invariant
            i <= items.len(),
            m == scalars_model(items@),
            out.len() == i,
            forall|j: int| 0 <= j < i ==> (#[trigger] m[j]).integer() == Some(out@[j]),
        decreases items.len() - i,
    {
        match &items[i] {
            WireScalar::Integer(v) => {
                out.push(*v);
            },
            WireScalar::Unsigned(u) => {
                out.push(saturate_unsigned(*u));
            },
            _ => {
                assert(m[i as int].integer().is_none());
                return None;
            },
        }
        i += 1;
    }
    assert(all_integer(m).unwrap() =~= out@);
    Some(out)
}

fn bool_payloads(items: &Vec<WireScalar>) -> (r: Option<Vec<bool>>)
    ensures
        r.is_some() == all_boolean(scalars_model(items@)).is_some(),
        r.is_some() ==> r.unwrap()@ == all_boolean(scalars_model(items@)).unwrap(),
{
    let ghost m = scalars_model(items@);
    let mut out: Vec<bool> = Vec::new();
    let mut i: usize = 0;
    while i < items.len()
        invariant
            i <= items.len(),
            m == scalars_model(items@),
            out.len() == i,
            forall|j: int| 0 <= j < i ==> (#[trigger] m[j]).boolean() == Some(out@[j]),
        decreases items.len() - i,
    {
        match &items[i] {
            WireScalar::Boolean(b) => {
                out.push(*b);
            },
            _ => {
                assert(m[i as int].boolean().is_none());
                return None;
            },
        }
        i += 1;
    }
    assert(all_boolean(m).unwrap() =~= out@);
    Some(out)
}

fn text_payloads(items: &Vec<WireScalar>) -> (r: Option<Vec<String>>)
    ensures
        r.is_some() == all_text(scalars_model(items@)).is_some(),
        r.is_some() ==> strings_model(r.unwrap()@) == all_text(scalars_model(items@)).unwrap(),
{
    let ghost m = scalars_model(items@);
    let mut out: Vec<String> = Vec::new();
    let mut i: usize = 0;
    while i < items.len()
        invariant
            i <= items.len(),
            m == scalars_model(items@),
            out.len() == i,
            forall|j: int| 0 <= j < i ==> (#[trigger] m[j]).text() == Some(out@[j]@),
        decreases items.len() - i,
    {
        match &items[i] {
            WireScalar::String(bytes) => {
                match text_from_utf8(bytes) {
                    Some(s) => {
                        out.push(s);
                    },
                    None => {
                        assert(m[i as int].text().is_none());
                        return None;
                    },
                }
            },
            _ => {
                assert(m[i as int].text().is_none());
                return None;
            },
        }
        i += 1;
    }
    assert(all_text(m).unwrap() =~= strings_model(out@));
    Some(out)
}

/// The value that a wire value stands for in a frame whose topic has the
/// type `nt_type`, or a type mismatch where it stands for none: nil, a
/// map, an extension, a string that is not UTF-8, an array whose items are
/// not all of the kind of the first. A binary payload of a protobuf topic
/// is a protobuf value, and of any other topic a byte array.
pub fn from_wire(nt_type: NtType, w: &WireValue) -> (r: Result<EnokiValue, EnokiError>)
    ensures
        r.is_ok() == wire_decode(nt_type, w@).is_ok(),
        r.is_ok() ==> Ok::<ValueModel, EnokiError>(r.unwrap()@) == wire_decode(nt_type, w@),
        r.is_err() ==> r == Err::<EnokiValue, EnokiError>(EnokiError::TypeMismatch),
{
    match w {
        WireValue::Scalar(s) => match s {
            WireScalar::Boolean(b) => Ok(EnokiValue::Boolean(*b)),
            WireScalar::Integer(v) => Ok(EnokiValue::Int(*v)),
            WireScalar::Unsigned(u) => Ok(EnokiValue::Int(saturate_unsigned(*u))),
            WireScalar::F32(b) => Ok(EnokiValue::Float(*b)),
            WireScalar::F64(b) => Ok(EnokiValue::Double(*b)),
            WireScalar::String(bytes) => match text_from_utf8(bytes) {
                Some(s) => Ok(EnokiValue::String(s)),
                None => Err(EnokiError::TypeMismatch),
            },
            WireScalar::Binary(b) => if nt_type == NtType::ProtoBuf {
                Ok(EnokiValue::Protobuf(copy_items(b)))
            } else {
                Ok(EnokiValue::ByteArray(copy_items(b)))
            },
            WireScalar::Nil => Err(EnokiError::TypeMismatch),
            WireScalar::Container => Err(EnokiError::TypeMismatch),
        },
        WireValue::Array(items) => {
            if items.len() == 0 {
                let empty: Vec<u64> = Vec::new();
                assert(empty@ =~= Seq::empty());
                return Ok(EnokiValue::DoubleArray(empty));
            }
            assert(scalars_model(items@)[0] == items@[0]@);
            match &items[0] {
                WireScalar::F32(_) => match f32_payloads(items) {
                    Some(v) => Ok(EnokiValue::FloatArray(v)),
                    None => Err(EnokiError::TypeMismatch),
                },
                WireScalar::F64(_) => match f64_payloads(items) {
                    Some(v) => Ok(EnokiValue::DoubleArray(v)),
                    None => Err(EnokiError::TypeMismatch),
                },
                WireScalar::Integer(_) => match int_payloads(items) {
                    Some(v) => Ok(EnokiValue::IntArray(v)),
                    None => Err(EnokiError::TypeMismatch),
                },
                WireScalar::Unsigned(_) => match int_payloads(items) {
                    Some(v) => Ok(EnokiValue::IntArray(v)),
                    None => Err(EnokiError::TypeMismatch),
                },
                WireScalar::String(_) => match text_payloads(items) {
                    Some(v) => Ok(EnokiValue::StringArray(v)),
                    None => Err(EnokiError::TypeMismatch),
                },
                WireScalar::Boolean(_) => match bool_payloads(items) {
                    Some(v) => Ok(EnokiValue::BooleanArray(v)),
                    None => Err(EnokiError::TypeMismatch),
                },
                _ => Err(EnokiError::TypeMismatch),
            }
        },
        WireValue::Mapping => Err(EnokiError::TypeMismatch),
        WireValue::Ext => Err(EnokiError::TypeMismatch),
    }
}

/// The wire encoding of a value. Single and double precision stay apart.
pub fn to_wire(v: &EnokiValue) -> (w: WireValue)
    ensures
        w@ == wire_encode(v@),
{
    match v {
        EnokiValue::ByteArray(b) => WireValue::Scalar(WireScalar::Binary(copy_items(b))),
        EnokiValue::Protobuf(b) => WireValue::Scalar(WireScalar::Binary(copy_items(b))),
        EnokiValue::Float(b) => WireValue::Scalar(WireScalar::F32(*b)),
        EnokiValue::Double(b) => WireValue::Scalar(WireScalar::F64(*b)),
        EnokiValue::Int(i) => WireValue::Scalar(WireScalar::Integer(*i)),
        EnokiValue::String(s) => WireValue::Scalar(WireScalar::String(s.as_str().as_bytes_vec())),
        EnokiValue::Boolean(b) => WireValue::Scalar(WireScalar::Boolean(*b)),
        EnokiValue::FloatArray(a) => {
            let mut out: Vec<WireScalar> = Vec::new();
            let mut i: usize = 0;
            while i < a.len()
                invariant
                    i <= a.len(),
                    out.len() == i,
                    forall|j: int| 0 <= j < i ==> (#[trigger] out@[j])@ == WireScalarModel::F32(a@[j]),
                decreases a.len() - i,
            {
                out.push(WireScalar::F32(a[i]));
                i += 1;
            }
            assert(scalars_model(out@) =~= wire_encode(v@)->Array_0);
            WireValue::Array(out)
        },
        EnokiValue::DoubleArray(a) => {
            let mut out: Vec<WireScalar> = Vec::new();
            let mut i: usize = 0;
            while i < a.len()
                invariant
                    i <= a.len(),
                    out.len() == i,
                    forall|j: int| 0 <= j < i ==> (#[trigger] out@[j])@ == WireScalarModel::F64(a@[j]),
                decreases a.len() - i,
            {
                out.push(WireScalar::F64(a[i]));
                i += 1;
            }
            assert(scalars_model(out@) =~= wire_encode(v@)->Array_0);
            WireValue::Array(out)
        },
        EnokiValue::IntArray(a) => {
            let mut out: Vec<WireScalar> = Vec::new();
            let mut i: usize = 0;
            while i < a.len()
                invariant
                    i <= a.len(),
                    out.len() == i,
                    forall|j: int| 0 <= j < i ==> (#[trigger] out@[j])@ == WireScalarModel::Integer(a@[j]),
                decreases a.len() - i,
            {
                out.push(WireScalar::Integer(a[i]));
                i += 1;
            }
            assert(scalars_model(out@) =~= wire_encode(v@)->Array_0);
            WireValue::Array(out)
        },
        EnokiValue::StringArray(a) => {
            let mut out: Vec<WireScalar> = Vec::new();
            let mut i: usize = 0;
            while i < a.len()
                invariant
                    i <= a.len(),
                    out.len() == i,
                    forall|j: int| 0 <= j < i ==> (#[trigger] out@[j])@ == WireScalarModel::String(
                        encode_utf8(a@[j]@),
                    ),
                decreases a.len() - i,
            {
                out.push(WireScalar::String(a[i].as_str().as_bytes_vec()));
                i += 1;
            }
            assert(scalars_model(out@) =~= wire_encode(v@)->Array_0);
            WireValue::Array(out)
        },
        EnokiValue::BooleanArray(a) => {
            let mut out: Vec<WireScalar> = Vec::new();
            let mut i: usize = 0;
            while i < a.len()
                invariant
                    i <= a.len(),
                    out.len() == i,
                    forall|j: int| 0 <= j < i ==> (#[trigger] out@[j])@ == WireScalarModel::Boolean(a@[j]),
                decreases a.len() - i,
            {
                out.push(WireScalar::Boolean(a[i]));
                i += 1;
            }
            assert(scalars_model(out@) =~= wire_encode(v@)->Array_0);
            WireValue::Array(out)
        },
    }
}

impl From<&EnokiValue> for WireValue {
    /// The wire encoding of a value.
    fn from(v: &EnokiValue) -> (w: WireValue)
        ensures
            w@ == wire_encode(v@),
    {
        to_wire(v)
    }
}

impl vstd::std_specs::convert::FromSpecImpl<&EnokiValue> for WireValue {
    open spec fn obeys_from_spec() -> bool {
        false
    }

    open spec fn from_spec(v: &EnokiValue) -> WireValue {
        arbitrary()
    }
}

} // verus!
