//! Conversion between values and the JSON surface.
//!
//! A JSON value is held here as plain data: what a parser read, or what a
//! writer is to write. A floating-point number is carried as its bits, in
//! single precision where it stands for a single-precision value.

use vstd::prelude::*;
use crate::error::EnokiError;
use crate::object::{StampedModel, TimestampedEnokiValue};
use crate::value::{strings_model, EnokiValue, TypeTag, ValueModel};
use crate::wire::{saturate, saturate_unsigned};

verus! {

/// A JSON item as it stands alone or inside an array.
#[derive(Clone, Debug, PartialEq)]
pub enum JsonScalar {
    Null,
    Bool(bool),
    /// An integer that fits in 64 signed bits.
    Int(i64),
    /// An integer above the signed range.
    UInt(u64),
    /// A number in single precision, as bits.
    Single(u32),
    /// A number in double precision, as bits.
    Double(u64),
    String(String),
    /// An array or object nested inside an array.
    Nested,
}

/// A JSON value.
#[derive(Clone, Debug, PartialEq)]
pub enum JsonValue {
    Scalar(JsonScalar),
    Array(Vec<JsonScalar>),
    Object,
}

/// The mathematical content of a [`JsonScalar`].
pub enum JsonScalarModel {
    Null,
    Bool(bool),
    Int(i64),
    UInt(u64),
    Single(u32),
    Double(u64),
    String(Seq<char>),
    Nested,
}

/// The mathematical content of a [`JsonValue`].
pub enum JsonModel {
    Scalar(JsonScalarModel),
    Array(Seq<JsonScalarModel>),
    Object,
}

impl View for JsonScalar {
    type V = JsonScalarModel;

    open spec fn view(&self) -> JsonScalarModel {
        match self {
            JsonScalar::Null => JsonScalarModel::Null,
            JsonScalar::Bool(b) => JsonScalarModel::Bool(*b),
            JsonScalar::Int(v) => JsonScalarModel::Int(*v),
            JsonScalar::UInt(v) => JsonScalarModel::UInt(*v),
            JsonScalar::Single(v) => JsonScalarModel::Single(*v),
            JsonScalar::Double(v) => JsonScalarModel::Double(*v),
            JsonScalar::String(v) => JsonScalarModel::String(v@),
            JsonScalar::Nested => JsonScalarModel::Nested,
        }
    }
}

/// The contents of a vector of JSON items.
pub open spec fn items_model(v: Seq<JsonScalar>) -> Seq<JsonScalarModel> {
    Seq::new(v.len(), |i: int| v[i]@)
}

impl View for JsonValue {
    type V = JsonModel;

    open spec fn view(&self) -> JsonModel {
        match self {
            JsonValue::Scalar(s) => JsonModel::Scalar(s@),
            JsonValue::Array(v) => JsonModel::Array(items_model(v@)),
            JsonValue::Object => JsonModel::Object,
        }
    }
}

impl JsonScalarModel {
    /// The boolean that the item holds.
    pub open spec fn boolean(self) -> Option<bool> {
        match self {
            JsonScalarModel::Bool(b) => Some(b),
            _ => None,
        }
    }

    /// The integer that the item stands for, saturated into the signed
    /// range.
    pub open spec fn integer(self) -> Option<i64> {
        match self {
            JsonScalarModel::Int(v) => Some(v),
            JsonScalarModel::UInt(u) => Some(saturate(u)),
            _ => None,
        }
    }

    /// The single-precision bits that the item holds.
    pub open spec fn single(self) -> Option<u32> {
        match self {
            JsonScalarModel::Single(b) => Some(b),
            _ => None,
        }
    }

    /// The double-precision bits that the item holds.
    pub open spec fn double(self) -> Option<u64> {
        match self {
            JsonScalarModel::Double(b) => Some(b),
            _ => None,
        }
    }

    /// The text that the item holds.
    pub open spec fn text(self) -> Option<Seq<char>> {
        match self {
            JsonScalarModel::String(s) => Some(s),
            _ => None,
        }
    }

    /// The byte that the item stands for: an integer from 0 to 255.
    pub open spec fn byte(self) -> Option<u8> {
        match self {
            JsonScalarModel::Int(v) => if 0 <= v <= 255 {
                Some(v as u8)
            } else {
                None
            },
            JsonScalarModel::UInt(u) => if u <= 255 {
                Some(u as u8)
            } else {
                None
            },
            _ => None,
        }
    }
}

/// The booleans of all items, where every item holds one.
pub open spec fn every_boolean(items: Seq<JsonScalarModel>) -> Option<Seq<bool>> {
    if forall|i: int| 0 <= i < items.len() ==> (#[trigger] items[i]).boolean().is_some() {
        Some(Seq::new(items.len(), |i: int| items[i].boolean().unwrap()))
    } else {
        None
    }
}

/// The integers of all items, where every item holds one.
pub open spec fn every_integer(items: Seq<JsonScalarModel>) -> Option<Seq<i64>> {
    if forall|i: int| 0 <= i < items.len() ==> (#[trigger] items[i]).integer().is_some() {
        Some(Seq::new(items.len(), |i: int| items[i].integer().unwrap()))
    } else {
        None
    }
}

/// The single-precision bits of all items, where every item holds one.
pub open spec fn every_single(items: Seq<JsonScalarModel>) -> Option<Seq<u32>> {
    if forall|i: int| 0 <= i < items.len() ==> (#[trigger] items[i]).single().is_some() {
        Some(Seq::new(items.len(), |i: int| items[i].single().unwrap()))
    } else {
        None
    }
}

/// The double-precision bits of all items, where every item holds one.
pub open spec fn every_double(items: Seq<JsonScalarModel>) -> Option<Seq<u64>> {
    if forall|i: int| 0 <= i < items.len() ==> (#[trigger] items[i]).double().is_some() {
        Some(Seq::new(items.len(), |i: int| items[i].double().unwrap()))
    } else {
        None
    }
}

/// The texts of all items, where every item holds one.
pub open spec fn every_text(items: Seq<JsonScalarModel>) -> Option<Seq<Seq<char>>> {
    if forall|i: int| 0 <= i < items.len() ==> (#[trigger] items[i]).text().is_some() {
        Some(Seq::new(items.len(), |i: int| items[i].text().unwrap()))
    } else {
        None
    }
}

/// The bytes of all items, where every item holds one.
pub open spec fn every_byte(items: Seq<JsonScalarModel>) -> Option<Seq<u8>> {
    if forall|i: int| 0 <= i < items.len() ==> (#[trigger] items[i]).byte().is_some() {
        Some(Seq::new(items.len(), |i: int| items[i].byte().unwrap()))
    } else {
        None
    }
}

fn collect_boolean(items: &Vec<JsonScalar>) -> (r: Option<Vec<bool>>)
    ensures
        r.is_some() == every_boolean(items_model(items@)).is_some(),
        r.is_some() ==> r.unwrap()@ == every_boolean(items_model(items@)).unwrap(),
{
    let ghost m = items_model(items@);
    let mut out: Vec<bool> = Vec::new();
    let mut i: usize = 0;
    while i < items.len()
        invariant
            i <= items.len(),
            m == items_model(items@),
            out.len() == i,
            forall|j: int| 0 <= j < i ==> (#[trigger] m[j]).boolean() == Some(out@[j]),
        decreases items.len() - i,
    {
        match &items[i] {
            JsonScalar::Bool(b) => {
                out.push(*b);
            },
            _ => {
                assert(m[i as int].boolean().is_none());
                return None;
            },
        }
        i += 1;
    }
    assert(every_boolean(m).unwrap() =~= out@);
    Some(out)
}

fn collect_integer(items: &Vec<JsonScalar>) -> (r: Option<Vec<i64>>)
    ensures
        r.is_some() == every_integer(items_model(items@)).is_some(),
        r.is_some() ==> r.unwrap()@ == every_integer(items_model(items@)).unwrap(),
{
    let ghost m = items_model(items@);
    let mut out: Vec<i64> = Vec::new();
    let mut i: usize = 0;
    while i < items.len()
        invariant
            i <= items.len(),
            m == items_model(items@),
            out.len() == i,
            forall|j: int| 0 <= j < i ==> (#[trigger] m[j]).integer() == Some(out@[j]),
        decreases items.len() - i,
    {
        match &items[i] {
            JsonScalar::Int(v) => {
                out.push(*v);
            },
            JsonScalar::UInt(u) => {
                out.push(saturate_unsigned(*u));
            },
            _ => {
                assert(m[i as int].integer().is_none());
                return None;
            },
        }
        i += 1;
    }
    assert(every_integer(m).unwrap() =~= out@);
    Some(out)
}

fn collect_single(items: &Vec<JsonScalar>) -> (r: Option<Vec<u32>>)
    ensures
        r.is_some() == every_single(items_model(items@)).is_some(),
        r.is_some() ==> r.unwrap()@ == every_single(items_model(items@)).unwrap(),
{
    let ghost m = items_model(items@);
    let mut out: Vec<u32> = Vec::new();
    let mut i: usize = 0;
    while i < items.len()
        invariant
            i <= items.len(),
            m == items_model(items@),
            out.len() == i,
            forall|j: int| 0 <= j < i ==> (#[trigger] m[j]).single() == Some(out@[j]),
        decreases items.len() - i,
    {
        match &items[i] {
            JsonScalar::Single(b) => {
                out.push(*b);
            },
            _ => {
                assert(m[i as int].single().is_none());
                return None;
            },
        }
        i += 1;
    }
    assert(every_single(m).unwrap() =~= out@);
    Some(out)
}

fn collect_double(items: &Vec<JsonScalar>) -> (r: Option<Vec<u64>>)
    ensures
        r.is_some() == every_double(items_model(items@)).is_some(),
        r.is_some() ==> r.unwrap()@ == every_double(items_model(items@)).unwrap(),
{
    let ghost m = items_model(items@);
    let mut out: Vec<u64> = Vec::new();
    let mut i: usize = 0;
    while i < items.len()
        invariant
            i <= items.len(),
            m == items_model(items@),
            out.len() == i,
            forall|j: int| 0 <= j < i ==> (#[trigger] m[j]).double() == Some(out@[j]),
        decreases items.len() - i,
    {
        match &items[i] {
            JsonScalar::Double(b) => {
                out.push(*b);
            },
            _ => {
                assert(m[i as int].double().is_none());
                return None;
            },
        }
        i += 1;
    }
    assert(every_double(m).unwrap() =~= out@);
    Some(out)
}

fn collect_text(items: &Vec<JsonScalar>) -> (r: Option<Vec<String>>)
    ensures
        r.is_some() == every_text(items_model(items@)).is_some(),
        r.is_some() ==> strings_model(r.unwrap()@) == every_text(items_model(items@)).unwrap(),
{
    let ghost m = items_model(items@);
    let mut out: Vec<String> = Vec::new();
    let mut i: usize = 0;
    while i < items.len()
        invariant
            i <= items.len(),
            m == items_model(items@),
            out.len() == i,
            forall|j: int| 0 <= j < i ==> (#[trigger] m[j]).text() == Some(out@[j]@),
        decreases items.len() - i,
    {
        match &items[i] {
            JsonScalar::String(s) => {
                out.push(s.clone());
            },
            _ => {
                assert(m[i as int].text().is_none());
                return None;
            },
        }
        i += 1;
    }
    assert(every_text(m).unwrap() =~= strings_model(out@));
    Some(out)
}

fn collect_byte(items: &Vec<JsonScalar>) -> (r: Option<Vec<u8>>)
    ensures
        r.is_some() == every_byte(items_model(items@)).is_some(),
        r.is_some() ==> r.unwrap()@ == every_byte(items_model(items@)).unwrap(),
{
    let ghost m = items_model(items@);
    let mut out: Vec<u8> = Vec::new();
    let mut i: usize = 0;
    while i < items.len()
        invariant
            i <= items.len(),
            m == items_model(items@),
            out.len() == i,
            forall|j: int| 0 <= j < i ==> (#[trigger] m[j]).byte() == Some(out@[j]),
        decreases items.len() - i,
    {
        let byte: Option<u8> = match &items[i] {
            JsonScalar::Int(v) => if 0 <= *v && *v <= 255 {
                Some(*v as u8)
            } else {
                None
            },
            JsonScalar::UInt(u) => if *u <= 255 {
                Some(*u as u8)
            } else {
                None
            },
            _ => None,
        };
        match byte {
            Some(b) => {
                out.push(b);
            },
            None => {
                assert(m[i as int].byte().is_none());
                return None;
            },
        }
        i += 1;
    }
    assert(every_byte(m).unwrap() =~= out@);
    Some(out)
}

/// The array value that a kind of payloads makes, or a type mismatch where
/// not every item held one.
pub open spec fn array_or_mismatch<T>(payloads: Option<Seq<T>>, make: spec_fn(Seq<T>) -> ValueModel) -> Result<
    ValueModel,
    EnokiError,
> {
    match payloads {
        Some(v) => Ok(make(v)),
        None => Err(EnokiError::TypeMismatch),
    }
}

/// The value that a JSON value stands for where nothing says its type. A
/// null and an empty array read as an empty array of doubles; the first
/// item of an array decides the element type, and every other item has to
/// agree with it.
pub open spec fn json_decode(j: JsonModel) -> Result<ValueModel, EnokiError> {
    match j {
        JsonModel::Scalar(s) => match s {
            JsonScalarModel::Null => Ok(ValueModel::DoubleArray(Seq::empty())),
            JsonScalarModel::Bool(b) => Ok(ValueModel::Boolean(b)),
            JsonScalarModel::Int(v) => Ok(ValueModel::Int(v)),
            JsonScalarModel::UInt(u) => Ok(ValueModel::Int(saturate(u))),
            JsonScalarModel::Single(b) => Ok(ValueModel::Float(b)),
            JsonScalarModel::Double(b) => Ok(ValueModel::Double(b)),
            JsonScalarModel::String(t) => Ok(ValueModel::String(t)),
            JsonScalarModel::Nested => Err(EnokiError::TypeMismatch),
        },
        JsonModel::Array(items) => if items.len() == 0 {
            Ok(ValueModel::DoubleArray(Seq::empty()))
        } else {
            match items[0] {
                JsonScalarModel::Bool(_) => array_or_mismatch(
                    every_boolean(items),
                    |v: Seq<bool>| ValueModel::BooleanArray(v),
                ),
                JsonScalarModel::Int(_) | JsonScalarModel::UInt(_) => array_or_mismatch(
                    every_integer(items),
                    |v: Seq<i64>| ValueModel::IntArray(v),
                ),
                JsonScalarModel::Single(_) => array_or_mismatch(
                    every_single(items),
                    |v: Seq<u32>| ValueModel::FloatArray(v),
                ),
                JsonScalarModel::Double(_) => array_or_mismatch(
                    every_double(items),
                    |v: Seq<u64>| ValueModel::DoubleArray(v),
                ),
                JsonScalarModel::String(_) => array_or_mismatch(
                    every_text(items),
                    |v: Seq<Seq<char>>| ValueModel::StringArray(v),
                ),
                _ => Err(EnokiError::TypeMismatch),
            }
        },
        JsonModel::Object => Err(EnokiError::TypeMismatch),
    }
}

/// The value of a given type that a JSON value stands for.
pub open spec fn json_decode_as(t: TypeTag, j: JsonModel) -> Result<ValueModel, EnokiError> {
    match (t, j) {
        (TypeTag::ByteArray, JsonModel::Array(items)) => array_or_mismatch(
            every_byte(items),
            |v: Seq<u8>| ValueModel::ByteArray(v),
        ),
        (TypeTag::Protobuf, JsonModel::Array(items)) => array_or_mismatch(
            every_byte(items),
            |v: Seq<u8>| ValueModel::Protobuf(v),
        ),
        (TypeTag::Float, JsonModel::Scalar(JsonScalarModel::Single(b))) => Ok(ValueModel::Float(b)),
        (TypeTag::FloatArray, JsonModel::Array(items)) => array_or_mismatch(
            every_single(items),
            |v: Seq<u32>| ValueModel::FloatArray(v),
        ),
        (TypeTag::Double, JsonModel::Scalar(JsonScalarModel::Double(b))) => Ok(
            ValueModel::Double(b),
        ),
        (TypeTag::DoubleArray, JsonModel::Array(items)) => array_or_mismatch(
            every_double(items),
            |v: Seq<u64>| ValueModel::DoubleArray(v),
        ),
        (TypeTag::Int, JsonModel::Scalar(JsonScalarModel::Int(v))) => Ok(ValueModel::Int(v)),
        (TypeTag::Int, JsonModel::Scalar(JsonScalarModel::UInt(u))) => Ok(
            ValueModel::Int(saturate(u)),
        ),
        (TypeTag::IntArray, JsonModel::Array(items)) => array_or_mismatch(
            every_integer(items),
            |v: Seq<i64>| ValueModel::IntArray(v),
        ),
        (TypeTag::String, JsonModel::Scalar(JsonScalarModel::String(s))) => Ok(
            ValueModel::String(s),
        ),
        (TypeTag::StringArray, JsonModel::Array(items)) => array_or_mismatch(
            every_text(items),
            |v: Seq<Seq<char>>| ValueModel::StringArray(v),
        ),
        (TypeTag::Boolean, JsonModel::Scalar(JsonScalarModel::Bool(b))) => Ok(
            ValueModel::Boolean(b),
        ),
        (TypeTag::BooleanArray, JsonModel::Array(items)) => array_or_mismatch(
            every_boolean(items),
            |v: Seq<bool>| ValueModel::BooleanArray(v),
        ),
        _ => Err(EnokiError::TypeMismatch),
    }
}

/// The JSON form of a value. Bytes are written as an array of integers.
pub open spec fn json_encode(v: ValueModel) -> JsonModel {
    match v {
        ValueModel::ByteArray(b) => JsonModel::Array(
            Seq::new(b.len(), |i: int| JsonScalarModel::Int(b[i] as i64)),
        ),
        ValueModel::Protobuf(b) => JsonModel::Array(
            Seq::new(b.len(), |i: int| JsonScalarModel::Int(b[i] as i64)),
        ),
        ValueModel::Float(b) => JsonModel::Scalar(JsonScalarModel::Single(b)),
        ValueModel::FloatArray(a) => JsonModel::Array(
            Seq::new(a.len(), |i: int| JsonScalarModel::Single(a[i])),
        ),
        ValueModel::Double(b) => JsonModel::Scalar(JsonScalarModel::Double(b)),
        ValueModel::DoubleArray(a) => JsonModel::Array(
            Seq::new(a.len(), |i: int| JsonScalarModel::Double(a[i])),
        ),
        ValueModel::Int(i) => JsonModel::Scalar(JsonScalarModel::Int(i)),
        ValueModel::IntArray(a) => JsonModel::Array(
            Seq::new(a.len(), |i: int| JsonScalarModel::Int(a[i])),
        ),
        ValueModel::String(s) => JsonModel::Scalar(JsonScalarModel::String(s)),
        ValueModel::StringArray(a) => JsonModel::Array(
            Seq::new(a.len(), |i: int| JsonScalarModel::String(a[i])),
        ),
        ValueModel::Boolean(b) => JsonModel::Scalar(JsonScalarModel::Bool(b)),
        ValueModel::BooleanArray(a) => JsonModel::Array(
            Seq::new(a.len(), |i: int| JsonScalarModel::Bool(a[i])),
        ),
    }
}

/// Read under its own type, the JSON form of a value gives the value back.
pub proof fn lemma_json_roundtrip(v: ValueModel)
    ensures
        json_decode_as(v.tag(), json_encode(v)) == Ok::<ValueModel, EnokiError>(v),
{
    match v {
        ValueModel::ByteArray(b) => {
            let items = Seq::new(b.len(), |i: int| JsonScalarModel::Int(b[i] as i64));
            assert forall|i: int| 0 <= i < items.len() implies (#[trigger] items[i]).byte()
                == Some(b[i]) by {}
            assert(every_byte(items).unwrap() =~= b);
        },
        ValueModel::Protobuf(b) => {
            let items = Seq::new(b.len(), |i: int| JsonScalarModel::Int(b[i] as i64));
            assert forall|i: int| 0 <= i < items.len() implies (#[trigger] items[i]).byte()
                == Some(b[i]) by {}
            assert(every_byte(items).unwrap() =~= b);
        },
        ValueModel::FloatArray(a) => {
            let items = Seq::new(a.len(), |i: int| JsonScalarModel::Single(a[i]));
            assert forall|i: int| 0 <= i < items.len() implies (#[trigger] items[i]).single()
                == Some(a[i]) by {}
            assert(every_single(items).unwrap() =~= a);
        },
        ValueModel::DoubleArray(a) => {
            let items = Seq::new(a.len(), |i: int| JsonScalarModel::Double(a[i]));
            assert forall|i: int| 0 <= i < items.len() implies (#[trigger] items[i]).double()
                == Some(a[i]) by {}
            assert(every_double(items).unwrap() =~= a);
        },
        ValueModel::IntArray(a) => {
            let items = Seq::new(a.len(), |i: int| JsonScalarModel::Int(a[i]));
            assert forall|i: int| 0 <= i < items.len() implies (#[trigger] items[i]).integer()
                == Some(a[i]) by {}
            assert(every_integer(items).unwrap() =~= a);
        },
        ValueModel::StringArray(a) => {
            let items = Seq::new(a.len(), |i: int| JsonScalarModel::String(a[i]));
            assert forall|i: int| 0 <= i < items.len() implies (#[trigger] items[i]).text()
                == Some(a[i]) by {}
            assert(every_text(items).unwrap() =~= a);
        },
        ValueModel::BooleanArray(a) => {
            let items = Seq::new(a.len(), |i: int| JsonScalarModel::Bool(a[i]));
            assert forall|i: int| 0 <= i < items.len() implies (#[trigger] items[i]).boolean()
                == Some(a[i]) by {}
            assert(every_boolean(items).unwrap() =~= a);
        },
        _ => {},
    }
}

/// The value that a JSON value stands for where nothing says its type.
pub fn from_json(j: &JsonValue) -> (r: Result<EnokiValue, EnokiError>)
    ensures
        r.is_ok() == json_decode(j@).is_ok(),
        r.is_ok() ==> Ok::<ValueModel, EnokiError>(r.unwrap()@) == json_decode(j@),
        r.is_err() ==> r == Err::<EnokiValue, EnokiError>(EnokiError::TypeMismatch),
{
    match j {
        JsonValue::Scalar(s) => match s {
            JsonScalar::Null => {
                let empty: Vec<u64> = Vec::new();
                assert(empty@ =~= Seq::empty());
                Ok(EnokiValue::DoubleArray(empty))
            },
            JsonScalar::Bool(b) => Ok(EnokiValue::Boolean(*b)),
            JsonScalar::Int(v) => Ok(EnokiValue::Int(*v)),
            JsonScalar::UInt(u) => Ok(EnokiValue::Int(saturate_unsigned(*u))),
            JsonScalar::Single(b) => Ok(EnokiValue::Float(*b)),
            JsonScalar::Double(b) => Ok(EnokiValue::Double(*b)),
            JsonScalar::String(t) => Ok(EnokiValue::String(t.clone())),
            JsonScalar::Nested => Err(EnokiError::TypeMismatch),
        },
        JsonValue::Array(items) => {
            if items.len() == 0 {
                let empty: Vec<u64> = Vec::new();
                assert(empty@ =~= Seq::empty());
                return Ok(EnokiValue::DoubleArray(empty));
            }
            assert(items_model(items@)[0] == items@[0]@);
            match &items[0] {
                JsonScalar::Bool(_) => match collect_boolean(items) {
                    Some(v) => Ok(EnokiValue::BooleanArray(v)),
                    None => Err(EnokiError::TypeMismatch),
                },
                JsonScalar::Int(_) => match collect_integer(items) {
                    Some(v) => Ok(EnokiValue::IntArray(v)),
                    None => Err(EnokiError::TypeMismatch),
                },
                JsonScalar::UInt(_) => match collect_integer(items) {
                    Some(v) => Ok(EnokiValue::IntArray(v)),
                    None => Err(EnokiError::TypeMismatch),
                },
                JsonScalar::Single(_) => match collect_single(items) {
                    Some(v) => Ok(EnokiValue::FloatArray(v)),
                    None => Err(EnokiError::TypeMismatch),
                },
                JsonScalar::Double(_) => match collect_double(items) {
                    Some(v) => Ok(EnokiValue::DoubleArray(v)),
                    None => Err(EnokiError::TypeMismatch),
                },
                JsonScalar::String(_) => match collect_text(items) {
                    Some(v) => Ok(EnokiValue::StringArray(v)),
                    None => Err(EnokiError::TypeMismatch),
                },
                _ => Err(EnokiError::TypeMismatch),
            }
        },
        JsonValue::Object => Err(EnokiError::TypeMismatch),
    }
}

/// The value of a given type that a JSON value stands for, or a type
/// mismatch where it stands for no value of that type.
pub fn from_json_as(t: TypeTag, j: &JsonValue) -> (r: Result<EnokiValue, EnokiError>)
    ensures
        r.is_ok() == json_decode_as(t, j@).is_ok(),
        r.is_ok() ==> Ok::<ValueModel, EnokiError>(r.unwrap()@) == json_decode_as(t, j@),
        r.is_err() ==> r == Err::<EnokiValue, EnokiError>(EnokiError::TypeMismatch),
{
    match j {
        JsonValue::Scalar(s) => match (t, s) {
            (TypeTag::Float, JsonScalar::Single(b)) => Ok(EnokiValue::Float(*b)),
            (TypeTag::Double, JsonScalar::Double(b)) => Ok(EnokiValue::Double(*b)),
            (TypeTag::Int, JsonScalar::Int(v)) => Ok(EnokiValue::Int(*v)),
            (TypeTag::Int, JsonScalar::UInt(u)) => Ok(EnokiValue::Int(saturate_unsigned(*u))),
            (TypeTag::String, JsonScalar::String(text)) => Ok(EnokiValue::String(text.clone())),
            (TypeTag::Boolean, JsonScalar::Bool(b)) => Ok(EnokiValue::Boolean(*b)),
            _ => Err(EnokiError::TypeMismatch),
        },
        JsonValue::Array(items) => match t {
            TypeTag::ByteArray => match collect_byte(items) {
                Some(v) => Ok(EnokiValue::ByteArray(v)),
                None => Err(EnokiError::TypeMismatch),
            },
            TypeTag::Protobuf => match collect_byte(items) {
                Some(v) => Ok(EnokiValue::Protobuf(v)),
                None => Err(EnokiError::TypeMismatch),
            },
            TypeTag::FloatArray => match collect_single(items) {
                Some(v) => Ok(EnokiValue::FloatArray(v)),
                None => Err(EnokiError::TypeMismatch),
            },
            TypeTag::DoubleArray => match collect_double(items) {
                Some(v) => Ok(EnokiValue::DoubleArray(v)),
                None => Err(EnokiError::TypeMismatch),
            },
            TypeTag::IntArray => match collect_integer(items) {
                Some(v) => Ok(EnokiValue::IntArray(v)),
                None => Err(EnokiError::TypeMismatch),
            },
            TypeTag::StringArray => match collect_text(items) {
                Some(v) => Ok(EnokiValue::StringArray(v)),
                None => Err(EnokiError::TypeMismatch),
            },
            TypeTag::BooleanArray => match collect_boolean(items) {
                Some(v) => Ok(EnokiValue::BooleanArray(v)),
                None => Err(EnokiError::TypeMismatch),
            },
            _ => Err(EnokiError::TypeMismatch),
        },
        JsonValue::Object => Err(EnokiError::TypeMismatch),
    }
}

/// The JSON form of a value.
pub fn to_json(v: &EnokiValue) -> (j: JsonValue)
    ensures
        j@ == json_encode(v@),
{
    match v {
        EnokiValue::ByteArray(a) => {
            let mut out: Vec<JsonScalar> = Vec::new();
            let mut i: usize = 0;
            while i < a.len()
                invariant
                    i <= a.len(),
                    out.len() == i,
                    forall|j: int| 0 <= j < i ==> (#[trigger] out@[j])@ == JsonScalarModel::Int(a@[j] as i64),
                decreases a.len() - i,
            {
                out.push(JsonScalar::Int(a[i] as i64));
                i += 1;
            }
            assert(items_model(out@) =~= json_encode(v@)->Array_0);
            JsonValue::Array(out)
        },
        EnokiValue::Protobuf(a) => {
            let mut out: Vec<JsonScalar> = Vec::new();
            let mut i: usize = 0;
            while i < a.len()
                invariant
                    i <= a.len(),
                    out.len() == i,
                    forall|j: int| 0 <= j < i ==> (#[trigger] out@[j])@ == JsonScalarModel::Int(a@[j] as i64),
                decreases a.len() - i,
            {
                out.push(JsonScalar::Int(a[i] as i64));
                i += 1;
            }
            assert(items_model(out@) =~= json_encode(v@)->Array_0);
            JsonValue::Array(out)
        },
        EnokiValue::Float(b) => JsonValue::Scalar(JsonScalar::Single(*b)),
        EnokiValue::FloatArray(a) => {
            let mut out: Vec<JsonScalar> = Vec::new();
            let mut i: usize = 0;
            while i < a.len()
                invariant
                    i <= a.len(),
                    out.len() == i,
                    forall|j: int| 0 <= j < i ==> (#[trigger] out@[j])@ == JsonScalarModel::Single(a@[j]),
                decreases a.len() - i,
            {
                out.push(JsonScalar::Single(a[i]));
                i += 1;
            }
            assert(items_model(out@) =~= json_encode(v@)->Array_0);
            JsonValue::Array(out)
        },
        EnokiValue::Double(b) => JsonValue::Scalar(JsonScalar::Double(*b)),
        EnokiValue::DoubleArray(a) => {
            let mut out: Vec<JsonScalar> = Vec::new();
            let mut i: usize = 0;
            while i < a.len()
                invariant
                    i <= a.len(),
                    out.len() == i,
                    forall|j: int| 0 <= j < i ==> (#[trigger] out@[j])@ == JsonScalarModel::Double(a@[j]),
                decreases a.len() - i,
            {
                out.push(JsonScalar::Double(a[i]));
                i += 1;
            }
            assert(items_model(out@) =~= json_encode(v@)->Array_0);
            JsonValue::Array(out)
        },
        EnokiValue::Int(i) => JsonValue::Scalar(JsonScalar::Int(*i)),
        EnokiValue::IntArray(a) => {
            let mut out: Vec<JsonScalar> = Vec::new();
            let mut i: usize = 0;
            while i < a.len()
                invariant
                    i <= a.len(),
                    out.len() == i,
                    forall|j: int| 0 <= j < i ==> (#[trigger] out@[j])@ == JsonScalarModel::Int(a@[j]),
                decreases a.len() - i,
            {
                out.push(JsonScalar::Int(a[i]));
                i += 1;
            }
            assert(items_model(out@) =~= json_encode(v@)->Array_0);
            JsonValue::Array(out)
        },
        EnokiValue::String(s) => JsonValue::Scalar(JsonScalar::String(s.clone())),
        EnokiValue::StringArray(a) => {
            let mut out: Vec<JsonScalar> = Vec::new();
            let mut i: usize = 0;
            while i < a.len()
                invariant
                    i <= a.len(),
                    out.len() == i,
                    forall|j: int| 0 <= j < i ==> (#[trigger] out@[j])@ == JsonScalarModel::String(a@[j]@),
                decreases a.len() - i,
            {
                out.push(JsonScalar::String(a[i].clone()));
                i += 1;
            }
            assert(items_model(out@) =~= json_encode(v@)->Array_0);
            JsonValue::Array(out)
        },
        EnokiValue::Boolean(b) => JsonValue::Scalar(JsonScalar::Bool(*b)),
        EnokiValue::BooleanArray(a) => {
            let mut out: Vec<JsonScalar> = Vec::new();
            let mut i: usize = 0;
            while i < a.len()
                invariant
                    i <= a.len(),
                    out.len() == i,
                    forall|j: int| 0 <= j < i ==> (#[trigger] out@[j])@ == JsonScalarModel::Bool(a@[j]),
                decreases a.len() - i,
            {
                out.push(JsonScalar::Bool(a[i]));
                i += 1;
            }
            assert(items_model(out@) =~= json_encode(v@)->Array_0);
            JsonValue::Array(out)
        },
    }
}

/// No two value types have the same name.
pub proof fn lemma_tag_names_differ(a: TypeTag, b: TypeTag)
    ensures
        a.name() == b.name() <==> a == b,
{
    reveal_strlit("ByteArray");
    reveal_strlit("Protobuf");
    reveal_strlit("Float");
    reveal_strlit("FloatArray");
    reveal_strlit("Double");
    reveal_strlit("DoubleArray");
    reveal_strlit("Int");
    reveal_strlit("IntArray");
    reveal_strlit("String");
    reveal_strlit("StringArray");
    reveal_strlit("Boolean");
    reveal_strlit("BooleanArray");
    if a != b && a.name() == b.name() {
        assert(a.name().len() == b.name().len());
        assert(a.name()[0] == b.name()[0]);
    }
}

/// The value type with a given name.
pub open spec fn tag_named(name: Seq<char>) -> Option<TypeTag> {
    if exists|t: TypeTag| t.name() == name {
        Some(choose|t: TypeTag| t.name() == name)
    } else {
        None
    }
}

/// The value type with a given name.
pub fn tag_from_name(name: &str) -> (r: Option<TypeTag>)
    ensures
        r == tag_named(name@),
{
    let all = [
        TypeTag::ByteArray,
        TypeTag::Protobuf,
        TypeTag::Float,
        TypeTag::FloatArray,
        TypeTag::Double,
        TypeTag::DoubleArray,
        TypeTag::Int,
        TypeTag::IntArray,
        TypeTag::String,
        TypeTag::StringArray,
        TypeTag::Boolean,
        TypeTag::BooleanArray,
    ];
    let wanted = String::from_str(name);
    let mut i: usize = 0;
    while i < 12
        invariant
            i <= 12,
            wanted@ == name@,
            all@ == seq![
                TypeTag::ByteArray,
                TypeTag::Protobuf,
                TypeTag::Float,
                TypeTag::FloatArray,
                TypeTag::Double,
                TypeTag::DoubleArray,
                TypeTag::Int,
                TypeTag::IntArray,
                TypeTag::String,
                TypeTag::StringArray,
                TypeTag::Boolean,
                TypeTag::BooleanArray,
            ],
            forall|j: int| 0 <= j < i ==> (#[trigger] all@[j]).name() != name@,
        decreases 12 - i,
    {
        let t = all[i];
        if String::from_str(t.as_str()) == wanted {
            proof {
                let chosen = choose|c: TypeTag| c.name() == name@;
                lemma_tag_names_differ(chosen, t);
            }
            return Some(t);
        }
        i += 1;
    }
    proof {
        assert forall|t: TypeTag| t.name() != name@ by {
            let k: int = match t {
                TypeTag::ByteArray => 0,
                TypeTag::Protobuf => 1,
                TypeTag::Float => 2,
                TypeTag::FloatArray => 3,
                TypeTag::Double => 4,
                TypeTag::DoubleArray => 5,
                TypeTag::Int => 6,
                TypeTag::IntArray => 7,
                TypeTag::String => 8,
                TypeTag::StringArray => 9,
                TypeTag::Boolean => 10,
                TypeTag::BooleanArray => 11,
            };
            assert(all@[k] == t);
        }
    }
    None
}

/// A timestamped value on the JSON surface: the name of its type, its
/// value, and its timestamp.
#[derive(Clone, Debug, PartialEq)]
pub struct StampedJson {
    pub kind: String,
    pub value: JsonValue,
    pub timestamp: u64,
}

/// The timestamped value that its JSON form stands for: the value read
/// under the type that is named.
pub open spec fn stamped_decode(kind: Seq<char>, value: JsonModel, timestamp: u64) -> Result<
    StampedModel,
    EnokiError,
> {
    match tag_named(kind) {
        Some(t) => match json_decode_as(t, value) {
            Ok(v) => Ok(StampedModel { value: v, timestamp }),
            Err(e) => Err(e),
        },
        None => Err(EnokiError::TypeMismatch),
    }
}

/// The JSON form of a timestamped value gives the timestamped value back.
pub proof fn lemma_stamped_roundtrip(v: StampedModel)
    ensures
        stamped_decode(v.value.tag().name(), json_encode(v.value), v.timestamp) == Ok::<
            StampedModel,
            EnokiError,
        >(v),
{
    let t = v.value.tag();
    assert(exists|c: TypeTag| c.name() == t.name());
    let chosen = choose|c: TypeTag| c.name() == t.name();
    lemma_tag_names_differ(chosen, t);
    lemma_json_roundtrip(v.value);
}

/// The JSON form of a timestamped value.
pub fn stamped_to_json(v: &TimestampedEnokiValue) -> (j: StampedJson)
    ensures
        j.kind@ == v@.value.tag().name(),
        j.value@ == json_encode(v@.value),
        j.timestamp == v.timestamp,
{
    StampedJson {
        kind: v.value.get_type(),
        value: to_json(&v.value),
        timestamp: v.timestamp,
    }
}

/// The timestamped value that its JSON form stands for, or a type
/// mismatch where the type name is unknown or the value is not of that
/// type.
pub fn stamped_from_json(j: &StampedJson) -> (r: Result<TimestampedEnokiValue, EnokiError>)
    ensures
        r.is_ok() == stamped_decode(j.kind@, j.value@, j.timestamp).is_ok(),
        r.is_ok() ==> Ok::<StampedModel, EnokiError>(r.unwrap()@) == stamped_decode(
            j.kind@,
            j.value@,
            j.timestamp,
        ),
        r.is_err() ==> r == Err::<TimestampedEnokiValue, EnokiError>(EnokiError::TypeMismatch),
{
    match tag_from_name(j.kind.as_str()) {
        Some(t) => match from_json_as(t, &j.value) {
            Ok(value) => Ok(TimestampedEnokiValue::new(j.timestamp, value)),
            Err(e) => Err(EnokiError::TypeMismatch),
        },
        None => Err(EnokiError::TypeMismatch),
    }
}

} // verus!
