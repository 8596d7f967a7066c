//! The value space of the datalog, and the conversion between it and values.

use vstd::prelude::*;
use crate::error::EnokiError;
use crate::value::{copy_items, copy_strings, strings_model, EnokiValue, ValueModel};

verus! {

/// A value as the datalog stores it.
#[derive(Clone, Debug, PartialEq)]
pub enum DataLogValue {
    Raw(Vec<u8>),
    Boolean(bool),
    Integer(i64),
    /// Single precision, as bits.
    Float(u32),
    /// Double precision, as bits.
    Double(u64),
    String(String),
    BooleanArray(Vec<bool>),
    IntegerArray(Vec<i64>),
    FloatArray(Vec<u32>),
    DoubleArray(Vec<u64>),
    StringArray(Vec<String>),
}

/// The mathematical content of a [`DataLogValue`].
pub enum DataLogModel {
    Raw(Seq<u8>),
    Boolean(bool),
    Integer(i64),
    Float(u32),
    Double(u64),
    String(Seq<char>),
    BooleanArray(Seq<bool>),
    IntegerArray(Seq<i64>),
    FloatArray(Seq<u32>),
    DoubleArray(Seq<u64>),
    StringArray(Seq<Seq<char>>),
}

/// The type of a datalog value, without its payload.
#[derive(Clone, Copy, Debug, PartialEq, Eq, Structural)]
pub enum DataLogType {
    Raw,
    Boolean,
    Integer,
    Float,
    Double,
    String,
    BooleanArray,
    IntegerArray,
    FloatArray,
    DoubleArray,
    StringArray,
}

impl View for DataLogValue {
    type V = DataLogModel;

    open spec fn view(&self) -> DataLogModel {
        match self {
            DataLogValue::Raw(v) => DataLogModel::Raw(v@),
            DataLogValue::Boolean(v) => DataLogModel::Boolean(*v),
            DataLogValue::Integer(v) => DataLogModel::Integer(*v),
            DataLogValue::Float(v) => DataLogModel::Float(*v),
            DataLogValue::Double(v) => DataLogModel::Double(*v),
            DataLogValue::String(v) => DataLogModel::String(v@),
            DataLogValue::BooleanArray(v) => DataLogModel::BooleanArray(v@),
            DataLogValue::IntegerArray(v) => DataLogModel::IntegerArray(v@),
            DataLogValue::FloatArray(v) => DataLogModel::FloatArray(v@),
            DataLogValue::DoubleArray(v) => DataLogModel::DoubleArray(v@),
            DataLogValue::StringArray(v) => DataLogModel::StringArray(strings_model(v@)),
        }
    }
}

impl DataLogType {
    /// The name under which an entry declares this type.
    pub open spec fn name(self) -> Seq<char> {
        match self {
            DataLogType::Raw => "raw"@,
            DataLogType::Boolean => "boolean"@,
            DataLogType::Integer => "int64"@,
            DataLogType::Float => "float"@,
            DataLogType::Double => "double"@,
            DataLogType::String => "string"@,
            DataLogType::BooleanArray => "boolean[]"@,
            DataLogType::IntegerArray => "int64[]"@,
            DataLogType::FloatArray => "float[]"@,
            DataLogType::DoubleArray => "double[]"@,
            DataLogType::StringArray => "string[]"@,
        }
    }

    /// The name under which an entry declares this type.
    pub fn as_str(&self) -> (s: &'static str)
        ensures
            s@ == self.name(),
    {
        match self {
            DataLogType::Raw => "raw",
            DataLogType::Boolean => "boolean",
            DataLogType::Integer => "int64",
            DataLogType::Float => "float",
            DataLogType::Double => "double",
            DataLogType::String => "string",
            DataLogType::BooleanArray => "boolean[]",
            DataLogType::IntegerArray => "int64[]",
            DataLogType::FloatArray => "float[]",
            DataLogType::DoubleArray => "double[]",
            DataLogType::StringArray => "string[]",
        }
    }
}

/// No two datalog types have the same name.
pub proof fn lemma_type_names_differ(a: DataLogType, b: DataLogType)
    ensures
        a.name() == b.name() <==> a == b,
{
    reveal_strlit("raw");
    reveal_strlit("boolean");
    reveal_strlit("int64");
    reveal_strlit("float");
    reveal_strlit("double");
    reveal_strlit("string");
    reveal_strlit("boolean[]");
    reveal_strlit("int64[]");
    reveal_strlit("float[]");
    reveal_strlit("double[]");
    reveal_strlit("string[]");
    if a != b && a.name() == b.name() {
        assert(a.name().len() == b.name().len());
        assert(a.name()[0] == b.name()[0]);
    }
}

impl DataLogModel {
    /// The type of the value.
    pub open spec fn tag(self) -> DataLogType {
        match self {
            DataLogModel::Raw(_) => DataLogType::Raw,
            DataLogModel::Boolean(_) => DataLogType::Boolean,
            DataLogModel::Integer(_) => DataLogType::Integer,
            DataLogModel::Float(_) => DataLogType::Float,
            DataLogModel::Double(_) => DataLogType::Double,
            DataLogModel::String(_) => DataLogType::String,
            DataLogModel::BooleanArray(_) => DataLogType::BooleanArray,
            DataLogModel::IntegerArray(_) => DataLogType::IntegerArray,
            DataLogModel::FloatArray(_) => DataLogType::FloatArray,
            DataLogModel::DoubleArray(_) => DataLogType::DoubleArray,
            DataLogModel::StringArray(_) => DataLogType::StringArray,
        }
    }
}

/// The datalog form of a value. A protobuf payload is stored as raw bytes.
pub open spec fn datalog_encode(v: ValueModel) -> DataLogModel {
    match v {
        ValueModel::ByteArray(b) => DataLogModel::Raw(b),
        ValueModel::Protobuf(b) => DataLogModel::Raw(b),
        ValueModel::Float(b) => DataLogModel::Float(b),
        ValueModel::FloatArray(a) => DataLogModel::FloatArray(a),
        ValueModel::Double(b) => DataLogModel::Double(b),
        ValueModel::DoubleArray(a) => DataLogModel::DoubleArray(a),
        ValueModel::Int(i) => DataLogModel::Integer(i),
        ValueModel::IntArray(a) => DataLogModel::IntegerArray(a),
        ValueModel::String(s) => DataLogModel::String(s),
        ValueModel::StringArray(a) => DataLogModel::StringArray(a),
        ValueModel::Boolean(b) => DataLogModel::Boolean(b),
        ValueModel::BooleanArray(a) => DataLogModel::BooleanArray(a),
    }
}

/// The value that a datalog value stands for. Raw bytes read as a byte array.
pub open spec fn datalog_decode(d: DataLogModel) -> ValueModel {
    match d {
        DataLogModel::Raw(b) => ValueModel::ByteArray(b),
        DataLogModel::Boolean(b) => ValueModel::Boolean(b),
        DataLogModel::Integer(i) => ValueModel::Int(i),
        DataLogModel::Float(b) => ValueModel::Float(b),
        DataLogModel::Double(b) => ValueModel::Double(b),
        DataLogModel::String(s) => ValueModel::String(s),
        DataLogModel::BooleanArray(a) => ValueModel::BooleanArray(a),
        DataLogModel::IntegerArray(a) => ValueModel::IntArray(a),
        DataLogModel::FloatArray(a) => ValueModel::FloatArray(a),
        DataLogModel::DoubleArray(a) => ValueModel::DoubleArray(a),
        DataLogModel::StringArray(a) => ValueModel::StringArray(a),
    }
}

/// Reading back what was stored gives the value that was stored, but for a
/// protobuf payload, which reads back as a byte array of the same bytes.
pub proof fn lemma_datalog_roundtrip(v: ValueModel)
    ensures
        datalog_decode(datalog_encode(v)) == (match v {
            ValueModel::Protobuf(b) => ValueModel::ByteArray(b),
            _ => v,
        }),
{
}

/// Storing what was read gives back what was read.
pub proof fn lemma_datalog_roundtrip_stored(d: DataLogModel)
    ensures
        datalog_encode(datalog_decode(d)) == d,
{
}

impl DataLogValue {
    /// The type of the value.
    pub fn type_of(&self) -> (t: DataLogType)
        ensures
            t == self@.tag(),
    {
        match self {
            DataLogValue::Raw(_) => DataLogType::Raw,
            DataLogValue::Boolean(_) => DataLogType::Boolean,
            DataLogValue::Integer(_) => DataLogType::Integer,
            DataLogValue::Float(_) => DataLogType::Float,
            DataLogValue::Double(_) => DataLogType::Double,
            DataLogValue::String(_) => DataLogType::String,
            DataLogValue::BooleanArray(_) => DataLogType::BooleanArray,
            DataLogValue::IntegerArray(_) => DataLogType::IntegerArray,
            DataLogValue::FloatArray(_) => DataLogType::FloatArray,
            DataLogValue::DoubleArray(_) => DataLogType::DoubleArray,
            DataLogValue::StringArray(_) => DataLogType::StringArray,
        }
    }

    /// The name under which an entry for such values declares its type.
    pub fn get_data_type(&self) -> (s: String)
        ensures
            s@ == self@.tag().name(),
    {
        String::from_str(self.type_of().as_str())
    }

    /// Whether an entry declared with `entry_type` takes this value.
    pub fn matches_type(&self, entry_type: &String) -> (b: bool)
        ensures
            b == (self@.tag().name() == entry_type@),
    {
        self.get_data_type() == *entry_type
    }

    /// A copy with the same content.
    pub fn duplicate(&self) -> (r: DataLogValue)
        ensures
            r@ == self@,
    {
        match self {
            DataLogValue::Raw(v) => DataLogValue::Raw(copy_items(v)),
            DataLogValue::Boolean(v) => DataLogValue::Boolean(*v),
            DataLogValue::Integer(v) => DataLogValue::Integer(*v),
            DataLogValue::Float(v) => DataLogValue::Float(*v),
            DataLogValue::Double(v) => DataLogValue::Double(*v),
            DataLogValue::String(v) => DataLogValue::String(v.clone()),
            DataLogValue::BooleanArray(v) => DataLogValue::BooleanArray(copy_items(v)),
            DataLogValue::IntegerArray(v) => DataLogValue::IntegerArray(copy_items(v)),
            DataLogValue::FloatArray(v) => DataLogValue::FloatArray(copy_items(v)),
            DataLogValue::DoubleArray(v) => DataLogValue::DoubleArray(copy_items(v)),
            DataLogValue::StringArray(v) => DataLogValue::StringArray(copy_strings(v)),
        }
    }
}

/// The datalog form of a value.
pub fn stored_form(v: EnokiValue) -> (d: DataLogValue)
    ensures
        d@ == datalog_encode(v@),
{
    match v {
        EnokiValue::ByteArray(b) => DataLogValue::Raw(b),
        EnokiValue::Protobuf(b) => DataLogValue::Raw(b),
        EnokiValue::Float(b) => DataLogValue::Float(b),
        EnokiValue::FloatArray(a) => DataLogValue::FloatArray(a),
        EnokiValue::Double(b) => DataLogValue::Double(b),
        EnokiValue::DoubleArray(a) => DataLogValue::DoubleArray(a),
        EnokiValue::Int(i) => DataLogValue::Integer(i),
        EnokiValue::IntArray(a) => DataLogValue::IntegerArray(a),
        EnokiValue::String(s) => DataLogValue::String(s),
        EnokiValue::StringArray(a) => DataLogValue::StringArray(a),
        EnokiValue::Boolean(b) => DataLogValue::Boolean(b),
        EnokiValue::BooleanArray(a) => DataLogValue::BooleanArray(a),
    }
}

/// The datalog form of a value. Every value has one, so the result is
/// always `Ok`.
pub fn to_datalog(v: EnokiValue) -> (r: Result<DataLogValue, EnokiError>)
    ensures
        r.is_ok(),
        r.unwrap()@ == datalog_encode(v@),
{
    Ok(stored_form(v))
}

/// The value that a datalog value stands for.
pub fn from_datalog(d: DataLogValue) -> (v: EnokiValue)
    ensures
        v@ == datalog_decode(d@),
{
    match d {
        DataLogValue::Raw(b) => EnokiValue::ByteArray(b),
        DataLogValue::Boolean(b) => EnokiValue::Boolean(b),
        DataLogValue::Integer(i) => EnokiValue::Int(i),
        DataLogValue::Float(b) => EnokiValue::Float(b),
        DataLogValue::Double(b) => EnokiValue::Double(b),
        DataLogValue::String(s) => EnokiValue::String(s),
        DataLogValue::BooleanArray(a) => EnokiValue::BooleanArray(a),
        DataLogValue::IntegerArray(a) => EnokiValue::IntArray(a),
        DataLogValue::FloatArray(a) => EnokiValue::FloatArray(a),
        DataLogValue::DoubleArray(a) => EnokiValue::DoubleArray(a),
        DataLogValue::StringArray(a) => EnokiValue::StringArray(a),
    }
}

impl From<DataLogValue> for EnokiValue {
    /// The value that a datalog value stands for.
    fn from(d: DataLogValue) -> (v: EnokiValue)
        ensures
            v@ == datalog_decode(d@),
    {
        from_datalog(d)
    }
}

impl vstd::std_specs::convert::FromSpecImpl<DataLogValue> for EnokiValue {
    open spec fn obeys_from_spec() -> bool {
        false
    }

    open spec fn from_spec(d: DataLogValue) -> EnokiValue {
        arbitrary()
    }
}

impl From<EnokiValue> for DataLogValue {
    /// The datalog form of a value.
    fn from(v: EnokiValue) -> (d: DataLogValue)
        ensures
            d@ == datalog_encode(v@),
    {
        stored_form(v)
    }
}

impl vstd::std_specs::convert::FromSpecImpl<EnokiValue> for DataLogValue {
    open spec fn obeys_from_spec() -> bool {
        false
    }

    open spec fn from_spec(v: EnokiValue) -> DataLogValue {
        arbitrary()
    }
}

} // verus!
