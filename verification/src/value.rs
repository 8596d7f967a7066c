//! The value model: a closed set of scalar and array variants.
//!
//! Floating-point payloads are carried as their IEEE-754 bit patterns, so
//! that equality of values is equality of bits.

use vstd::prelude::*;
use crate::error::EnokiError;

verus! {

/// Microseconds.
pub type EnokiTimeStamp = u64;

/// A value that a topic or a datalog entry can hold.
#[derive(Clone, Debug, PartialEq)]
pub enum EnokiValue {
    ByteArray(Vec<u8>),
    Protobuf(Vec<u8>),
    /// Single precision, as bits.
    Float(u32),
    FloatArray(Vec<u32>),
    /// Double precision, as bits.
    Double(u64),
    DoubleArray(Vec<u64>),
    Int(i64),
    IntArray(Vec<i64>),
    String(String),
    StringArray(Vec<String>),
    Boolean(bool),
    BooleanArray(Vec<bool>),
}

/// The mathematical content of an [`EnokiValue`].
pub enum ValueModel {
    ByteArray(Seq<u8>),
    Protobuf(Seq<u8>),
    Float(u32),
    FloatArray(Seq<u32>),
    Double(u64),
    DoubleArray(Seq<u64>),
    Int(i64),
    IntArray(Seq<i64>),
    String(Seq<char>),
    StringArray(Seq<Seq<char>>),
    Boolean(bool),
    BooleanArray(Seq<bool>),
}

/// The type of a value, without its payload.
#[derive(Clone, Copy, Debug, PartialEq, Eq, Structural)]
pub enum TypeTag {
    ByteArray,
    Protobuf,
    Float,
    FloatArray,
    Double,
    DoubleArray,
    Int,
    IntArray,
    String,
    StringArray,
    Boolean,
    BooleanArray,
}

/// The contents of a vector of strings.
pub open spec fn strings_model(v: Seq<String>) -> Seq<Seq<char>> {
    Seq::new(v.len(), |i: int| v[i]@)
}

impl View for EnokiValue {
    type V = ValueModel;

    open spec fn view(&self) -> ValueModel {
        match self {
            EnokiValue::ByteArray(v) => ValueModel::ByteArray(v@),
            EnokiValue::Protobuf(v) => ValueModel::Protobuf(v@),
            EnokiValue::Float(v) => ValueModel::Float(*v),
            EnokiValue::FloatArray(v) => ValueModel::FloatArray(v@),
            EnokiValue::Double(v) => ValueModel::Double(*v),
            EnokiValue::DoubleArray(v) => ValueModel::DoubleArray(v@),
            EnokiValue::Int(v) => ValueModel::Int(*v),
            EnokiValue::IntArray(v) => ValueModel::IntArray(v@),
            EnokiValue::String(v) => ValueModel::String(v@),
            EnokiValue::StringArray(v) => ValueModel::StringArray(strings_model(v@)),
            EnokiValue::Boolean(v) => ValueModel::Boolean(*v),
            EnokiValue::BooleanArray(v) => ValueModel::BooleanArray(v@),
        }
    }
}

impl ValueModel {
    /// The type of the value.
    pub open spec fn tag(self) -> TypeTag {
        match self {
            ValueModel::ByteArray(_) => TypeTag::ByteArray,
            ValueModel::Protobuf(_) => TypeTag::Protobuf,
            ValueModel::Float(_) => TypeTag::Float,
            ValueModel::FloatArray(_) => TypeTag::FloatArray,
            ValueModel::Double(_) => TypeTag::Double,
            ValueModel::DoubleArray(_) => TypeTag::DoubleArray,
            ValueModel::Int(_) => TypeTag::Int,
            ValueModel::IntArray(_) => TypeTag::IntArray,
            ValueModel::String(_) => TypeTag::String,
            ValueModel::StringArray(_) => TypeTag::StringArray,
            ValueModel::Boolean(_) => TypeTag::Boolean,
            ValueModel::BooleanArray(_) => TypeTag::BooleanArray,
        }
    }

    /// The number of elements of an array value; `None` for a scalar.
    pub open spec fn len(self) -> Option<nat> {
        match self {
            ValueModel::ByteArray(v) => Some(v.len()),
            ValueModel::Protobuf(v) => Some(v.len()),
            ValueModel::FloatArray(v) => Some(v.len()),
            ValueModel::DoubleArray(v) => Some(v.len()),
            ValueModel::IntArray(v) => Some(v.len()),
            ValueModel::StringArray(v) => Some(v.len()),
            ValueModel::BooleanArray(v) => Some(v.len()),
            _ => None,
        }
    }

    /// The element at `i` of an array value, as a scalar value. A byte
    /// becomes an integer. `None` for a scalar and past the end.
    pub open spec fn index(self, i: int) -> Option<ValueModel> {
        match self {
            ValueModel::ByteArray(v) => if 0 <= i < v.len() {
                Some(ValueModel::Int(v[i] as i64))
            } else {
                None
            },
            ValueModel::Protobuf(v) => if 0 <= i < v.len() {
                Some(ValueModel::Int(v[i] as i64))
            } else {
                None
            },
            ValueModel::FloatArray(v) => if 0 <= i < v.len() {
                Some(ValueModel::Float(v[i]))
            } else {
                None
            },
            ValueModel::DoubleArray(v) => if 0 <= i < v.len() {
                Some(ValueModel::Double(v[i]))
            } else {
                None
            },
            ValueModel::IntArray(v) => if 0 <= i < v.len() {
                Some(ValueModel::Int(v[i]))
            } else {
                None
            },
            ValueModel::StringArray(v) => if 0 <= i < v.len() {
                Some(ValueModel::String(v[i]))
            } else {
                None
            },
            ValueModel::BooleanArray(v) => if 0 <= i < v.len() {
                Some(ValueModel::Boolean(v[i]))
            } else {
                None
            },
            _ => None,
        }
    }
}

impl TypeTag {
    /// The name of the type, as the JSON surface writes it.
    pub open spec fn name(self) -> Seq<char> {
        match self {
            TypeTag::ByteArray => "ByteArray"@,
            TypeTag::Protobuf => "Protobuf"@,
            TypeTag::Float => "Float"@,
            TypeTag::FloatArray => "FloatArray"@,
            TypeTag::Double => "Double"@,
            TypeTag::DoubleArray => "DoubleArray"@,
            TypeTag::Int => "Int"@,
            TypeTag::IntArray => "IntArray"@,
            TypeTag::String => "String"@,
            TypeTag::StringArray => "StringArray"@,
            TypeTag::Boolean => "Boolean"@,
            TypeTag::BooleanArray => "BooleanArray"@,
        }
    }

    /// Whether the value is raw bytes.
    pub open spec fn is_binary(self) -> bool {
        self == TypeTag::ByteArray || self == TypeTag::Protobuf
    }

    /// Whether the value holds numbers.
    pub open spec fn is_numeric(self) -> bool {
        self == TypeTag::Float || self == TypeTag::FloatArray || self == TypeTag::Double || self
            == TypeTag::DoubleArray || self == TypeTag::Int || self == TypeTag::IntArray
    }

    /// Whether the value holds text.
    pub open spec fn is_string(self) -> bool {
        self == TypeTag::String || self == TypeTag::StringArray
    }

    /// Whether the value holds booleans.
    pub open spec fn is_boolean(self) -> bool {
        self == TypeTag::Boolean || self == TypeTag::BooleanArray
    }

    /// Whether the value is a scalar.
    pub open spec fn is_single(self) -> bool {
        self == TypeTag::Float || self == TypeTag::Double || self == TypeTag::Int || self
            == TypeTag::String || self == TypeTag::Boolean
    }

    /// Whether the value is an array.
    pub open spec fn is_array(self) -> bool {
        !self.is_single()
    }

    /// The name of the type as text.
    pub fn as_str(&self) -> (s: &'static str)
        ensures
            s@ == self.name(),
    {
        match self {
            TypeTag::ByteArray => "ByteArray",
            TypeTag::Protobuf => "Protobuf",
            TypeTag::Float => "Float",
            TypeTag::FloatArray => "FloatArray",
            TypeTag::Double => "Double",
            TypeTag::DoubleArray => "DoubleArray",
            TypeTag::Int => "Int",
            TypeTag::IntArray => "IntArray",
            TypeTag::String => "String",
            TypeTag::StringArray => "StringArray",
            TypeTag::Boolean => "Boolean",
            TypeTag::BooleanArray => "BooleanArray",
        }
    }
}

/// A copy of a vector of plain items.
pub fn copy_items<T: Copy>(v: &Vec<T>) -> (r: Vec<T>)
    ensures
        r@ == v@,
{
    let mut r: Vec<T> = Vec::new();
    let mut i: usize = 0;
    while i < v.len()
        invariant
            i <= v.len(),
            r@ == v@.take(i as int),
        decreases v.len() - i,
    {
        r.push(v[i]);
        i += 1;
        assert(r@ =~= v@.take(i as int));
    }
    assert(v@.take(v.len() as int) =~= v@);
    r
}

/// A copy of a vector of strings.
pub fn copy_strings(v: &Vec<String>) -> (r: Vec<String>)
    ensures
        strings_model(r@) == strings_model(v@),
{
    let mut r: Vec<String> = Vec::new();
    let mut i: usize = 0;
    while i < v.len()
        invariant
            i <= v.len(),
            r.len() == i,
            forall|j: int| 0 <= j < i ==> r@[j]@ == v@[j]@,
        decreases v.len() - i,
    {
        r.push(v[i].clone());
        i += 1;
    }
    assert(strings_model(r@) =~= strings_model(v@));
    r
}

impl EnokiValue {
    /// The type of the value.
    pub fn type_of(&self) -> (t: TypeTag)
        ensures
            t == self@.tag(),
    {
        match self {
            EnokiValue::ByteArray(_) => TypeTag::ByteArray,
            EnokiValue::Protobuf(_) => TypeTag::Protobuf,
            EnokiValue::Float(_) => TypeTag::Float,
            EnokiValue::FloatArray(_) => TypeTag::FloatArray,
            EnokiValue::Double(_) => TypeTag::Double,
            EnokiValue::DoubleArray(_) => TypeTag::DoubleArray,
            EnokiValue::Int(_) => TypeTag::Int,
            EnokiValue::IntArray(_) => TypeTag::IntArray,
            EnokiValue::String(_) => TypeTag::String,
            EnokiValue::StringArray(_) => TypeTag::StringArray,
            EnokiValue::Boolean(_) => TypeTag::Boolean,
            EnokiValue::BooleanArray(_) => TypeTag::BooleanArray,
        }
    }

    /// The name of the value's type.
    pub fn get_type(&self) -> (s: String)
        ensures
            s@ == self@.tag().name(),
    {
        String::from_str(self.type_of().as_str())
    }

    /// Whether the value is raw bytes.
    pub fn is_binary(&self) -> (b: bool)
        ensures
            b == self@.tag().is_binary(),
    {
        match self {
            EnokiValue::ByteArray(_) => true,
            EnokiValue::Protobuf(_) => true,
            _ => false,
        }
    }

    /// Whether the value holds numbers.
    pub fn is_numeric(&self) -> (b: bool)
        ensures
            b == self@.tag().is_numeric(),
    {
        match self {
            EnokiValue::Float(_) => true,
            EnokiValue::FloatArray(_) => true,
            EnokiValue::Double(_) => true,
            EnokiValue::DoubleArray(_) => true,
            EnokiValue::Int(_) => true,
            EnokiValue::IntArray(_) => true,
            _ => false,
        }
    }

    /// Whether the value holds text.
    pub fn is_string(&self) -> (b: bool)
        ensures
            b == self@.tag().is_string(),
    {
        match self {
            EnokiValue::String(_) => true,
            EnokiValue::StringArray(_) => true,
            _ => false,
        }
    }

    /// Whether the value holds booleans.
    pub fn is_boolean(&self) -> (b: bool)
        ensures
            b == self@.tag().is_boolean(),
    {
        match self {
            EnokiValue::Boolean(_) => true,
            EnokiValue::BooleanArray(_) => true,
            _ => false,
        }
    }

    /// Whether the value is an array.
    pub fn is_array(&self) -> (b: bool)
        ensures
            b == self@.tag().is_array(),
    {
        !self.is_single()
    }

    /// Whether the value is a scalar.
    pub fn is_single(&self) -> (b: bool)
        ensures
            b == self@.tag().is_single(),
    {
        match self {
            EnokiValue::Float(_) => true,
            EnokiValue::Double(_) => true,
            EnokiValue::Int(_) => true,
            EnokiValue::String(_) => true,
            EnokiValue::Boolean(_) => true,
            _ => false,
        }
    }

    /// The element at `index` of an array value, as a scalar value.
    pub fn get_index(&self, index: usize) -> (r: Option<EnokiValue>)
        ensures
            r.is_some() == self@.index(index as int).is_some(),
            r.is_some() ==> r.unwrap()@ == self@.index(index as int).unwrap(),
    {
        match self {
            EnokiValue::ByteArray(v) => if index < v.len() {
                Some(EnokiValue::Int(v[index] as i64))
            } else {
                None
            },
            EnokiValue::Protobuf(v) => if index < v.len() {
                Some(EnokiValue::Int(v[index] as i64))
            } else {
                None
            },
            EnokiValue::FloatArray(v) => if index < v.len() {
                Some(EnokiValue::Float(v[index]))
            } else {
                None
            },
            EnokiValue::DoubleArray(v) => if index < v.len() {
                Some(EnokiValue::Double(v[index]))
            } else {
                None
            },
            EnokiValue::IntArray(v) => if index < v.len() {
                Some(EnokiValue::Int(v[index]))
            } else {
                None
            },
            EnokiValue::StringArray(v) => if index < v.len() {
                Some(EnokiValue::String(v[index].clone()))
            } else {
                None
            },
            EnokiValue::BooleanArray(v) => if index < v.len() {
                Some(EnokiValue::Boolean(v[index]))
            } else {
                None
            },
            _ => None,
        }
    }

    /// The number of elements of an array value.
    pub fn get_len(&self) -> (r: Option<usize>)
        ensures
            r.is_some() == self@.len().is_some(),
            r.is_some() ==> r.unwrap() as nat == self@.len().unwrap(),
    {
        match self {
            EnokiValue::ByteArray(v) => Some(v.len()),
            EnokiValue::Protobuf(v) => Some(v.len()),
            EnokiValue::FloatArray(v) => Some(v.len()),
            EnokiValue::DoubleArray(v) => Some(v.len()),
            EnokiValue::IntArray(v) => Some(v.len()),
            EnokiValue::StringArray(v) => Some(v.len()),
            EnokiValue::BooleanArray(v) => Some(v.len()),
            _ => None,
        }
    }

    /// A copy with the same content.
    pub fn duplicate(&self) -> (r: EnokiValue)
        ensures
            r@ == self@,
    {
        match self {
            EnokiValue::ByteArray(v) => EnokiValue::ByteArray(copy_items(v)),
            EnokiValue::Protobuf(v) => EnokiValue::Protobuf(copy_items(v)),
            EnokiValue::Float(v) => EnokiValue::Float(*v),
            EnokiValue::FloatArray(v) => EnokiValue::FloatArray(copy_items(v)),
            EnokiValue::Double(v) => EnokiValue::Double(*v),
            EnokiValue::DoubleArray(v) => EnokiValue::DoubleArray(copy_items(v)),
            EnokiValue::Int(v) => EnokiValue::Int(*v),
            EnokiValue::IntArray(v) => EnokiValue::IntArray(copy_items(v)),
            EnokiValue::String(v) => EnokiValue::String(v.clone()),
            EnokiValue::StringArray(v) => EnokiValue::StringArray(copy_strings(v)),
            EnokiValue::Boolean(v) => EnokiValue::Boolean(*v),
            EnokiValue::BooleanArray(v) => EnokiValue::BooleanArray(copy_items(v)),
        }
    }

    /// The value itself where it has the type asked for, else a mismatch.
    pub fn expect_type(self, target: TypeTag) -> (r: Result<EnokiValue, EnokiError>)
        ensures
            self@.tag() == target ==> r == Ok::<EnokiValue, EnokiError>(self),
            self@.tag() != target ==> r == Err::<EnokiValue, EnokiError>(EnokiError::TypeMismatch),
    {
        if self.type_of() == target {
            Ok(self)
        } else {
            Err(EnokiError::TypeMismatch)
        }
    }
}

} // verus!
