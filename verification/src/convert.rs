//! Conversion of a value to another type.
//!
//! Which conversions exist is decided here. Those between integers and
//! floating-point numbers, and the text of a floating-point number, are
//! arithmetic on floats: they are handed back to the caller to compute.

use vstd::prelude::*;
use crate::error::EnokiError;
use crate::text::{decimal, decimal_string};
use crate::value::{EnokiValue, TypeTag, ValueModel};

verus! {

/// How a value of one type becomes a value of another.
#[derive(Clone, Copy, Debug, PartialEq, Eq, Structural)]
pub enum Conversion {
    /// The types are the same.
    Same,
    /// To a wider numeric type: single to double precision, integer to
    /// floating point.
    Widening,
    /// To a narrower numeric type: double to single precision, floating
    /// point to integer, which drops the fraction.
    Narrowing,
    /// A scalar to its text.
    Formatting,
    /// There is no such conversion.
    Undefined,
}

/// The place of a numeric scalar type in the order of widening.
pub open spec fn width(t: TypeTag) -> Option<int> {
    match t {
        TypeTag::Int => Some(0),
        TypeTag::Float => Some(1),
        TypeTag::Double => Some(2),
        _ => None,
    }
}

/// The place of a numeric array type in the order of widening.
pub open spec fn array_width(t: TypeTag) -> Option<int> {
    match t {
        TypeTag::IntArray => Some(0),
        TypeTag::FloatArray => Some(1),
        TypeTag::DoubleArray => Some(2),
        _ => None,
    }
}

/// How a value of type `from` becomes one of type `to`.
pub open spec fn conversion_of(from: TypeTag, to: TypeTag) -> Conversion {
    if from == to {
        Conversion::Same
    } else if width(from).is_some() && width(to).is_some() {
        if width(from).unwrap() < width(to).unwrap() {
            Conversion::Widening
        } else {
            Conversion::Narrowing
        }
    } else if array_width(from).is_some() && array_width(to).is_some() {
        if array_width(from).unwrap() < array_width(to).unwrap() {
            Conversion::Widening
        } else {
            Conversion::Narrowing
        }
    } else if to == TypeTag::String && (from == TypeTag::Boolean || width(from).is_some()) {
        Conversion::Formatting
    } else {
        Conversion::Undefined
    }
}

fn width_of(t: TypeTag) -> (w: Option<u8>)
    ensures
        w.is_some() == width(t).is_some(),
        w.is_some() ==> w.unwrap() as int == width(t).unwrap(),
{
    match t {
        TypeTag::Int => Some(0),
        TypeTag::Float => Some(1),
        TypeTag::Double => Some(2),
        _ => None,
    }
}

fn array_width_of(t: TypeTag) -> (w: Option<u8>)
    ensures
        w.is_some() == array_width(t).is_some(),
        w.is_some() ==> w.unwrap() as int == array_width(t).unwrap(),
{
    match t {
        TypeTag::IntArray => Some(0),
        TypeTag::FloatArray => Some(1),
        TypeTag::DoubleArray => Some(2),
        _ => None,
    }
}

/// How a value of type `from` becomes one of type `to`.
pub fn conversion(from: TypeTag, to: TypeTag) -> (c: Conversion)
    ensures
        c == conversion_of(from, to),
{
    if from == to {
        return Conversion::Same;
    }
    match (width_of(from), width_of(to)) {
        (Some(a), Some(b)) => {
            return if a < b {
                Conversion::Widening
            } else {
                Conversion::Narrowing
            };
        },
        _ => {},
    }
    match (array_width_of(from), array_width_of(to)) {
        (Some(a), Some(b)) => {
            return if a < b {
                Conversion::Widening
            } else {
                Conversion::Narrowing
            };
        },
        _ => {},
    }
    if to == TypeTag::String && (from == TypeTag::Boolean || width_of(from).is_some()) {
        Conversion::Formatting
    } else {
        Conversion::Undefined
    }
}

/// The decimal text of an integer, with a minus sign where it is negative.
pub open spec fn signed_decimal(v: i64) -> Seq<char> {
    if v >= 0 {
        decimal(v as nat)
    } else {
        seq!['-'] + decimal((-v) as nat)
    }
}

/// The decimal text of an integer.
pub fn signed_decimal_string(v: i64) -> (s: String)
    ensures
        s@ == signed_decimal(v),
{
    if v >= 0 {
        decimal_string(v as u64)
    } else {
        let magnitude: u64 = ((-(v + 1)) as u64) + 1;
        proof {
            reveal_strlit("-");
        }
        let mut s = String::from_str("-");
        s.append(decimal_string(magnitude).as_str());
        assert(s@ =~= signed_decimal(v));
        s
    }
}

/// The text of a boolean.
pub open spec fn boolean_text(b: bool) -> Seq<char> {
    if b {
        "true"@
    } else {
        "false"@
    }
}

/// What a conversion came to.
#[derive(Clone, Debug, PartialEq)]
pub enum Converted {
    /// The value in the type asked for.
    Done(EnokiValue),
    /// The conversion exists and is arithmetic on floating-point numbers:
    /// the value as it was, and the type asked for.
    Floating(EnokiValue, TypeTag),
}

/// What converting a value to a type comes to.
pub open spec fn convert_of(v: ValueModel, target: TypeTag) -> Result<
    (Option<ValueModel>, TypeTag),
    EnokiError,
> {
    match conversion_of(v.tag(), target) {
        Conversion::Undefined => Err(EnokiError::TypeMismatch),
        Conversion::Same => Ok((Some(v), target)),
        Conversion::Formatting => match v {
            ValueModel::Boolean(b) => Ok((Some(ValueModel::String(boolean_text(b))), target)),
            ValueModel::Int(i) => Ok((Some(ValueModel::String(signed_decimal(i))), target)),
            _ => Ok((None, target)),
        },
        _ => Ok((None, target)),
    }
}

impl EnokiValue {
    /// Converts the value to the type asked for: a type mismatch where no
    /// such conversion exists; the value itself where it has that type;
    /// the text of a boolean or an integer; and for every conversion that
    /// is arithmetic on floating-point numbers the value as it was, for
    /// the caller to compute.
    pub fn convert(self, target: TypeTag) -> (r: Result<Converted, EnokiError>)
        ensures
            match convert_of(self@, target) {
                Err(e) => r == Err::<Converted, EnokiError>(e),
                Ok((Some(v), _)) => r.is_ok() && match r.unwrap() {
                    Converted::Done(done) => done@ == v,
                    Converted::Floating(_, _) => false,
                },
                Ok((None, _)) => r == Ok::<Converted, EnokiError>(
                    Converted::Floating(self, target),
                ),
            },
    {
        match conversion(self.type_of(), target) {
            Conversion::Undefined => Err(EnokiError::TypeMismatch),
            Conversion::Same => Ok(Converted::Done(self)),
            Conversion::Formatting => match self {
                EnokiValue::Boolean(b) => {
                    let text = if b {
                        "true"
                    } else {
                        "false"
                    };
                    Ok(Converted::Done(EnokiValue::String(String::from_str(text))))
                },
                EnokiValue::Int(i) => Ok(
                    Converted::Done(EnokiValue::String(signed_decimal_string(i))),
                ),
                other => Ok(Converted::Floating(other, target)),
            },
            _ => Ok(Converted::Floating(self, target)),
        }
    }
}

} // verus!
