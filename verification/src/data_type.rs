//! The data types of arrays, and the fill values that suit them.

use vstd::prelude::*;

use crate::json::{lemma_array_view, Json, JsonView};
use crate::text::str_eq;

verus! {

/// The type of an array's elements.
#[derive(Debug, Clone, Copy, PartialEq, Eq, Structural)]
pub enum DataType {
    Bool,
    Int8,
    Int16,
    Int32,
    Int64,
    UInt8,
    UInt16,
    UInt32,
    UInt64,
    Float16,
    Float32,
    Float64,
    Complex64,
    Complex128,
}

impl DataType {
    /// The name of the data type in array metadata.
    pub open spec fn spec_name(self) -> Seq<char> {
        match self {
            DataType::Bool => "bool"@,
            DataType::Int8 => "int8"@,
            DataType::Int16 => "int16"@,
            DataType::Int32 => "int32"@,
            DataType::Int64 => "int64"@,
            DataType::UInt8 => "uint8"@,
            DataType::UInt16 => "uint16"@,
            DataType::UInt32 => "uint32"@,
            DataType::UInt64 => "uint64"@,
            DataType::Float16 => "float16"@,
            DataType::Float32 => "float32"@,
            DataType::Float64 => "float64"@,
            DataType::Complex64 => "complex64"@,
            DataType::Complex128 => "complex128"@,
        }
    }

    /// The data type of the given name, if it names one.
    pub open spec fn named(name: Seq<char>) -> Option<DataType> {
        if name == "bool"@ {
            Some(DataType::Bool)
        } else if name == "int8"@ {
            Some(DataType::Int8)
        } else if name == "int16"@ {
            Some(DataType::Int16)
        } else if name == "int32"@ {
            Some(DataType::Int32)
        } else if name == "int64"@ {
            Some(DataType::Int64)
        } else if name == "uint8"@ {
            Some(DataType::UInt8)
        } else if name == "uint16"@ {
            Some(DataType::UInt16)
        } else if name == "uint32"@ {
            Some(DataType::UInt32)
        } else if name == "uint64"@ {
            Some(DataType::UInt64)
        } else if name == "float16"@ {
            Some(DataType::Float16)
        } else if name == "float32"@ {
            Some(DataType::Float32)
        } else if name == "float64"@ {
            Some(DataType::Float64)
        } else if name == "complex64"@ {
            Some(DataType::Complex64)
        } else if name == "complex128"@ {
            Some(DataType::Complex128)
        } else {
            None
        }
    }

    /// Every data type is the one that its name names.
    pub proof fn lemma_named(self)
        ensures
            DataType::named(self.spec_name()) == Some(self),
    {
        reveal_strlit("bool");
        reveal_strlit("int8");
        reveal_strlit("int16");
        reveal_strlit("int32");
        reveal_strlit("int64");
        reveal_strlit("uint8");
        reveal_strlit("uint16");
        reveal_strlit("uint32");
        reveal_strlit("uint64");
        reveal_strlit("float16");
        reveal_strlit("float32");
        reveal_strlit("float64");
        reveal_strlit("complex64");
        reveal_strlit("complex128");
        assert("bool"@.len() == 4 && "int8"@.len() == 4);
        assert("int16"@.len() == 5 && "int32"@.len() == 5 && "int64"@.len() == 5);
        assert("uint8"@.len() == 5);
        assert("uint16"@.len() == 6 && "uint32"@.len() == 6 && "uint64"@.len() == 6);
        assert("float16"@.len() == 7 && "float32"@.len() == 7 && "float64"@.len() == 7);
        assert("complex64"@.len() == 9 && "complex128"@.len() == 10);
        assert("bool"@[0] == 'b' && "int8"@[0] == 'i');
        assert("int16"@[3] == '1' && "int32"@[3] == '3' && "int64"@[3] == '6');
        assert("int16"@[0] == 'i' && "int32"@[0] == 'i' && "int64"@[0] == 'i' && "uint8"@[0] == 'u');
        assert("uint16"@[4] == '1' && "uint32"@[4] == '3' && "uint64"@[4] == '6');
        assert("float16"@[5] == '1' && "float32"@[5] == '3' && "float64"@[5] == '6');
    }

    /// The name of the data type in array metadata.
    pub fn name(&self) -> (r: &'static str)
        ensures
            r@ == self.spec_name(),
    {
        match self {
            DataType::Bool => "bool",
            DataType::Int8 => "int8",
            DataType::Int16 => "int16",
            DataType::Int32 => "int32",
            DataType::Int64 => "int64",
            DataType::UInt8 => "uint8",
            DataType::UInt16 => "uint16",
            DataType::UInt32 => "uint32",
            DataType::UInt64 => "uint64",
            DataType::Float16 => "float16",
            DataType::Float32 => "float32",
            DataType::Float64 => "float64",
            DataType::Complex64 => "complex64",
            DataType::Complex128 => "complex128",
        }
    }

    /// The data type of the given name, if it names one.
    pub fn from_name(name: &str) -> (r: Option<DataType>)
        ensures
            r == DataType::named(name@),
    {
        if str_eq(name, "bool") {
            Some(DataType::Bool)
        } else if str_eq(name, "int8") {
            Some(DataType::Int8)
        } else if str_eq(name, "int16") {
            Some(DataType::Int16)
        } else if str_eq(name, "int32") {
            Some(DataType::Int32)
        } else if str_eq(name, "int64") {
            Some(DataType::Int64)
        } else if str_eq(name, "uint8") {
            Some(DataType::UInt8)
        } else if str_eq(name, "uint16") {
            Some(DataType::UInt16)
        } else if str_eq(name, "uint32") {
            Some(DataType::UInt32)
        } else if str_eq(name, "uint64") {
            Some(DataType::UInt64)
        } else if str_eq(name, "float16") {
            Some(DataType::Float16)
        } else if str_eq(name, "float32") {
            Some(DataType::Float32)
        } else if str_eq(name, "float64") {
            Some(DataType::Float64)
        } else if str_eq(name, "complex64") {
            Some(DataType::Complex64)
        } else if str_eq(name, "complex128") {
            Some(DataType::Complex128)
        } else {
            None
        }
    }

    /// The least and the greatest value of an integer type; nothing for the
    /// other types.
    pub open spec fn integer_range(self) -> Option<(int, int)> {
        match self {
            DataType::Int8 => Some((-0x80, 0x7f)),
            DataType::Int16 => Some((-0x8000, 0x7fff)),
            DataType::Int32 => Some((-0x8000_0000, 0x7fff_ffff)),
            DataType::Int64 => Some((-0x8000_0000_0000_0000, 0x7fff_ffff_ffff_ffff)),
            DataType::UInt8 => Some((0, 0xff)),
            DataType::UInt16 => Some((0, 0xffff)),
            DataType::UInt32 => Some((0, 0xffff_ffff)),
            DataType::UInt64 => Some((0, 0xffff_ffff_ffff_ffff)),
            _ => None,
        }
    }

    /// Whether the elements are floating-point numbers.
    pub open spec fn is_float(self) -> bool {
        self is Float16 || self is Float32 || self is Float64
    }

    /// Whether the elements are complex numbers.
    pub open spec fn is_complex(self) -> bool {
        self is Complex64 || self is Complex128
    }
}

/// The integer that a JSON value holds, if it is an integer.
pub open spec fn integer_of(v: JsonView) -> Option<int> {
    match v {
        JsonView::PosInt(n) => Some(n as int),
        JsonView::NegInt(n) => Some(n as int),
        _ => None,
    }
}

/// Whether a JSON value stands for a floating-point number: any JSON number,
/// or one of the texts `NaN`, `Infinity` and `-Infinity`.
pub open spec fn is_float_json(v: JsonView) -> bool {
    match v {
        JsonView::PosInt(_) => true,
        JsonView::NegInt(_) => true,
        JsonView::Real(_) => true,
        JsonView::Text(t) => t == "NaN"@ || t == "Infinity"@ || t == "-Infinity"@,
        _ => false,
    }
}

/// Whether the JSON value `v` is a fill value for arrays of type `dt`: a
/// boolean for `bool`; an integer in the type's range for the integer types;
/// a floating-point number for the float types; an array of two
/// floating-point numbers, real and imaginary part, for the complex types.
pub open spec fn fits(dt: DataType, v: JsonView) -> bool {
    if dt is Bool {
        v is Bool
    } else if dt.is_float() {
        is_float_json(v)
    } else if dt.is_complex() {
        v matches JsonView::Array(parts) && parts.len() == 2 && is_float_json(parts[0])
            && is_float_json(parts[1])
    } else {
        match (integer_of(v), dt.integer_range()) {
            (Some(n), Some((low, high))) => low <= n <= high,
            _ => false,
        }
    }
}

/// Whether a JSON value stands for a floating-point number.
pub fn check_float(v: &Json) -> (r: bool)
    ensures
        r == is_float_json(v@),
{
    match v {
        Json::PosInt(_) => true,
        Json::NegInt(_) => true,
        Json::Real(_) => true,
        Json::Text(t) => str_eq(t.as_str(), "NaN") || str_eq(t.as_str(), "Infinity") || str_eq(
            t.as_str(),
            "-Infinity",
        ),
        _ => false,
    }
}

/// Whether the integer JSON value `v` lies between `low` and `high`.
fn check_integer(v: &Json, low: i64, high: u64) -> (r: bool)
    requires
        low <= 0,
    ensures
        r == (integer_of(v@) matches Some(n) && low <= n <= high),
{
    match v {
        Json::PosInt(n) => *n <= high,
        Json::NegInt(n) => low <= *n && (*n < 0 || *n as u64 <= high),
        _ => false,
    }
}

/// Whether the JSON value `v` is a fill value for arrays of type `dt`.
pub fn check_fits(dt: DataType, v: &Json) -> (r: bool)
    ensures
        r == fits(dt, v@),
{
    match dt {
        DataType::Bool => match v {
            Json::Bool(_) => true,
            _ => false,
        },
        DataType::Int8 => check_integer(v, -0x80, 0x7f),
        DataType::Int16 => check_integer(v, -0x8000, 0x7fff),
        DataType::Int32 => check_integer(v, -0x8000_0000, 0x7fff_ffff),
        DataType::Int64 => check_integer(v, -0x8000_0000_0000_0000, 0x7fff_ffff_ffff_ffff),
        DataType::UInt8 => check_integer(v, 0, 0xff),
        DataType::UInt16 => check_integer(v, 0, 0xffff),
        DataType::UInt32 => check_integer(v, 0, 0xffff_ffff),
        DataType::UInt64 => check_integer(v, 0, 0xffff_ffff_ffff_ffff),
        DataType::Float16 | DataType::Float32 | DataType::Float64 => check_float(v),
        DataType::Complex64 | DataType::Complex128 => match v {
            Json::Array(parts) => {
                proof {
                    lemma_array_view(*v);
                }
                parts.len() == 2 && check_float(&parts[0]) && check_float(&parts[1])
            },
            _ => false,
        },
    }
}

/// The value that stands at the positions of an array that were never
/// written: a JSON value that suits the array's data type.
#[derive(Debug, PartialEq, Eq)]
pub struct FillValue {
    data_type: DataType,
    value: Json,
}

/// A fill value as a mathematical value.
pub struct FillValueView {
    pub data_type: DataType,
    pub value: JsonView,
}

impl View for FillValue {
    type V = FillValueView;

    closed spec fn view(&self) -> FillValueView {
        FillValueView { data_type: self.data_type, value: self.value@ }
    }
}

impl Clone for FillValue {
    fn clone(&self) -> (r: FillValue)
        ensures
            r@ == self@,
    {
        proof {
            use_type_invariant(self);
        }
        FillValue { data_type: self.data_type, value: self.value.clone() }
    }
}

impl FillValue {
    #[verifier::type_invariant]
    spec fn suits(&self) -> bool {
        fits(self.data_type, self.value@)
    }

    /// The fill value that the JSON value `value` stands for in an array of
    /// type `data_type`, if it suits the type.
    pub fn from_data_type_and_json(data_type: &DataType, value: &Json) -> (r: Option<FillValue>)
        ensures
            match r {
                Some(fill) => fits(*data_type, value@) && fill@ == (FillValueView {
                    data_type: *data_type,
                    value: value@,
                }),
                None => !fits(*data_type, value@),
            },
    {
        if check_fits(*data_type, value) {
            Some(FillValue { data_type: *data_type, value: value.clone() })
        } else {
            None
        }
    }

    /// The data type that the fill value suits.
    pub fn data_type(&self) -> (r: DataType)
        ensures
            r == self@.data_type,
    {
        self.data_type
    }

    /// The fill value as JSON.
    pub fn value(&self) -> (r: &Json)
        ensures
            r@ == self@.value,
            fits(self@.data_type, self@.value),
    {
        proof {
            use_type_invariant(self);
        }
        &self.value
    }
}

} // verus!
