//! Native values, the boxed call-argument representation, and the scalar
//! conversions between them.
//!
//! A [`NativeValue`] is a member of the closed set of native types the
//! boundary supports.  A [`JvmValue`] is the exact boxed representation a
//! host-runtime call takes and returns.  Scalars convert directly; signed
//! and unsigned 8-bit values are byte-reinterpreted (a bitwise cast, never a
//! numeric truncation) because JVM bytes are always signed; a native Unicode
//! scalar travels as a UTF-16 code unit, and a code unit coming back that is
//! not a valid Unicode scalar is an error, never silently substituted.

use vstd::prelude::*;

use crate::error::JniError;
use crate::signature::NativeType;

verus! {

/// The boxed call-argument and call-result representation of the host
/// runtime.  `Object` carries a local-reference handle, `None` meaning the
/// null reference.
#[derive(Clone, Copy, PartialEq, Eq, Structural, Debug)]
pub enum JvmValue {
    Bool(bool),
    Byte(i8),
    Char(u16),
    Short(i16),
    Int(i32),
    Long(i64),
    Object(Option<usize>),
    Void,
}

/// A scope-bound owner of one local reference to a JVM object.
///
/// Every handle obtained from a call or allocation must be released exactly
/// once through the runtime; `target` is the live local-reference id, `None`
/// for the null handle, which owns nothing.
#[derive(Debug)]
pub struct ObjectHandle {
    /// Slash-separated class name of the wrapped object.
    pub class: String,
    /// The owned local-reference id, or `None` for null.
    pub target: Option<usize>,
}

/// A native value of one of the supported types.
///
/// Sequences of objects are held for the string element type, the one
/// non-scalar element the closed set carries; a sequence of another
/// wrapper class is outside this model and converts to a type mismatch.
#[derive(Debug)]
pub enum NativeValue {
    Unit,
    Bool(bool),
    I8(i8),
    U8(u8),
    I16(i16),
    I32(i32),
    I64(i64),
    Ch(char),
    Str(String),
    BoolArray(Vec<bool>),
    I8Array(Vec<i8>),
    U8Array(Vec<u8>),
    I16Array(Vec<i16>),
    I32Array(Vec<i32>),
    I64Array(Vec<i64>),
    CharArray(Vec<char>),
    StrArray(Vec<String>),
    Obj(ObjectHandle),
}

/// True for the scalar members of the supported type set.
pub open spec fn is_scalar_value(v: NativeValue) -> bool {
    match v {
        NativeValue::Bool(_) => true,
        NativeValue::I8(_) => true,
        NativeValue::U8(_) => true,
        NativeValue::I16(_) => true,
        NativeValue::I32(_) => true,
        NativeValue::I64(_) => true,
        NativeValue::Ch(_) => true,
        _ => false,
    }
}

/// The native type of a scalar value.
pub open spec fn scalar_type_of(v: NativeValue) -> NativeType
    recommends
        is_scalar_value(v),
{
    match v {
        NativeValue::Bool(_) => NativeType::Bool,
        NativeValue::I8(_) => NativeType::I8,
        NativeValue::U8(_) => NativeType::U8,
        NativeValue::I16(_) => NativeType::I16,
        NativeValue::I32(_) => NativeType::I32,
        NativeValue::I64(_) => NativeType::I64,
        NativeValue::Ch(_) => NativeType::Ch,
        _ => NativeType::Unit,
    }
}

/// The boxed representation of a scalar native value: bytes keep their bit
/// pattern, a character becomes its UTF-16 code unit.
pub open spec fn scalar_to_jvalue(v: NativeValue) -> JvmValue
    recommends
        is_scalar_value(v),
{
    match v {
        NativeValue::Bool(b) => JvmValue::Bool(b),
        NativeValue::I8(x) => JvmValue::Byte(x),
        NativeValue::U8(x) => JvmValue::Byte(x as i8),
        NativeValue::I16(x) => JvmValue::Short(x),
        NativeValue::I32(x) => JvmValue::Int(x),
        NativeValue::I64(x) => JvmValue::Long(x),
        NativeValue::Ch(c) => JvmValue::Char((c as u32) as u16),
        _ => JvmValue::Void,
    }
}

/// The native scalar a boxed call result converts back to, when the
/// requested type is scalar (or void): a direct reinterpretation, except
/// that a UTF-16 code unit that is not a valid Unicode scalar is an error.
pub open spec fn jvalue_to_scalar(jv: JvmValue, t: NativeType) -> Result<NativeValue, JniError> {
    match (t, jv) {
        (NativeType::Unit, JvmValue::Void) => Ok(NativeValue::Unit),
        (NativeType::Bool, JvmValue::Bool(b)) => Ok(NativeValue::Bool(b)),
        (NativeType::I8, JvmValue::Byte(x)) => Ok(NativeValue::I8(x)),
        (NativeType::U8, JvmValue::Byte(x)) => Ok(NativeValue::U8(x as u8)),
        (NativeType::I16, JvmValue::Short(x)) => Ok(NativeValue::I16(x)),
        (NativeType::I32, JvmValue::Int(x)) => Ok(NativeValue::I32(x)),
        (NativeType::I64, JvmValue::Long(x)) => Ok(NativeValue::I64(x)),
        (NativeType::Ch, JvmValue::Char(u)) => if vstd::utf8::is_scalar(u as u32) {
            Ok(NativeValue::Ch((u as u32) as char))
        } else {
            Err(JniError::InvalidCodePoint)
        },
        _ => Err(JniError::TypeMismatch),
    }
}

/// Scalar round trip: converting a supported scalar to its boxed
/// representation and back yields the original value.  Characters outside
/// the basic multilingual plane do not fit one UTF-16 code unit and are
/// excluded.
pub proof fn lemma_scalar_round_trip(v: NativeValue)
    requires
        is_scalar_value(v),
        v matches NativeValue::Ch(c) ==> c as u32 <= 0xFFFF,
    ensures
        jvalue_to_scalar(scalar_to_jvalue(v), scalar_type_of(v)) == Ok::<NativeValue, JniError>(v),
{
    match v {
        NativeValue::U8(x) => {
            assert(x as i8 as u8 == x) by (bit_vector);
        },
        NativeValue::Ch(c) => {
            let c32 = c as u32;
            assert(c32 as u16 == c32) by (bit_vector)
                requires
                    c32 <= 0xFFFF,
            ;
            vstd::utf8::char_is_scalar(c);
            vstd::utf8::char_u32_cast(c, c32);
        },
        _ => {},
    }
}

/// Relies on char::from_u32, which returns `Some` exactly for the valid
/// Unicode scalar values (everything up to 0x10FFFF except the surrogate
/// range) and then returns the character with that code point.
#[verifier::external_body]
fn char_from_u32(v: u32) -> (r: Option<char>)
    ensures
        r is Some <==> vstd::utf8::is_scalar(v),
        r matches Some(c) ==> c as u32 == v,
{
    char::from_u32(v)
}

/// Converts a code point from the host runtime to a native character,
/// rejecting values that are not valid Unicode scalars.
pub fn u32_to_char(val: u32) -> (r: Result<char, JniError>)
    ensures
        vstd::utf8::is_scalar(val) ==> r == Ok::<char, JniError>(val as char),
        !vstd::utf8::is_scalar(val) ==> r == Err::<char, JniError>(JniError::InvalidCodePoint),
{
    match char_from_u32(val) {
        Some(c) => {
            proof {
                vstd::utf8::char_u32_cast(c, val);
            }
            Ok(c)
        },
        None => Err(JniError::InvalidCodePoint),
    }
}

/// Reinterprets unsigned bytes as signed bytes, element by element, keeping
/// every bit pattern.
pub fn vec_u8_into_i8(v: Vec<u8>) -> (r: Vec<i8>)
    ensures
        r@.len() == v@.len(),
        forall|i: int| 0 <= i < v@.len() ==> r@[i] == v@[i] as i8,
{
    let mut r: Vec<i8> = Vec::new();
    let mut i: usize = 0;
    while i < v.len()
        invariant
            i <= v@.len(),
            r@.len() == i,
            forall|j: int| 0 <= j < i ==> r@[j] == v@[j] as i8,
        decreases v@.len() - i,
    {
        r.push(v[i] as i8);
        i = i + 1;
    }
    r
}

/// Reinterprets signed bytes as unsigned bytes, element by element, keeping
/// every bit pattern.
pub fn vec_i8_into_u8(v: Vec<i8>) -> (r: Vec<u8>)
    ensures
        r@.len() == v@.len(),
        forall|i: int| 0 <= i < v@.len() ==> r@[i] == v@[i] as u8,
{
    let mut r: Vec<u8> = Vec::new();
    let mut i: usize = 0;
    while i < v.len()
        invariant
            i <= v@.len(),
            r@.len() == i,
            forall|j: int| 0 <= j < i ==> r@[j] == v@[j] as u8,
        decreases v@.len() - i,
    {
        r.push(v[i] as u8);
        i = i + 1;
    }
    r
}

/// Byte reinterpretation is involutive: staging unsigned bytes as signed
/// bytes and reading them back restores every element bit for bit.
pub proof fn lemma_byte_reinterpret_round_trip(x: u8)
    ensures
        (x as i8) as u8 == x,
{
    assert(x as i8 as u8 == x) by (bit_vector);
}


/// A wrapper type that can be built around the object handle a
/// constructor call returns.
pub trait JavaConstructible: Sized {
    /// Wraps the owned handle of a freshly constructed instance.
    fn wrap_jobject(handle: ObjectHandle) -> Self;
}

/// Marker for the native types whose boxed call representation is an
/// object reference, never a primitive: strings and sequences.
pub trait JValueNonScalar {

}

impl JValueNonScalar for String {

}

impl<T> JValueNonScalar for Vec<T> {

}

} // verus!
