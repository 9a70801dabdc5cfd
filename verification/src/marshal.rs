//! The value marshaller: native values to call-scoped temporaries and
//! boxed call arguments, and call results back to native values.
//!
//! Staging a native value may allocate host-runtime objects (strings,
//! arrays); the resulting temporary owns the one local reference that was
//! created and must be released after the call.  Converting a call result
//! consumes the reference it carries: the reference is released on every
//! path, except that converting to an object wrapper hands the reference on
//! to the returned handle.

use vstd::prelude::*;

use crate::error::JniError;
use crate::runtime::ArrData;
use crate::runtime::arr_eq;
use crate::runtime::JvmSim;
use crate::runtime::Payload;
use crate::runtime::payload_wf;
use crate::signature::NativeType;
use crate::values::JvmValue;
use crate::values::NativeValue;
use crate::values::is_scalar_value;
use crate::values::scalar_to_jvalue;

verus! {

/// The UTF-16 code units of a character sequence, one unit per character;
/// characters beyond the basic multilingual plane are truncated to their
/// low sixteen bits, as the boxed `char` representation is.
pub open spec fn units_of_chars(s: Seq<char>) -> Seq<u16> {
    s.map_values(|c: char| (c as u32) as u16)
}

/// Characters decoded from UTF-16 code units, assuming every unit is a
/// valid Unicode scalar.
pub open spec fn chars_of_units(s: Seq<u16>) -> Seq<char> {
    s.map_values(|u: u16| (u as u32) as char)
}

/// Every code unit of the sequence is a valid Unicode scalar value.
pub open spec fn all_units_scalar(s: Seq<u16>) -> bool {
    forall|i: int| 0 <= i < s.len() ==> vstd::utf8::is_scalar((#[trigger] s[i]) as u32)
}

/// Unsigned bytes reinterpreted as signed bytes, bit patterns kept.
pub open spec fn bytes_of_u8s(s: Seq<u8>) -> Seq<i8> {
    s.map_values(|x: u8| x as i8)
}

/// Signed bytes reinterpreted as unsigned bytes, bit patterns kept.
pub open spec fn u8s_of_bytes(s: Seq<i8>) -> Seq<u8> {
    s.map_values(|x: i8| x as u8)
}

/// A call-scoped temporary: what one native argument becomes for the
/// duration of one call.
///
/// A `Scalar` needs no cleanup.  A `Local` owns the one local reference
/// that staging created and must be released after the call.  A `Borrowed`
/// reference belongs to an object handle of the caller and is not released
/// here.
#[derive(Clone, Copy, PartialEq, Eq, Structural, Debug)]
pub enum Temporary {
    Scalar(JvmValue),
    Local(usize),
    Borrowed(Option<usize>),
}

/// The boxed call-argument representation of a temporary.
pub open spec fn temp_jvalue(t: Temporary) -> JvmValue {
    match t {
        Temporary::Scalar(jv) => jv,
        Temporary::Local(r) => JvmValue::Object(Some(r)),
        Temporary::Borrowed(o) => JvmValue::Object(o),
    }
}

/// How many local references a temporary owns.
pub open spec fn temp_owned(t: Temporary) -> nat {
    match t {
        Temporary::Local(_) => 1,
        _ => 0,
    }
}

/// The temporary stands for the native value in the given runtime state:
/// scalars are boxed directly, strings and arrays are fresh objects with
/// the converted contents, object handles are passed through borrowed.
pub open spec fn temp_corresponds(s: JvmSim, t: Temporary, v: NativeValue) -> bool {
    match v {
        NativeValue::Unit => false,
        NativeValue::Str(x) => {
            &&& t matches Temporary::Local(r)
            &&& s.ref_is_obj(r)
            &&& s.objects@[s.ref_obj(r) as int].payload matches Payload::Str(c)
            &&& c@ == x@
        },
        NativeValue::BoolArray(x) => {
            &&& t matches Temporary::Local(r)
            &&& s.ref_is_obj(r)
            &&& s.objects@[s.ref_obj(r) as int].payload matches Payload::Arr(ArrData::Bools(b))
            &&& b@ == x@
        },
        NativeValue::I8Array(x) => {
            &&& t matches Temporary::Local(r)
            &&& s.ref_is_obj(r)
            &&& s.objects@[s.ref_obj(r) as int].payload matches Payload::Arr(ArrData::Bytes(b))
            &&& b@ == x@
        },
        NativeValue::U8Array(x) => {
            &&& t matches Temporary::Local(r)
            &&& s.ref_is_obj(r)
            &&& s.objects@[s.ref_obj(r) as int].payload matches Payload::Arr(ArrData::Bytes(b))
            &&& b@ == bytes_of_u8s(x@)
        },
        NativeValue::I16Array(x) => {
            &&& t matches Temporary::Local(r)
            &&& s.ref_is_obj(r)
            &&& s.objects@[s.ref_obj(r) as int].payload matches Payload::Arr(ArrData::Shorts(b))
            &&& b@ == x@
        },
        NativeValue::I32Array(x) => {
            &&& t matches Temporary::Local(r)
            &&& s.ref_is_obj(r)
            &&& s.objects@[s.ref_obj(r) as int].payload matches Payload::Arr(ArrData::Ints(b))
            &&& b@ == x@
        },
        NativeValue::I64Array(x) => {
            &&& t matches Temporary::Local(r)
            &&& s.ref_is_obj(r)
            &&& s.objects@[s.ref_obj(r) as int].payload matches Payload::Arr(ArrData::Longs(b))
            &&& b@ == x@
        },
        NativeValue::CharArray(x) => {
            &&& t matches Temporary::Local(r)
            &&& s.ref_is_obj(r)
            &&& s.objects@[s.ref_obj(r) as int].payload matches Payload::Arr(ArrData::Chars(b))
            &&& b@ == units_of_chars(x@)
        },
        NativeValue::StrArray(x) => {
            &&& t matches Temporary::Local(r)
            &&& s.ref_is_obj(r)
            &&& s.objects@[s.ref_obj(r) as int].payload matches Payload::ObjArr(items)
            &&& items@.len() == x@.len()
            &&& forall|i: int|
                0 <= i < items@.len() ==> {
                    &&& (#[trigger] items@[i]) matches Some(oid)
                    &&& oid < s.objects@.len()
                    &&& s.objects@[oid as int].payload matches Payload::Str(c)
                    &&& c@ == x@[i]@
                }
        },
        NativeValue::Obj(h) => t == Temporary::Borrowed(h.target),
        _ => t == Temporary::Scalar(scalar_to_jvalue(v)),
    }
}

/// Converts a character sequence to its UTF-16 code units.
fn chars_to_units(v: &Vec<char>) -> (r: Vec<u16>)
    ensures
        r@ == units_of_chars(v@),
{
    let mut r: Vec<u16> = Vec::new();
    let mut i: usize = 0;
    while i < v.len()
        invariant
            i <= v@.len(),
            r@ == units_of_chars(v@.take(i as int)),
        decreases v@.len() - i,
    {
        let c = v[i];
        let u32v = c as u32;
        r.push(#[verifier::truncate] (u32v as u16));
        proof {
            assert(units_of_chars(v@.take(i + 1)) =~= units_of_chars(v@.take(i as int)).push(
                (v@[i as int] as u32) as u16,
            ));
        }
        i = i + 1;
    }
    proof {
        assert(v@.take(v@.len() as int) =~= v@);
    }
    r
}

/// Decodes UTF-16 code units back to characters; a unit that is not a
/// valid Unicode scalar (a surrogate) is an error, never substituted.
fn units_to_chars(v: &Vec<u16>) -> (res: Result<Vec<char>, JniError>)
    ensures
        all_units_scalar(v@) ==> (res matches Ok(r) && r@ == chars_of_units(v@)),
        !all_units_scalar(v@) ==> res == Err::<Vec<char>, JniError>(JniError::InvalidCodePoint),
{
    let mut r: Vec<char> = Vec::new();
    let mut i: usize = 0;
    while i < v.len()
        invariant
            i <= v@.len(),
            forall|j: int| 0 <= j < i ==> vstd::utf8::is_scalar((#[trigger] v@[j]) as u32),
            r@ == chars_of_units(v@.take(i as int)),
        decreases v@.len() - i,
    {
        let u = v[i];
        match crate::values::u32_to_char(u as u32) {
            Ok(c) => {
                r.push(c);
            },
            Err(e) => {
                proof {
                    assert(!vstd::utf8::is_scalar(v@[i as int] as u32));
                }
                return Err(JniError::InvalidCodePoint);
            },
        }
        proof {
            assert(chars_of_units(v@.take(i + 1)) =~= chars_of_units(v@.take(i as int)).push(
                (v@[i as int] as u32) as char,
            ));
        }
        i = i + 1;
    }
    proof {
        assert(v@.take(v@.len() as int) =~= v@);
    }
    Ok(r)
}

/// The boxed representation of a scalar native value.
fn scalar_jvalue(v: &NativeValue) -> (r: JvmValue)
    requires
        is_scalar_value(*v),
    ensures
        r == scalar_to_jvalue(*v),
{
    match v {
        NativeValue::Bool(b) => JvmValue::Bool(*b),
        NativeValue::I8(x) => JvmValue::Byte(*x),
        NativeValue::U8(x) => JvmValue::Byte(*x as i8),
        NativeValue::I16(x) => JvmValue::Short(*x),
        NativeValue::I32(x) => JvmValue::Int(*x),
        NativeValue::I64(x) => JvmValue::Long(*x),
        NativeValue::Ch(c) => {
            let u32v = *c as u32;
            JvmValue::Char(#[verifier::truncate] (u32v as u16))
        },
        _ => JvmValue::Void,
    }
}

/// Stages a native boolean buffer as a fresh boolean array object of the
/// runtime and returns the owned reference.
pub fn copy_bool_array_to_jbooleanarray(je: &mut JvmSim, src: &Vec<bool>) -> (r: usize)
    requires
        old(je).wf(),
    ensures
        final(je).wf(),
        r == old(je).refs@.len(),
        final(je).ref_is_obj(r),
        final(je).ref_obj(r) == old(je).objects@.len(),
        final(je).objects@[final(je).ref_obj(r) as int].payload matches Payload::Arr(
            ArrData::Bools(b),
        ) && b@ == src@,
        final(je).objects@.len() == old(je).objects@.len() + 1,
        forall|i: int| 0 <= i < old(je).objects@.len() ==> final(je).objects@[i] == old(je).objects@[i],
        final(je).refs@ == old(je).refs@.push(
            crate::runtime::RefEntry {
                target: crate::runtime::RefTarget::Obj(old(je).objects@.len() as usize),
                live: true,
            },
        ),
        final(je).classes@ == old(je).classes@,
        final(je).pending == old(je).pending,
        final(je).live_refs() == old(je).live_refs() + 1,
{
    je.new_array("[Z", ArrData::Bools(crate::runtime::copy_vec(src)))
}

/// Stages a native character buffer as a fresh UTF-16 array object of the
/// runtime and returns the owned reference.
pub fn copy_char_array_to_jchararray(je: &mut JvmSim, src: &Vec<char>) -> (r: usize)
    requires
        old(je).wf(),
    ensures
        final(je).wf(),
        r == old(je).refs@.len(),
        final(je).ref_is_obj(r),
        final(je).ref_obj(r) == old(je).objects@.len(),
        final(je).objects@[final(je).ref_obj(r) as int].payload matches Payload::Arr(
            ArrData::Chars(b),
        ) && b@ == units_of_chars(src@),
        final(je).objects@.len() == old(je).objects@.len() + 1,
        forall|i: int| 0 <= i < old(je).objects@.len() ==> final(je).objects@[i] == old(je).objects@[i],
        final(je).refs@ == old(je).refs@.push(
            crate::runtime::RefEntry {
                target: crate::runtime::RefTarget::Obj(old(je).objects@.len() as usize),
                live: true,
            },
        ),
        final(je).classes@ == old(je).classes@,
        final(je).pending == old(je).pending,
        final(je).live_refs() == old(je).live_refs() + 1,
{
    je.new_array("[C", ArrData::Chars(chars_to_units(src)))
}

/// Reads a boolean array object back into a native buffer and releases the
/// reference.
pub fn move_jbooleanarray_to_bool_array(je: &mut JvmSim, src: usize) -> (res: Result<
    Vec<bool>,
    JniError,
>)
    requires
        old(je).wf(),
    ensures
        final(je).wf(),
        old(je).ref_is_obj(src) ==> (old(je).objects@[old(je).ref_obj(
            src,
        ) as int].payload matches Payload::Arr(ArrData::Bools(b)) ==> {
            &&& res matches Ok(v) && v@ == b@
            &&& final(je).objects@ == old(je).objects@
            &&& final(je).refs@ == old(je).refs@.update(
                src as int,
                crate::runtime::RefEntry {
                    target: old(je).refs@[src as int].target,
                    live: false,
                },
            )
            &&& final(je).classes@ == old(je).classes@
            &&& final(je).pending == old(je).pending
            &&& final(je).live_refs() + 1 == old(je).live_refs()
        }),
        res is Err ==> old(je).unchanged(*final(je)),
        !old(je).ref_is_obj(src) ==> res == Err::<Vec<bool>, JniError>(JniError::InvalidReference),
{
    let out: Vec<bool>;
    match je.get_array(src) {
        Ok(a) => match a {
            ArrData::Bools(b) => {
                out = crate::runtime::copy_vec(b);
            },
            _ => {
                return Err(JniError::TypeMismatch);
            },
        },
        Err(e) => {
            return Err(e);
        },
    }
    match je.delete_local_ref(src) {
        Ok(_) => Ok(out),
        Err(e) => Err(e),
    }
}

/// Reads a UTF-16 array object back into a native character buffer and
/// releases the reference; the reference is released even when a code unit
/// is not a valid Unicode scalar and the conversion fails.
pub fn move_jchararray_to_char_array(je: &mut JvmSim, src: usize) -> (res: Result<
    Vec<char>,
    JniError,
>)
    requires
        old(je).wf(),
    ensures
        final(je).wf(),
        old(je).ref_is_obj(src) ==> (old(je).objects@[old(je).ref_obj(
            src,
        ) as int].payload matches Payload::Arr(ArrData::Chars(b)) ==> {
            &&& all_units_scalar(b@) ==> (res matches Ok(v) && v@ == chars_of_units(b@))
            &&& !all_units_scalar(b@) ==> res == Err::<Vec<char>, JniError>(
                JniError::InvalidCodePoint,
            )
            &&& final(je).objects@ == old(je).objects@
            &&& final(je).refs@ == old(je).refs@.update(
                src as int,
                crate::runtime::RefEntry {
                    target: old(je).refs@[src as int].target,
                    live: false,
                },
            )
            &&& final(je).classes@ == old(je).classes@
            &&& final(je).pending == old(je).pending
            &&& final(je).live_refs() + 1 == old(je).live_refs()
        }),
        !old(je).ref_is_obj(src) ==> res == Err::<Vec<char>, JniError>(JniError::InvalidReference)
            && old(je).unchanged(*final(je)),
{
    let units: Vec<u16>;
    match je.get_array(src) {
        Ok(a) => match a {
            ArrData::Chars(b) => {
                units = crate::runtime::copy_vec(b);
            },
            _ => {
                return Err(JniError::TypeMismatch);
            },
        },
        Err(e) => {
            return Err(e);
        },
    }
    match je.delete_local_ref(src) {
        Ok(_) => units_to_chars(&units),
        Err(e) => Err(e),
    }
}

/// Stages one native argument for a call: scalars are boxed in place;
/// strings and arrays are copied into fresh runtime objects whose one
/// local reference the returned temporary owns; an object handle is passed
/// through borrowed.  The void value cannot be an argument.
pub fn into_temporary(je: &mut JvmSim, v: &NativeValue) -> (res: Result<Temporary, JniError>)
    requires
        old(je).wf(),
    ensures
        final(je).wf(),
        res matches Ok(t) ==> {
            &&& temp_corresponds(*final(je), t, *v)
            &&& final(je).live_refs() == old(je).live_refs() + temp_owned(t)
            &&& t matches Temporary::Local(r) ==> r >= old(je).refs@.len() && final(je).ref_is_obj(
                r,
            ) && final(je).ref_obj(r) >= old(je).objects@.len()
        },
        res is Err <==> v is Unit,
        res is Err ==> res == Err::<Temporary, JniError>(JniError::UnsupportedType) && old(
            je,
        ).unchanged(*final(je)),
        forall|rr: int| 0 <= rr < old(je).refs@.len() ==> final(je).refs@[rr] == old(je).refs@[rr],
        final(je).refs@.len() >= old(je).refs@.len(),
        forall|i: int| 0 <= i < old(je).objects@.len() ==> final(je).objects@[i] == old(je).objects@[i],
        final(je).objects@.len() >= old(je).objects@.len(),
        final(je).classes@ == old(je).classes@,
        final(je).pending == old(je).pending,
{
    match v {
        NativeValue::Unit => Err(JniError::UnsupportedType),
        NativeValue::Bool(_) | NativeValue::I8(_) | NativeValue::U8(_) | NativeValue::I16(_)
            | NativeValue::I32(_) | NativeValue::I64(_) | NativeValue::Ch(_) => Ok(
            Temporary::Scalar(scalar_jvalue(v)),
        ),
        NativeValue::Str(s) => {
            let r = je.new_string(s.as_str());
            Ok(Temporary::Local(r))
        },
        NativeValue::BoolArray(x) => {
            let r = copy_bool_array_to_jbooleanarray(je, x);
            Ok(Temporary::Local(r))
        },
        NativeValue::I8Array(x) => {
            let r = je.new_array("[B", ArrData::Bytes(crate::runtime::copy_vec(x)));
            Ok(Temporary::Local(r))
        },
        NativeValue::U8Array(x) => {
            let tmp = crate::runtime::copy_vec(x);
            let r = je.new_array("[B", ArrData::Bytes(crate::values::vec_u8_into_i8(tmp)));
            proof {
                assert(je.objects@.last().payload matches Payload::Arr(ArrData::Bytes(b)) && b@
                    =~= bytes_of_u8s(x@));
            }
            Ok(Temporary::Local(r))
        },
        NativeValue::I16Array(x) => {
            let r = je.new_array("[S", ArrData::Shorts(crate::runtime::copy_vec(x)));
            Ok(Temporary::Local(r))
        },
        NativeValue::I32Array(x) => {
            let r = je.new_array("[I", ArrData::Ints(crate::runtime::copy_vec(x)));
            Ok(Temporary::Local(r))
        },
        NativeValue::I64Array(x) => {
            let r = je.new_array("[J", ArrData::Longs(crate::runtime::copy_vec(x)));
            Ok(Temporary::Local(r))
        },
        NativeValue::CharArray(x) => {
            let r = copy_char_array_to_jchararray(je, x);
            Ok(Temporary::Local(r))
        },
        NativeValue::StrArray(x) => {
            let r = je.new_string_array("[Ljava/lang/String;", x);
            Ok(Temporary::Local(r))
        },
        NativeValue::Obj(h) => Ok(Temporary::Borrowed(h.target)),
    }
}

/// The boxed call-argument representation of a temporary, without
/// transferring ownership: the temporary still owns its reference and is
/// released after the call.
pub fn temporary_into_jvalue(tmp: &Temporary) -> (r: JvmValue)
    ensures
        r == temp_jvalue(*tmp),
{
    match tmp {
        Temporary::Scalar(jv) => *jv,
        Temporary::Local(r) => JvmValue::Object(Some(*r)),
        Temporary::Borrowed(o) => JvmValue::Object(*o),
    }
}

/// Releases the reference a temporary owns; scalars and borrowed
/// references are left alone.
pub fn release_temporary(je: &mut JvmSim, t: Temporary)
    requires
        old(je).wf(),
        t matches Temporary::Local(r) ==> old(je).ref_live(r),
    ensures
        final(je).wf(),
        final(je).objects@ == old(je).objects@,
        final(je).classes@ == old(je).classes@,
        final(je).pending == old(je).pending,
        final(je).live_refs() + temp_owned(t) == old(je).live_refs(),
        final(je).refs@.len() == old(je).refs@.len(),
        forall|rr: int|
            0 <= rr < old(je).refs@.len() && !(t matches Temporary::Local(r) && rr == r as int)
                ==> final(je).refs@[rr] == old(je).refs@[rr],
        t matches Temporary::Local(r) ==> !final(je).refs@[r as int].live,
{
    match t {
        Temporary::Local(r) => {
            let _ = je.delete_local_ref(r);
        },
        _ => {},
    }
}


/// Every element of the object array is a non-null reference to a string
/// object.
pub open spec fn str_items_ok(s: JvmSim, items: Seq<Option<usize>>) -> bool {
    forall|i: int|
        0 <= i < items.len() ==> {
            &&& (#[trigger] items[i]) matches Some(oid)
            &&& oid < s.objects@.len()
            &&& s.objects@[oid as int].payload is Str
        }
}

/// The extracted strings are exactly the contents of the string objects
/// the array's elements point at, in order.
pub open spec fn str_items_match(s: JvmSim, items: Seq<Option<usize>>, x: Seq<String>) -> bool {
    &&& x.len() == items.len()
    &&& forall|i: int|
        0 <= i < items.len() ==> {
            &&& (#[trigger] items[i]) matches Some(oid)
            &&& oid < s.objects@.len()
            &&& s.objects@[oid as int].payload matches Payload::Str(c)
            &&& x[i]@ == c@
        }
}

/// Copies a vector of strings element by element.
fn clone_strings(v: &Vec<String>) -> (r: Vec<String>)
    ensures
        r@ == v@,
{
    let mut r: Vec<String> = Vec::new();
    let mut i: usize = 0;
    while i < v.len()
        invariant
            i <= v@.len(),
            r@ == v@.take(i as int),
        decreases v@.len() - i,
    {
        r.push(v[i].clone());
        proof {
            assert(v@.take(i + 1) =~= v@.take(i as int).push(v@[i as int]));
        }
        i = i + 1;
    }
    proof {
        assert(v@.take(v@.len() as int) =~= v@);
    }
    r
}

/// Reads out a copy of the primitive array behind a reference and releases
/// the reference; the reference is released on the mismatch path too.
pub(crate) fn take_array(je: &mut JvmSim, r: usize) -> (res: Result<ArrData, JniError>)
    requires
        old(je).wf(),
    ensures
        final(je).wf(),
        final(je).objects@ == old(je).objects@,
        final(je).classes@ == old(je).classes@,
        final(je).pending == old(je).pending,
        !old(je).ref_is_obj(r) ==> res == Err::<ArrData, JniError>(JniError::InvalidReference)
            && old(je).unchanged(*final(je)),
        old(je).ref_is_obj(r) ==> {
            &&& final(je).refs@ == old(je).refs@.update(
                r as int,
                crate::runtime::RefEntry {
                    target: old(je).refs@[r as int].target,
                    live: false,
                },
            )
            &&& final(je).live_refs() + 1 == old(je).live_refs()
            &&& match old(je).objects@[old(je).ref_obj(r) as int].payload {
                Payload::Arr(a) => res matches Ok(b) && arr_eq(b, a),
                _ => res == Err::<ArrData, JniError>(JniError::TypeMismatch),
            }
        },
{
    let out: Result<ArrData, JniError>;
    match je.get_array(r) {
        Ok(a) => {
            out = Ok(crate::runtime::copy_arr(a));
        },
        Err(e) => match e {
            JniError::InvalidReference => {
                return Err(JniError::InvalidReference);
            },
            _ => {
                out = Err(JniError::TypeMismatch);
            },
        },
    }
    match je.delete_local_ref(r) {
        Ok(_) => out,
        Err(e) => Err(e),
    }
}

/// Drains an object array of strings element by index: each element is
/// taken as a fresh reference, its content extracted, and the element
/// reference released.  The array's own reference is not released here.
pub fn convert_jarray_to_rust(je: &mut JvmSim, array: usize) -> (res: Result<Vec<String>, JniError>)
    requires
        old(je).wf(),
    ensures
        final(je).wf(),
        final(je).objects@ == old(je).objects@,
        final(je).classes@ == old(je).classes@,
        final(je).pending == old(je).pending,
        forall|rr: int| 0 <= rr < old(je).refs@.len() ==> final(je).refs@[rr] == old(je).refs@[rr],
        final(je).refs@.len() >= old(je).refs@.len(),
        final(je).live_refs() == old(je).live_refs(),
        !old(je).ref_is_obj(array) ==> res == Err::<Vec<String>, JniError>(
            JniError::InvalidReference,
        ),
        old(je).ref_is_obj(array) ==> match old(je).objects@[old(je).ref_obj(
            array,
        ) as int].payload {
            Payload::ObjArr(items) => {
                &&& str_items_ok(*old(je), items@) ==> (res matches Ok(x) && str_items_match(
                    *old(je),
                    items@,
                    x@,
                ))
                &&& !str_items_ok(*old(je), items@) ==> res == Err::<Vec<String>, JniError>(
                    JniError::TypeMismatch,
                )
            },
            _ => res == Err::<Vec<String>, JniError>(JniError::TypeMismatch),
        },
{
    match je.get_array(array) {
        Ok(_) => {
            return Err(JniError::TypeMismatch);
        },
        Err(e) => match e {
            JniError::InvalidReference => {
                return Err(JniError::InvalidReference);
            },
            _ => {},
        },
    }
    let n: usize;
    match je.get_array_length(array) {
        Ok(k) => {
            n = k;
        },
        Err(e) => {
            return Err(e);
        },
    }
    let ghost items = old(je).objects@[old(je).ref_obj(array) as int].payload->ObjArr_0@;
    let mut out: Vec<String> = Vec::new();
    let mut i: usize = 0;
    while i < n
        invariant
            je.wf(),
            je.objects@ == old(je).objects@,
            je.classes@ == old(je).classes@,
            je.pending == old(je).pending,
            forall|rr: int| 0 <= rr < old(je).refs@.len() ==> je.refs@[rr] == old(je).refs@[rr],
            je.refs@.len() >= old(je).refs@.len(),
            je.live_refs() == old(je).live_refs(),
            old(je).ref_is_obj(array),
            je.ref_is_obj(array),
            je.ref_obj(array) == old(je).ref_obj(array),
            old(je).objects@[old(je).ref_obj(array) as int].payload matches Payload::ObjArr(its)
                && its@ == items,
            n <= usize::MAX,
            n == items.len(),
            i <= n,
            out@.len() == i,
            forall|j: int|
                0 <= j < i ==> {
                    &&& (#[trigger] items[j]) matches Some(oid)
                    &&& oid < je.objects@.len()
                    &&& je.objects@[oid as int].payload matches Payload::Str(c)
                    &&& out@[j]@ == c@
                },
        decreases n - i,
    {
        let ev: JvmValue;
        match je.get_object_array_element(array, i) {
            Ok(x) => {
                ev = x;
            },
            Err(e) => {
                return Err(e);
            },
        }
        match ev {
            JvmValue::Object(Some(er)) => {
                match je.get_string(er) {
                    Ok(s) => {
                        match je.delete_local_ref(er) {
                            Ok(_) => {},
                            Err(e) => {
                                return Err(e);
                            },
                        }
                        out.push(s);
                    },
                    Err(_) => {
                        match je.delete_local_ref(er) {
                            Ok(_) => {},
                            Err(e) => {
                                return Err(e);
                            },
                        }
                        return Err(JniError::TypeMismatch);
                    },
                }
            },
            _ => {
                return Err(JniError::TypeMismatch);
            },
        }
        i = i + 1;
    }
    proof {
        assert(str_items_ok(*old(je), items));
        assert(str_items_match(*old(je), items, out@));
    }
    Ok(out)
}


/// Drains an iterable through the iterator protocol: obtain the iterator,
/// then take elements while it has a next one, extracting each string and
/// releasing each element reference; the iterator's reference is released
/// at the end.  The iterable's own reference is not released here.
pub fn convert_iterable_to_rust_vec(je: &mut JvmSim, iterable: usize) -> (res: Result<
    Vec<String>,
    JniError,
>)
    requires
        old(je).wf(),
    ensures
        final(je).wf(),
        forall|i: int| 0 <= i < old(je).objects@.len() ==> final(je).objects@[i] == old(je).objects@[i],
        final(je).objects@.len() >= old(je).objects@.len(),
        final(je).classes@ == old(je).classes@,
        final(je).pending == old(je).pending,
        forall|rr: int| 0 <= rr < old(je).refs@.len() ==> final(je).refs@[rr] == old(je).refs@[rr],
        final(je).refs@.len() >= old(je).refs@.len(),
        final(je).live_refs() == old(je).live_refs(),
        !old(je).ref_is_obj(iterable) ==> res == Err::<Vec<String>, JniError>(
            JniError::InvalidReference,
        ),
        old(je).ref_is_obj(iterable) ==> match old(je).objects@[old(je).ref_obj(
            iterable,
        ) as int].payload {
            Payload::List(items) => {
                &&& str_items_ok(*old(je), items@) ==> (res matches Ok(x) && str_items_match(
                    *old(je),
                    items@,
                    x@,
                ))
                &&& !str_items_ok(*old(je), items@) ==> res == Err::<Vec<String>, JniError>(
                    JniError::TypeMismatch,
                )
            },
            _ => res == Err::<Vec<String>, JniError>(JniError::TypeMismatch),
        },
{
    let it: usize;
    match je.get_iterator(iterable) {
        Ok(r) => {
            it = r;
        },
        Err(e) => {
            return Err(e);
        },
    }
    let ghost items = old(je).objects@[old(je).ref_obj(iterable) as int].payload->List_0@;
    let ghost n = items.len();
    let mut out: Vec<String> = Vec::new();
    let mut i: usize = 0;
    let mut going: bool;
    match je.iter_has_next(it) {
        Ok(b) => {
            going = b;
        },
        Err(e) => {
            return Err(e);
        },
    }
    while going
        invariant
            old(je).wf(),
            je.wf(),
            old(je).ref_is_obj(iterable),
            old(je).objects@[old(je).ref_obj(iterable) as int].payload matches Payload::List(lst)
                && lst@ == items,
            n == items.len(),
            forall|j: int| 0 <= j < old(je).objects@.len() ==> je.objects@[j] == old(je).objects@[j],
            je.objects@.len() == old(je).objects@.len() + 1,
            je.classes@ == old(je).classes@,
            je.pending == old(je).pending,
            forall|rr: int| 0 <= rr < old(je).refs@.len() ==> je.refs@[rr] == old(je).refs@[rr],
            je.refs@.len() >= old(je).refs@.len(),
            je.live_refs() == old(je).live_refs() + 1,
            je.ref_is_obj(it),
            je.ref_obj(it) == old(je).objects@.len(),
            it >= old(je).refs@.len(),
            je.objects@[je.ref_obj(it) as int].payload matches Payload::Iter {
                items: its,
                pos,
            } && its@ == items && pos == i,
            i <= n,
            going == (i < n),
            out@.len() == i,
            forall|j: int|
                0 <= j < i ==> {
                    &&& (#[trigger] items[j]) matches Some(oid)
                    &&& oid < old(je).objects@.len()
                    &&& je.objects@[oid as int].payload matches Payload::Str(c)
                    &&& out@[j]@ == c@
                },
        decreases n - i,
    {
        let ev: JvmValue;
        match je.iter_next(it) {
            Ok(x) => {
                ev = x;
            },
            Err(e) => {
                let _ = je.delete_local_ref(it);
                return Err(e);
            },
        }
        match ev {
            JvmValue::Object(Some(er)) => {
                proof {
                    assert(je.objects@[je.ref_obj(er) as int] == old(je).objects@[je.ref_obj(
                        er,
                    ) as int]);
                }
                match je.get_string(er) {
                    Ok(s) => {
                        match je.delete_local_ref(er) {
                            Ok(_) => {},
                            Err(e) => {
                                let _ = je.delete_local_ref(it);
                                return Err(e);
                            },
                        }
                        out.push(s);
                    },
                    Err(_) => {
                        match je.delete_local_ref(er) {
                            Ok(_) => {},
                            Err(e) => {
                                let _ = je.delete_local_ref(it);
                                return Err(e);
                            },
                        }
                        match je.delete_local_ref(it) {
                            Ok(_) => {},
                            Err(e) => {
                                return Err(e);
                            },
                        }
                        proof {
                            assert(!str_items_ok(*old(je), items));
                        }
                        return Err(JniError::TypeMismatch);
                    },
                }
            },
            JvmValue::Object(None) => {
                match je.delete_local_ref(it) {
                    Ok(_) => {},
                    Err(e) => {
                        return Err(e);
                    },
                }
                proof {
                    assert(!str_items_ok(*old(je), items));
                }
                return Err(JniError::TypeMismatch);
            },
            _ => {
                let _ = je.delete_local_ref(it);
                return Err(JniError::TypeMismatch);
            },
        }
        proof {
            assert(je.objects@[je.ref_obj(it) as int].payload matches Payload::Iter {
                items: its2,
                pos: p2,
            } && p2 == i + 1);
        }
        i = i + 1;
        match je.iter_has_next(it) {
            Ok(b) => {
                going = b;
            },
            Err(e) => {
                let _ = je.delete_local_ref(it);
                return Err(e);
            },
        }
    }
    match je.delete_local_ref(it) {
        Ok(_) => {},
        Err(e) => {
            return Err(e);
        },
    }
    proof {
        assert(str_items_ok(*old(je), items));
        assert(str_items_match(*old(je), items, out@));
    }
    Ok(out)
}

/// Converts a call result that is either an array of strings or an
/// iterable of strings, telling the two apart by the runtime `isArray`
/// check on the object's class.  The object's own reference is not
/// released here.
pub fn convert_jvalue_list_or_array_to_rust(je: &mut JvmSim, src: usize) -> (res: Result<
    Vec<String>,
    JniError,
>)
    requires
        old(je).wf(),
    ensures
        final(je).wf(),
        forall|i: int| 0 <= i < old(je).objects@.len() ==> final(je).objects@[i] == old(je).objects@[i],
        final(je).objects@.len() >= old(je).objects@.len(),
        final(je).classes@ == old(je).classes@,
        final(je).pending == old(je).pending,
        forall|rr: int| 0 <= rr < old(je).refs@.len() ==> final(je).refs@[rr] == old(je).refs@[rr],
        final(je).refs@.len() >= old(je).refs@.len(),
        final(je).live_refs() == old(je).live_refs(),
        !old(je).ref_is_obj(src) ==> res == Err::<Vec<String>, JniError>(
            JniError::InvalidReference,
        ),
        old(je).ref_is_obj(src) ==> match old(je).objects@[old(je).ref_obj(src) as int].payload {
            Payload::ObjArr(items) => {
                &&& str_items_ok(*old(je), items@) ==> (res matches Ok(x) && str_items_match(
                    *old(je),
                    items@,
                    x@,
                ))
                &&& !str_items_ok(*old(je), items@) ==> res == Err::<Vec<String>, JniError>(
                    JniError::TypeMismatch,
                )
            },
            Payload::List(items) => {
                &&& str_items_ok(*old(je), items@) ==> (res matches Ok(x) && str_items_match(
                    *old(je),
                    items@,
                    x@,
                ))
                &&& !str_items_ok(*old(je), items@) ==> res == Err::<Vec<String>, JniError>(
                    JniError::TypeMismatch,
                )
            },
            _ => res == Err::<Vec<String>, JniError>(JniError::TypeMismatch),
        },
{
    let cls: usize;
    match je.get_object_class(src) {
        Ok(r) => {
            cls = r;
        },
        Err(e) => {
            return Err(e);
        },
    }
    let is_arr: bool;
    match crate::runtime::class_is_array(je, cls) {
        Ok(b) => {
            is_arr = b;
        },
        Err(e) => {
            return Err(e);
        },
    }
    match je.delete_local_ref(cls) {
        Ok(_) => {},
        Err(e) => {
            return Err(e);
        },
    }
    let ghost mid = *je;
    let out = if is_arr {
        convert_jarray_to_rust(je, src)
    } else {
        convert_iterable_to_rust_vec(je, src)
    };
    proof {
        let oid = old(je).ref_obj(src) as int;
        match old(je).objects@[oid].payload {
            Payload::ObjArr(items) => {
                assert forall|i: int| 0 <= i < items@.len() implies (#[trigger] items@[i]) matches
                    Some(t) ==> t < old(je).objects@.len() by {
                    assert(payload_wf(old(je).objects@[oid].payload, old(je).objects@.len()));
                }
                assert(str_items_ok(*old(je), items@) <==> str_items_ok(mid, items@));
                assert forall|xs: Seq<String>|
                    str_items_match(mid, items@, xs) implies str_items_match(
                    *old(je),
                    items@,
                    xs,
                ) by {}
            },
            Payload::List(items) => {
                assert forall|i: int| 0 <= i < items@.len() implies (#[trigger] items@[i]) matches
                    Some(t) ==> t < old(je).objects@.len() by {
                    assert(payload_wf(old(je).objects@[oid].payload, old(je).objects@.len()));
                }
                assert(str_items_ok(*old(je), items@) <==> str_items_ok(mid, items@));
                assert forall|xs: Seq<String>|
                    str_items_match(mid, items@, xs) implies str_items_match(
                    *old(je),
                    items@,
                    xs,
                ) by {}
            },
            _ => {},
        }
    }
    out
}

/// How many local references a converted result owns: one for an object
/// wrapper around a non-null reference, none otherwise.
pub open spec fn owned_by_result(res: Result<NativeValue, JniError>) -> nat {
    match res {
        Ok(NativeValue::Obj(h)) => if h.target is Some {
            1nat
        } else {
            0nat
        },
        _ => 0,
    }
}

/// How many live references the boxed value carries into the conversion.
pub open spec fn jv_consumes(s: JvmSim, jv: JvmValue) -> nat {
    match jv {
        JvmValue::Object(Some(r)) => if s.ref_is_obj(r) {
            1nat
        } else {
            0nat
        },
        _ => 0,
    }
}

/// What converting the array object at `oid` to a native array of the
/// given element type yields.
pub open spec fn converts_array(
    pre: JvmSim,
    oid: usize,
    el: NativeType,
    res: Result<NativeValue, JniError>,
) -> bool {
    match el {
        NativeType::Bool => match pre.objects@[oid as int].payload {
            Payload::Arr(ArrData::Bools(b)) => res matches Ok(v) && v matches
                NativeValue::BoolArray(x) && x@ == b@,
            _ => res == Err::<NativeValue, JniError>(JniError::TypeMismatch),
        },
        NativeType::I8 => match pre.objects@[oid as int].payload {
            Payload::Arr(ArrData::Bytes(b)) => res matches Ok(v) && v matches
                NativeValue::I8Array(x) && x@ == b@,
            _ => res == Err::<NativeValue, JniError>(JniError::TypeMismatch),
        },
        NativeType::U8 => match pre.objects@[oid as int].payload {
            Payload::Arr(ArrData::Bytes(b)) => res matches Ok(v) && v matches
                NativeValue::U8Array(x) && x@ == u8s_of_bytes(b@),
            _ => res == Err::<NativeValue, JniError>(JniError::TypeMismatch),
        },
        NativeType::I16 => match pre.objects@[oid as int].payload {
            Payload::Arr(ArrData::Shorts(b)) => res matches Ok(v) && v matches
                NativeValue::I16Array(x) && x@ == b@,
            _ => res == Err::<NativeValue, JniError>(JniError::TypeMismatch),
        },
        NativeType::I32 => match pre.objects@[oid as int].payload {
            Payload::Arr(ArrData::Ints(b)) => res matches Ok(v) && v matches
                NativeValue::I32Array(x) && x@ == b@,
            _ => res == Err::<NativeValue, JniError>(JniError::TypeMismatch),
        },
        NativeType::I64 => match pre.objects@[oid as int].payload {
            Payload::Arr(ArrData::Longs(b)) => res matches Ok(v) && v matches
                NativeValue::I64Array(x) && x@ == b@,
            _ => res == Err::<NativeValue, JniError>(JniError::TypeMismatch),
        },
        NativeType::Ch => match pre.objects@[oid as int].payload {
            Payload::Arr(ArrData::Chars(u)) => if all_units_scalar(u@) {
                res matches Ok(v) && v matches NativeValue::CharArray(x) && x@ == chars_of_units(
                    u@,
                )
            } else {
                res == Err::<NativeValue, JniError>(JniError::InvalidCodePoint)
            },
            _ => res == Err::<NativeValue, JniError>(JniError::TypeMismatch),
        },
        NativeType::Str => match pre.objects@[oid as int].payload {
            Payload::ObjArr(items) => if str_items_ok(pre, items@) {
                res matches Ok(v) && v matches NativeValue::StrArray(x) && str_items_match(
                    pre,
                    items@,
                    x@,
                )
            } else {
                res == Err::<NativeValue, JniError>(JniError::TypeMismatch)
            },
            Payload::List(items) => if str_items_ok(pre, items@) {
                res matches Ok(v) && v matches NativeValue::StrArray(x) && str_items_match(
                    pre,
                    items@,
                    x@,
                )
            } else {
                res == Err::<NativeValue, JniError>(JniError::TypeMismatch)
            },
            _ => res == Err::<NativeValue, JniError>(JniError::TypeMismatch),
        },
        _ => res == Err::<NativeValue, JniError>(JniError::UnsupportedType),
    }
}

/// What converting a boxed call result to the wanted native type yields:
/// a direct reinterpretation for scalars; content extraction for strings
/// and arrays; wrapping for object types.  Conversions of floating-point
/// results are outside this library.
pub open spec fn converts_to(
    pre: JvmSim,
    jv: JvmValue,
    want: NativeType,
    res: Result<NativeValue, JniError>,
) -> bool {
    match want {
        NativeType::Float => res == Err::<NativeValue, JniError>(JniError::UnsupportedType),
        NativeType::Double => res == Err::<NativeValue, JniError>(JniError::UnsupportedType),
        NativeType::Str => match jv {
            JvmValue::Object(Some(r)) => if pre.ref_is_obj(r) {
                match pre.objects@[pre.ref_obj(r) as int].payload {
                    Payload::Str(c) => res matches Ok(v) && v matches NativeValue::Str(x) && x@
                        == c@,
                    _ => res == Err::<NativeValue, JniError>(JniError::TypeMismatch),
                }
            } else {
                res == Err::<NativeValue, JniError>(JniError::InvalidReference)
            },
            _ => res == Err::<NativeValue, JniError>(JniError::TypeMismatch),
        },
        NativeType::Object(cls) => match jv {
            JvmValue::Object(Some(r)) => if pre.ref_is_obj(r) {
                res matches Ok(v) && v matches NativeValue::Obj(h) && h.class@ == cls@ && h.target
                    == Some(r)
            } else {
                res == Err::<NativeValue, JniError>(JniError::InvalidReference)
            },
            JvmValue::Object(None) => res matches Ok(v) && v matches NativeValue::Obj(h)
                && h.class@ == cls@ && h.target is None,
            _ => res == Err::<NativeValue, JniError>(JniError::TypeMismatch),
        },
        NativeType::Array(el) => match jv {
            JvmValue::Object(Some(r)) => if pre.ref_is_obj(r) {
                converts_array(pre, pre.ref_obj(r), *el, res)
            } else {
                res == Err::<NativeValue, JniError>(JniError::InvalidReference)
            },
            _ => res == Err::<NativeValue, JniError>(JniError::TypeMismatch),
        },
        _ => match jv {
            JvmValue::Object(Some(r)) => if pre.ref_is_obj(r) {
                res == Err::<NativeValue, JniError>(JniError::TypeMismatch)
            } else {
                res == Err::<NativeValue, JniError>(JniError::InvalidReference)
            },
            _ => res == crate::values::jvalue_to_scalar(jv, want),
        },
    }
}

/// What converting a fresh reference to the object at `oid` to the wanted
/// native type yields, stated over the object store directly: content
/// extraction for strings and arrays, wrapping for object types, a type
/// mismatch for scalar targets, and no conversion for floating point.
pub open spec fn object_converts(
    pre: JvmSim,
    oid: usize,
    want: NativeType,
    res: Result<NativeValue, JniError>,
) -> bool {
    match want {
        NativeType::Float => res == Err::<NativeValue, JniError>(JniError::UnsupportedType),
        NativeType::Double => res == Err::<NativeValue, JniError>(JniError::UnsupportedType),
        NativeType::Str => match pre.objects@[oid as int].payload {
            Payload::Str(c) => res matches Ok(v) && v matches NativeValue::Str(x) && x@ == c@,
            _ => res == Err::<NativeValue, JniError>(JniError::TypeMismatch),
        },
        NativeType::Object(cls) => res matches Ok(v) && v matches NativeValue::Obj(h) && h.class@
            == cls@ && h.target is Some,
        NativeType::Array(el) => converts_array(pre, oid, *el, res),
        _ => res == Err::<NativeValue, JniError>(JniError::TypeMismatch),
    }
}

/// Converting an object that both states hold identically yields the same
/// outcome; array-of-string extraction only reads objects the store
/// already bounded.
pub proof fn lemma_converts_array_transfer(
    pre: JvmSim,
    post: JvmSim,
    oid: usize,
    el: NativeType,
    res: Result<NativeValue, JniError>,
)
    requires
        pre.wf(),
        oid < pre.objects@.len(),
        post.objects@.len() >= pre.objects@.len(),
        forall|i: int| 0 <= i < pre.objects@.len() ==> post.objects@[i] == pre.objects@[i],
        converts_array(post, oid, el, res),
    ensures
        converts_array(pre, oid, el, res),
{
    assert(crate::runtime::payload_wf(pre.objects@[oid as int].payload, pre.objects@.len()));
    match pre.objects@[oid as int].payload {
        Payload::ObjArr(items) => {
            assert forall|i: int| 0 <= i < items@.len() implies ((#[trigger] items@[i]) matches
                Some(t) ==> t < pre.objects@.len()) by {}
            assert(str_items_ok(pre, items@) <==> str_items_ok(post, items@));
            assert forall|xs: Seq<String>|
                str_items_match(post, items@, xs) implies str_items_match(pre, items@, xs) by {}
        },
        Payload::List(items) => {
            assert forall|i: int| 0 <= i < items@.len() implies ((#[trigger] items@[i]) matches
                Some(t) ==> t < pre.objects@.len()) by {}
            assert(str_items_ok(pre, items@) <==> str_items_ok(post, items@));
            assert forall|xs: Seq<String>|
                str_items_match(post, items@, xs) implies str_items_match(pre, items@, xs) by {}
        },
        _ => {},
    }
}

/// The transfer for the whole object conversion relation.
pub proof fn lemma_object_converts_transfer(
    pre: JvmSim,
    post: JvmSim,
    oid: usize,
    want: NativeType,
    res: Result<NativeValue, JniError>,
)
    requires
        pre.wf(),
        oid < pre.objects@.len(),
        post.objects@.len() >= pre.objects@.len(),
        forall|i: int| 0 <= i < pre.objects@.len() ==> post.objects@[i] == pre.objects@[i],
        object_converts(post, oid, want, res),
    ensures
        object_converts(pre, oid, want, res),
{
    match want {
        NativeType::Array(el) => {
            lemma_converts_array_transfer(pre, post, oid, *el, res);
        },
        _ => {},
    }
}

/// The executable mirror of the scalar conversion.
fn scalar_from_jvalue(jv: JvmValue, want: &NativeType) -> (res: Result<NativeValue, JniError>)
    requires
        !(jv matches JvmValue::Object(Some(_))),
        match *want {
            NativeType::Unit => true,
            NativeType::Bool => true,
            NativeType::I8 => true,
            NativeType::U8 => true,
            NativeType::I16 => true,
            NativeType::I32 => true,
            NativeType::I64 => true,
            NativeType::Ch => true,
            _ => false,
        },
    ensures
        res == crate::values::jvalue_to_scalar(jv, *want),
{
    match (want, jv) {
        (NativeType::Unit, JvmValue::Void) => Ok(NativeValue::Unit),
        (NativeType::Bool, JvmValue::Bool(b)) => Ok(NativeValue::Bool(b)),
        (NativeType::I8, JvmValue::Byte(x)) => Ok(NativeValue::I8(x)),
        (NativeType::U8, JvmValue::Byte(x)) => Ok(NativeValue::U8(x as u8)),
        (NativeType::I16, JvmValue::Short(x)) => Ok(NativeValue::I16(x)),
        (NativeType::I32, JvmValue::Int(x)) => Ok(NativeValue::I32(x)),
        (NativeType::I64, JvmValue::Long(x)) => Ok(NativeValue::I64(x)),
        (NativeType::Ch, JvmValue::Char(u)) => match crate::values::u32_to_char(u as u32) {
            Ok(c) => Ok(NativeValue::Ch(c)),
            Err(e) => Err(e),
        },
        _ => Err(JniError::TypeMismatch),
    }
}


/// Converts the primitive array behind a reference to a native array of
/// the given scalar element type, consuming the reference.
#[verifier::rlimit(50)]
fn prim_array_to_rust(je: &mut JvmSim, r: usize, el: &NativeType) -> (res: Result<
    NativeValue,
    JniError,
>)
    requires
        old(je).wf(),
        match *el {
            NativeType::Bool => true,
            NativeType::I8 => true,
            NativeType::U8 => true,
            NativeType::I16 => true,
            NativeType::I32 => true,
            NativeType::I64 => true,
            NativeType::Ch => true,
            _ => false,
        },
    ensures
        final(je).wf(),
        final(je).objects@ == old(je).objects@,
        final(je).classes@ == old(je).classes@,
        final(je).pending == old(je).pending,
        !old(je).ref_is_obj(r) ==> res == Err::<NativeValue, JniError>(JniError::InvalidReference)
            && old(je).unchanged(*final(je)),
        old(je).ref_is_obj(r) ==> {
            &&& converts_array(*old(je), old(je).ref_obj(r), *el, res)
            &&& final(je).refs@ == old(je).refs@.update(
                r as int,
                crate::runtime::RefEntry {
                    target: old(je).refs@[r as int].target,
                    live: false,
                },
            )
            &&& final(je).live_refs() + 1 == old(je).live_refs()
        },
        !(res matches Ok(v) && v is Obj),
{
    match take_array(je, r) {
        Ok(a) => match (el, a) {
            (NativeType::Bool, ArrData::Bools(b)) => Ok(NativeValue::BoolArray(b)),
            (NativeType::I8, ArrData::Bytes(b)) => Ok(NativeValue::I8Array(b)),
            (NativeType::U8, ArrData::Bytes(b)) => {
                let ghost bsnap = b@;
                let x = crate::values::vec_i8_into_u8(b);
                proof {
                    assert(x@ =~= u8s_of_bytes(bsnap));
                }
                Ok(NativeValue::U8Array(x))
            },
            (NativeType::I16, ArrData::Shorts(b)) => Ok(NativeValue::I16Array(b)),
            (NativeType::I32, ArrData::Ints(b)) => Ok(NativeValue::I32Array(b)),
            (NativeType::I64, ArrData::Longs(b)) => Ok(NativeValue::I64Array(b)),
            (NativeType::Ch, ArrData::Chars(u)) => match units_to_chars(&u) {
                Ok(x) => Ok(NativeValue::CharArray(x)),
                Err(e) => Err(e),
            },
            _ => Err(JniError::TypeMismatch),
        },
        Err(e) => Err(e),
    }
}

/// Converts the string array or iterable behind a reference to a native
/// string sequence, consuming the reference.
#[verifier::rlimit(100)]
fn obj_array_to_rust(je: &mut JvmSim, r: usize) -> (res: Result<NativeValue, JniError>)
    requires
        old(je).wf(),
    ensures
        final(je).wf(),
        forall|i: int| 0 <= i < old(je).objects@.len() ==> final(je).objects@[i] == old(je).objects@[i],
        final(je).objects@.len() >= old(je).objects@.len(),
        final(je).classes@ == old(je).classes@,
        final(je).pending == old(je).pending,
        !old(je).ref_is_obj(r) ==> res == Err::<NativeValue, JniError>(JniError::InvalidReference)
            && old(je).unchanged(*final(je)),
        old(je).ref_is_obj(r) ==> {
            &&& converts_array(*old(je), old(je).ref_obj(r), NativeType::Str, res)
            &&& forall|rr: int|
                0 <= rr < old(je).refs@.len() && rr != r as int ==> final(je).refs@[rr] == old(
                    je,
                ).refs@[rr]
            &&& !final(je).refs@[r as int].live
            &&& final(je).live_refs() + 1 == old(je).live_refs()
        },
        final(je).refs@.len() >= old(je).refs@.len(),
        !(res matches Ok(v) && v is Obj),
{
    if !je.valid_obj_ref(r) {
        return Err(JniError::InvalidReference);
    }
    let conv = convert_jvalue_list_or_array_to_rust(je, r);
    let resx: Result<NativeValue, JniError> = match &conv {
        Ok(x) => match je.delete_local_ref(r) {
            Ok(_) => Ok(NativeValue::StrArray(clone_strings(x))),
            Err(e) => Err(e),
        },
        Err(e) => match je.delete_local_ref(r) {
            Ok(_) => Err(*e),
            Err(e2) => Err(e2),
        },
    };
    resx
}

/// Converts a boxed call result back to a native value of the wanted
/// type.  The conversion consumes the reference the result carries: it is
/// released on every path, except that an object-wrapper result keeps it
/// and owns it from then on.
#[verifier::rlimit(100)]
pub fn to_rust(je: &mut JvmSim, val: JvmValue, want: &NativeType) -> (res: Result<
    NativeValue,
    JniError,
>)
    requires
        old(je).wf(),
    ensures
        final(je).wf(),
        converts_to(*old(je), val, *want, res),
        final(je).live_refs() + jv_consumes(*old(je), val) == old(je).live_refs() + owned_by_result(
            res,
        ),
        forall|i: int| 0 <= i < old(je).objects@.len() ==> final(je).objects@[i] == old(je).objects@[i],
        final(je).objects@.len() >= old(je).objects@.len(),
        final(je).classes@ == old(je).classes@,
        final(je).pending == old(je).pending,
        forall|rr: int|
            0 <= rr < old(je).refs@.len() && !(val matches JvmValue::Object(oo) && oo matches Some(
                r,
            ) && rr == r as int) ==> final(je).refs@[rr] == old(je).refs@[rr],
        final(je).refs@.len() >= old(je).refs@.len(),
        res matches Ok(v) ==> (v matches NativeValue::Obj(h) ==> (h.target matches Some(r)
            ==> final(je).ref_is_obj(r) && final(je).refs@[r as int] == old(je).refs@[r as int])),
        !(val matches JvmValue::Object(Some(_))) ==> old(je).unchanged(*final(je)),
    decreases *want,
{
    match want {
        NativeType::Float | NativeType::Double => {
            match val {
                JvmValue::Object(Some(r)) => {
                    if je.valid_obj_ref(r) {
                        let _ = je.delete_local_ref(r);
                    }
                },
                _ => {},
            }
            Err(JniError::UnsupportedType)
        },
        NativeType::Str => match val {
            JvmValue::Object(Some(r)) => match je.get_string(r) {
                Ok(s) => match je.delete_local_ref(r) {
                    Ok(_) => Ok(NativeValue::Str(s)),
                    Err(e) => Err(e),
                },
                Err(e) => match e {
                    JniError::InvalidReference => Err(JniError::InvalidReference),
                    _ => match je.delete_local_ref(r) {
                        Ok(_) => Err(JniError::TypeMismatch),
                        Err(e2) => Err(e2),
                    },
                },
            },
            _ => Err(JniError::TypeMismatch),
        },
        NativeType::Object(cls) => match val {
            JvmValue::Object(Some(r)) => {
                if je.valid_obj_ref(r) {
                    Ok(
                        NativeValue::Obj(
                            crate::values::ObjectHandle { class: cls.clone(), target: Some(r) },
                        ),
                    )
                } else {
                    Err(JniError::InvalidReference)
                }
            },
            JvmValue::Object(None) => Ok(
                NativeValue::Obj(crate::values::ObjectHandle { class: cls.clone(), target: None }),
            ),
            _ => Err(JniError::TypeMismatch),
        },
        NativeType::Array(el) => match val {
            JvmValue::Object(Some(r)) => match &**el {
                NativeType::Str => obj_array_to_rust(je, r),
                NativeType::Bool | NativeType::I8 | NativeType::U8 | NativeType::I16
                    | NativeType::I32 | NativeType::I64 | NativeType::Ch => prim_array_to_rust(
                    je,
                    r,
                    el,
                ),
                _ => {
                    if je.valid_obj_ref(r) {
                        let _ = je.delete_local_ref(r);
                        Err(JniError::UnsupportedType)
                    } else {
                        Err(JniError::InvalidReference)
                    }
                },
            },
            _ => Err(JniError::TypeMismatch),
        },
        _ => match val {
            JvmValue::Object(Some(r)) => {
                if je.valid_obj_ref(r) {
                    let _ = je.delete_local_ref(r);
                    Err(JniError::TypeMismatch)
                } else {
                    Err(JniError::InvalidReference)
                }
            },
            _ => scalar_from_jvalue(val, want),
        },
    }
}


/// The JVM type descriptor of a native value.
pub open spec fn descriptor_of_value(v: NativeValue) -> Seq<char> {
    match v {
        NativeValue::Unit => "V"@,
        NativeValue::Bool(_) => "Z"@,
        NativeValue::I8(_) => "B"@,
        NativeValue::U8(_) => "B"@,
        NativeValue::I16(_) => "S"@,
        NativeValue::I32(_) => "I"@,
        NativeValue::I64(_) => "J"@,
        NativeValue::Ch(_) => "C"@,
        NativeValue::Str(_) => "L"@ + "java/lang/String"@ + ";"@,
        NativeValue::BoolArray(_) => "["@ + "Z"@,
        NativeValue::I8Array(_) => "["@ + "B"@,
        NativeValue::U8Array(_) => "["@ + "B"@,
        NativeValue::I16Array(_) => "["@ + "S"@,
        NativeValue::I32Array(_) => "["@ + "I"@,
        NativeValue::I64Array(_) => "["@ + "J"@,
        NativeValue::CharArray(_) => "["@ + "C"@,
        NativeValue::StrArray(_) => "["@ + "L"@ + "java/lang/String"@ + ";"@,
        NativeValue::Obj(h) => "L"@ + h.class@ + ";"@,
    }
}

/// The descriptors of a sequence of native argument values, concatenated
/// in order.
pub open spec fn descriptors_of_values(vs: Seq<NativeValue>) -> Seq<char>
    decreases vs.len(),
{
    if vs.len() == 0 {
        Seq::<char>::empty()
    } else {
        descriptor_of_value(vs[0]) + descriptors_of_values(vs.drop_first())
    }
}

/// The full method signature for a call with the given argument values
/// and return type.
pub open spec fn value_sig_of(vs: Seq<NativeValue>, ret: NativeType) -> Seq<char> {
    "("@ + descriptors_of_values(vs) + ")"@ + crate::signature::descriptor_of(ret)
}

/// Maps one native argument value to its JVM type descriptor string.
pub fn signature_for_value(v: &NativeValue) -> (r: String)
    ensures
        r@ == descriptor_of_value(*v),
{
    match v {
        NativeValue::Unit => String::from_str("V"),
        NativeValue::Bool(_) => String::from_str("Z"),
        NativeValue::I8(_) => String::from_str("B"),
        NativeValue::U8(_) => String::from_str("B"),
        NativeValue::I16(_) => String::from_str("S"),
        NativeValue::I32(_) => String::from_str("I"),
        NativeValue::I64(_) => String::from_str("J"),
        NativeValue::Ch(_) => String::from_str("C"),
        NativeValue::Str(_) => {
            let mut s = String::from_str("L");
            s.append("java/lang/String");
            s.append(";");
            s
        },
        NativeValue::BoolArray(_) => {
            let mut s = String::from_str("[");
            s.append("Z");
            s
        },
        NativeValue::I8Array(_) => {
            let mut s = String::from_str("[");
            s.append("B");
            s
        },
        NativeValue::U8Array(_) => {
            let mut s = String::from_str("[");
            s.append("B");
            s
        },
        NativeValue::I16Array(_) => {
            let mut s = String::from_str("[");
            s.append("S");
            s
        },
        NativeValue::I32Array(_) => {
            let mut s = String::from_str("[");
            s.append("I");
            s
        },
        NativeValue::I64Array(_) => {
            let mut s = String::from_str("[");
            s.append("J");
            s
        },
        NativeValue::CharArray(_) => {
            let mut s = String::from_str("[");
            s.append("C");
            s
        },
        NativeValue::StrArray(_) => {
            let mut s = String::from_str("[");
            s.append("L");
            s.append("java/lang/String");
            s.append(";");
            s
        },
        NativeValue::Obj(h) => {
            let mut s = String::from_str("L");
            s.append(h.class.as_str());
            s.append(";");
            s
        },
    }
}

/// Splitting the value-descriptor concatenation at position `i`.
proof fn lemma_descriptors_of_values_take(vs: Seq<NativeValue>, i: int)
    requires
        0 <= i < vs.len(),
    ensures
        descriptors_of_values(vs.take(i + 1)) == descriptors_of_values(vs.take(i))
            + descriptor_of_value(vs[i]),
    decreases i,
{
    let a = vs.take(i + 1);
    let b = vs.take(i);
    if i == 0 {
        assert(a.drop_first() =~= Seq::<NativeValue>::empty());
        assert(b =~= Seq::<NativeValue>::empty());
        assert(descriptors_of_values(a) == descriptor_of_value(a[0]) + descriptors_of_values(
            a.drop_first(),
        ));
        assert(descriptors_of_values(a) =~= descriptors_of_values(b) + descriptor_of_value(vs[i]));
    } else {
        lemma_descriptors_of_values_take(vs.drop_first(), i - 1);
        assert(a.drop_first() =~= vs.drop_first().take(i));
        assert(b.drop_first() =~= vs.drop_first().take(i - 1));
        assert(vs.drop_first()[i - 1] == vs[i]);
        assert(descriptors_of_values(a) == descriptor_of_value(vs[0]) + descriptors_of_values(
            a.drop_first(),
        ));
        assert(descriptors_of_values(b) == descriptor_of_value(vs[0]) + descriptors_of_values(
            b.drop_first(),
        ));
        assert(descriptors_of_values(a) =~= descriptors_of_values(b) + descriptor_of_value(vs[i]));
    }
}

/// Builds the method signature for a call with the given argument values
/// and return type.
pub fn value_signature(args: &Vec<NativeValue>, ret: &NativeType) -> (r: String)
    ensures
        r@ == value_sig_of(args@, *ret),
{
    let mut s = String::from_str("(");
    let mut i: usize = 0;
    while i < args.len()
        invariant
            i <= args@.len(),
            s@ == "("@ + descriptors_of_values(args@.take(i as int)),
        decreases args@.len() - i,
    {
        let d = signature_for_value(&args[i]);
        s.append(d.as_str());
        proof {
            lemma_descriptors_of_values_take(args@, i as int);
        }
        i = i + 1;
    }
    proof {
        assert(args@.take(args@.len() as int) =~= args@);
    }
    s.append(")");
    let rd = crate::signature::signature_for(ret);
    s.append(rd.as_str());
    s
}

/// How many local references a sequence of temporaries owns.
pub open spec fn owned_count(ts: Seq<Temporary>) -> nat
    decreases ts.len(),
{
    if ts.len() == 0 {
        0
    } else {
        owned_count(ts.drop_last()) + temp_owned(ts.last())
    }
}

/// Appending a temporary adds what it owns to the count.
pub proof fn lemma_owned_count_push(ts: Seq<Temporary>, t: Temporary)
    ensures
        owned_count(ts.push(t)) == owned_count(ts) + temp_owned(t),
{
    assert(ts.push(t).drop_last() =~= ts);
}

/// No two temporaries own the same local reference.
pub open spec fn temps_distinct(ts: Seq<Temporary>) -> bool {
    forall|i: int, j: int|
        0 <= i < ts.len() && 0 <= j < ts.len() && i != j ==> !((#[trigger] ts[i]) matches
            Temporary::Local(a) && (#[trigger] ts[j]) matches Temporary::Local(b) && a == b)
}

/// Every owned reference of the temporaries is live.
pub open spec fn temps_live(s: JvmSim, ts: Seq<Temporary>) -> bool {
    forall|i: int|
        0 <= i < ts.len() ==> ((#[trigger] ts[i]) matches Temporary::Local(r) ==> s.ref_live(r))
}

/// The reference is owned by one of the temporaries.
pub open spec fn temp_owns_ref(ts: Seq<Temporary>, rr: int) -> bool {
    exists|i: int|
        {
            &&& 0 <= i < ts.len()
            &&& (#[trigger] ts[i]) matches Temporary::Local(r)
            &&& r == rr
        }
}

/// Stages every argument of a call: on success each argument has its
/// temporary; on failure every temporary already created has been
/// released again.
pub fn marshal_args(je: &mut JvmSim, args: &Vec<NativeValue>) -> (res: Result<
    Vec<Temporary>,
    JniError,
>)
    requires
        old(je).wf(),
    ensures
        final(je).wf(),
        final(je).classes@ == old(je).classes@,
        final(je).pending == old(je).pending,
        forall|i: int| 0 <= i < old(je).objects@.len() ==> final(je).objects@[i] == old(je).objects@[i],
        final(je).objects@.len() >= old(je).objects@.len(),
        forall|rr: int| 0 <= rr < old(je).refs@.len() ==> final(je).refs@[rr] == old(je).refs@[rr],
        final(je).refs@.len() >= old(je).refs@.len(),
        res matches Ok(ts) ==> {
            &&& ts@.len() == args@.len()
            &&& forall|i: int|
                0 <= i < args@.len() ==> temp_corresponds(
                    *final(je),
                    #[trigger] ts@[i],
                    args@[i],
                )
            &&& temps_distinct(ts@)
            &&& temps_live(*final(je), ts@)
            &&& forall|i: int|
                0 <= i < ts@.len() ==> ((#[trigger] ts@[i]) matches Temporary::Local(r) ==> r
                    >= old(je).refs@.len() && final(je).ref_obj(r) >= old(je).objects@.len())
            &&& final(je).live_refs() == old(je).live_refs() + owned_count(ts@)
        },
        res is Err ==> {
            &&& final(je).live_refs() == old(je).live_refs()
            &&& res == Err::<Vec<Temporary>, JniError>(JniError::UnsupportedType)
            &&& exists|i: int| 0 <= i < args@.len() && (#[trigger] args@[i]) is Unit
        },
        (forall|i: int| 0 <= i < args@.len() ==> !((#[trigger] args@[i]) is Unit)) ==> res is Ok,
        res is Ok ==> forall|i: int| 0 <= i < args@.len() ==> !((#[trigger] args@[i]) is Unit),
{
    let mut ts: Vec<Temporary> = Vec::new();
    let mut i: usize = 0;
    while i < args.len()
        invariant
            old(je).wf(),
            je.wf(),
            je.classes@ == old(je).classes@,
            je.pending == old(je).pending,
            forall|k: int| 0 <= k < old(je).objects@.len() ==> je.objects@[k] == old(je).objects@[k],
            je.objects@.len() >= old(je).objects@.len(),
            forall|rr: int| 0 <= rr < old(je).refs@.len() ==> je.refs@[rr] == old(je).refs@[rr],
            je.refs@.len() >= old(je).refs@.len(),
            i <= args@.len(),
            ts@.len() == i,
            forall|k: int|
                0 <= k < i ==> temp_corresponds(*je, #[trigger] ts@[k], args@[k]),
            temps_distinct(ts@),
            temps_live(*je, ts@),
            forall|k: int|
                0 <= k < ts@.len() ==> ((#[trigger] ts@[k]) matches Temporary::Local(r) ==> r
                    >= old(je).refs@.len() && je.ref_obj(r) >= old(je).objects@.len()),
            je.live_refs() == old(je).live_refs() + owned_count(ts@),
            forall|k: int| 0 <= k < i ==> !((#[trigger] args@[k]) is Unit),
        decreases args@.len() - i,
    {
        let ghost pre = *je;
        match into_temporary(je, &args[i]) {
            Ok(t) => {
                proof {
                    lemma_owned_count_push(ts@, t);
                    assert forall|k: int| 0 <= k < ts@.len() implies temp_corresponds(
                        *je,
                        #[trigger] ts@[k],
                        args@[k],
                    ) by {
                        lemma_temp_corresponds_frame(pre, *je, ts@[k], args@[k]);
                    }
                }
                ts.push(t);
                proof {
                    assert(temps_distinct(ts@));
                }
            },
            Err(e) => {
                let ghost tsnap = ts@;
                let ghost mid = *je;
                release_temps(je, ts);
                proof {
                    assert forall|rr: int|
                        0 <= rr < old(je).refs@.len() implies je.refs@[rr] == old(je).refs@[rr] by {
                        assert(!temp_owns_ref(tsnap, rr));
                        assert(je.refs@[rr] == mid.refs@[rr]);
                    }
                }
                return Err(e);
            },
        }
        i = i + 1;
    }
    Ok(ts)
}

/// A temporary's correspondence with its argument survives runtime steps
/// that preserve existing objects and references.
proof fn lemma_temp_corresponds_frame(pre: JvmSim, post: JvmSim, t: Temporary, v: NativeValue)
    requires
        temp_corresponds(pre, t, v),
        post.objects@.len() >= pre.objects@.len(),
        forall|i: int| 0 <= i < pre.objects@.len() ==> post.objects@[i] == pre.objects@[i],
        post.refs@.len() >= pre.refs@.len(),
        forall|rr: int| 0 <= rr < pre.refs@.len() ==> post.refs@[rr] == pre.refs@[rr],
        pre.wf(),
    ensures
        temp_corresponds(post, t, v),
{
    match t {
        Temporary::Local(r) => {
            assert(pre.ref_is_obj(r));
            assert(post.refs@[r as int] == pre.refs@[r as int]);
            assert(post.ref_is_obj(r) && post.ref_obj(r) == pre.ref_obj(r));
            assert(pre.ref_obj(r) < pre.objects@.len());
            assert(post.objects@[post.ref_obj(r) as int] == pre.objects@[pre.ref_obj(r) as int]);
        },
        _ => {},
    }
}

/// Releases every temporary of a call, in order.
pub fn release_temps(je: &mut JvmSim, ts: Vec<Temporary>)
    requires
        old(je).wf(),
        temps_live(*old(je), ts@),
        temps_distinct(ts@),
    ensures
        final(je).wf(),
        final(je).objects@ == old(je).objects@,
        final(je).classes@ == old(je).classes@,
        final(je).pending == old(je).pending,
        final(je).refs@.len() == old(je).refs@.len(),
        forall|rr: int|
            0 <= rr < old(je).refs@.len() && !temp_owns_ref(ts@, rr) ==> final(je).refs@[rr] == old(
                je,
            ).refs@[rr],
        final(je).live_refs() + owned_count(ts@) == old(je).live_refs(),
{
    let n = ts.len();
    let mut i: usize = 0;
    while i < n
        invariant
            old(je).wf(),
            je.wf(),
            n == ts@.len(),
            i <= n,
            je.objects@ == old(je).objects@,
            je.classes@ == old(je).classes@,
            je.pending == old(je).pending,
            je.refs@.len() == old(je).refs@.len(),
            forall|rr: int|
                0 <= rr < old(je).refs@.len() && !temp_owns_ref(ts@.take(i as int), rr) ==> je.refs@[rr]
                    == old(je).refs@[rr],
            temps_live(*je, ts@.skip(i as int)),
            temps_distinct(ts@),
            je.live_refs() + owned_count(ts@.take(i as int)) == old(je).live_refs(),
        decreases n - i,
    {
        let t = ts[i];
        proof {
            assert(ts@.skip(i as int)[0] == ts@[i as int]);
            assert(t matches Temporary::Local(r) ==> je.ref_live(r));
        }
        let ghost pre = *je;
        release_temporary(je, t);
        proof {
            assert(ts@.take(i + 1) =~= ts@.take(i as int).push(ts@[i as int]));
            lemma_owned_count_push(ts@.take(i as int), ts@[i as int]);
            assert forall|rr: int|
                0 <= rr < old(je).refs@.len() && !temp_owns_ref(ts@.take(i + 1), rr) implies je.refs@[rr]
                == old(je).refs@[rr] by {
                assert(!temp_owns_ref(ts@.take(i as int), rr));
                assert(!(ts@[i as int] matches Temporary::Local(r) && r == rr));
            }
            assert forall|k: int|
                0 <= k < ts@.skip(i + 1).len() && (#[trigger] ts@.skip(i + 1)[k]) is Local
                    implies je.ref_live(ts@.skip(i + 1)[k]->Local_0) by {
                assert(ts@.skip(i + 1)[k] == ts@[i + 1 + k]);
                assert(ts@.skip(i as int)[k + 1] == ts@[i + 1 + k]);
                let r = ts@[i + 1 + k]->Local_0;
                assert(pre.ref_live(r));
                assert(!(ts@[i as int] matches Temporary::Local(a) && a == r));
            }
        }
        i = i + 1;
    }
    proof {
        assert(ts@.take(n as int) =~= ts@);
    }
}

/// The boxed call-argument array of a sequence of temporaries, in order.
pub fn jvalues_of(ts: &Vec<Temporary>) -> (r: Vec<JvmValue>)
    ensures
        r@.len() == ts@.len(),
        forall|i: int| 0 <= i < ts@.len() ==> r@[i] == temp_jvalue(#[trigger] ts@[i]),
{
    let mut r: Vec<JvmValue> = Vec::new();
    let mut i: usize = 0;
    while i < ts.len()
        invariant
            i <= ts@.len(),
            r@.len() == i,
            forall|k: int| 0 <= k < i ==> r@[k] == temp_jvalue(#[trigger] ts@[k]),
        decreases ts@.len() - i,
    {
        r.push(temporary_into_jvalue(&ts[i]));
        i = i + 1;
    }
    r
}

} // verus!
