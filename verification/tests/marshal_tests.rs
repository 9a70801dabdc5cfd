//! Marshalling round trips: scalars, strings, arrays, and the iterator
//! protocol, against the simulated host runtime.

use jni_marshal::error::JniError;
use jni_marshal::marshal::convert_iterable_to_rust_vec;
use jni_marshal::marshal::convert_jarray_to_rust;
use jni_marshal::marshal::convert_jvalue_list_or_array_to_rust;
use jni_marshal::marshal::into_temporary;
use jni_marshal::marshal::release_temporary;
use jni_marshal::marshal::temporary_into_jvalue;
use jni_marshal::marshal::to_rust;
use jni_marshal::runtime::ArrData;
use jni_marshal::runtime::JvmSim;
use jni_marshal::signature::NativeType;
use jni_marshal::values::NativeValue;
use jni_marshal::values::u32_to_char;
use jni_marshal::values::vec_i8_into_u8;
use jni_marshal::values::vec_u8_into_i8;

fn scalar_round_trip(v: NativeValue, t: NativeType) -> NativeValue {
    let mut env = JvmSim::new();
    let tmp = into_temporary(&mut env, &v).unwrap();
    let jv = temporary_into_jvalue(&tmp);
    let back = to_rust(&mut env, jv, &t).unwrap();
    release_temporary(&mut env, tmp);
    assert_eq!(env.live_ref_count(), 0);
    back
}

#[test]
fn scalar_round_trips() {
    assert!(matches!(scalar_round_trip(NativeValue::Bool(true), NativeType::Bool), NativeValue::Bool(true)));
    assert!(matches!(scalar_round_trip(NativeValue::Bool(false), NativeType::Bool), NativeValue::Bool(false)));
    assert!(matches!(scalar_round_trip(NativeValue::I8(0), NativeType::I8), NativeValue::I8(0)));
    assert!(matches!(scalar_round_trip(NativeValue::I8(-128), NativeType::I8), NativeValue::I8(-128)));
    assert!(matches!(scalar_round_trip(NativeValue::I8(127), NativeType::I8), NativeValue::I8(127)));
    assert!(matches!(scalar_round_trip(NativeValue::U8(0), NativeType::U8), NativeValue::U8(0)));
    assert!(matches!(scalar_round_trip(NativeValue::U8(255), NativeType::U8), NativeValue::U8(255)));
    assert!(matches!(scalar_round_trip(NativeValue::I16(-32768), NativeType::I16), NativeValue::I16(-32768)));
    assert!(matches!(scalar_round_trip(NativeValue::I16(32767), NativeType::I16), NativeValue::I16(32767)));
    assert!(matches!(scalar_round_trip(NativeValue::I32(0), NativeType::I32), NativeValue::I32(0)));
    assert!(matches!(scalar_round_trip(NativeValue::I32(-2147483648), NativeType::I32), NativeValue::I32(-2147483648)));
    assert!(matches!(scalar_round_trip(NativeValue::I32(2147483647), NativeType::I32), NativeValue::I32(2147483647)));
    assert!(matches!(scalar_round_trip(NativeValue::I64(i64::MIN), NativeType::I64), NativeValue::I64(i64::MIN)));
    assert!(matches!(scalar_round_trip(NativeValue::I64(i64::MAX), NativeType::I64), NativeValue::I64(i64::MAX)));
    assert!(matches!(scalar_round_trip(NativeValue::Ch('A'), NativeType::Ch), NativeValue::Ch('A')));
    assert!(matches!(scalar_round_trip(NativeValue::Ch('\u{0}'), NativeType::Ch), NativeValue::Ch('\u{0}')));
    assert!(matches!(scalar_round_trip(NativeValue::Ch('\u{FFFF}'), NativeType::Ch), NativeValue::Ch('\u{FFFF}')));
}

#[test]
fn string_round_trip_releases_everything() {
    let mut env = JvmSim::new();
    let v = NativeValue::Str(String::from("hello"));
    let tmp = into_temporary(&mut env, &v).unwrap();
    assert_eq!(env.live_ref_count(), 1);
    let jv = temporary_into_jvalue(&tmp);
    // Converting the result consumes the reference; the temporary's owned
    // reference is this same staged object, so hand ownership over by not
    // releasing the temporary again after conversion consumed it.
    let back = to_rust(&mut env, jv, &NativeType::Str).unwrap();
    match back {
        NativeValue::Str(s) => assert_eq!(s, "hello"),
        _ => panic!("expected a string"),
    }
    assert_eq!(env.live_ref_count(), 0);
}

#[test]
fn primitive_array_round_trips() {
    let mut env = JvmSim::new();
    let v = NativeValue::I32Array(vec![1, -2, 3]);
    let tmp = into_temporary(&mut env, &v).unwrap();
    let jv = temporary_into_jvalue(&tmp);
    let back = to_rust(&mut env, jv, &NativeType::Array(Box::new(NativeType::I32))).unwrap();
    match back {
        NativeValue::I32Array(x) => assert_eq!(x, vec![1, -2, 3]),
        _ => panic!("expected an array"),
    }
    assert_eq!(env.live_ref_count(), 0);

    let v = NativeValue::BoolArray(vec![true, false, true]);
    let tmp = into_temporary(&mut env, &v).unwrap();
    let jv = temporary_into_jvalue(&tmp);
    let back = to_rust(&mut env, jv, &NativeType::Array(Box::new(NativeType::Bool))).unwrap();
    match back {
        NativeValue::BoolArray(x) => assert_eq!(x, vec![true, false, true]),
        _ => panic!("expected an array"),
    }

    let v = NativeValue::U8Array(vec![0, 128, 255]);
    let tmp = into_temporary(&mut env, &v).unwrap();
    let jv = temporary_into_jvalue(&tmp);
    let back = to_rust(&mut env, jv, &NativeType::Array(Box::new(NativeType::U8))).unwrap();
    match back {
        NativeValue::U8Array(x) => assert_eq!(x, vec![0, 128, 255]),
        _ => panic!("expected an array"),
    }

    let v = NativeValue::CharArray(vec!['a', 'Z', '\u{00e9}']);
    let tmp = into_temporary(&mut env, &v).unwrap();
    let jv = temporary_into_jvalue(&tmp);
    let back = to_rust(&mut env, jv, &NativeType::Array(Box::new(NativeType::Ch))).unwrap();
    match back {
        NativeValue::CharArray(x) => assert_eq!(x, vec!['a', 'Z', '\u{00e9}']),
        _ => panic!("expected an array"),
    }
    assert_eq!(env.live_ref_count(), 0);
}

#[test]
fn string_array_round_trip() {
    let mut env = JvmSim::new();
    let v = NativeValue::StrArray(vec![String::from("one"), String::from("two")]);
    let tmp = into_temporary(&mut env, &v).unwrap();
    let jv = temporary_into_jvalue(&tmp);
    let back = to_rust(&mut env, jv, &NativeType::Array(Box::new(NativeType::Str))).unwrap();
    match back {
        NativeValue::StrArray(x) => assert_eq!(x, vec![String::from("one"), String::from("two")]),
        _ => panic!("expected a string array"),
    }
    assert_eq!(env.live_ref_count(), 0);
}

#[test]
fn iterables_drain_through_the_iterator_protocol() {
    let mut env = JvmSim::new();
    let a = env.new_string("alpha");
    let b = env.new_string("beta");
    let list = env
        .new_list(
            "java/util/ArrayList",
            vec![
                jni_marshal::values::JvmValue::Object(Some(a)),
                jni_marshal::values::JvmValue::Object(Some(b)),
            ],
        )
        .unwrap();
    let before = env.live_ref_count();
    let out = convert_iterable_to_rust_vec(&mut env, list).unwrap();
    assert_eq!(out, vec![String::from("alpha"), String::from("beta")]);
    assert_eq!(env.live_ref_count(), before);

    // The dispatcher takes the iterable branch after the isArray check.
    let out2 = convert_jvalue_list_or_array_to_rust(&mut env, list).unwrap();
    assert_eq!(out2, vec![String::from("alpha"), String::from("beta")]);
}

#[test]
fn object_arrays_extract_by_index() {
    let mut env = JvmSim::new();
    let a = env.new_string("x");
    let arr = env
        .new_object_array(
            "[Ljava/lang/String;",
            vec![jni_marshal::values::JvmValue::Object(Some(a))],
        )
        .unwrap();
    let before = env.live_ref_count();
    let out = convert_jarray_to_rust(&mut env, arr).unwrap();
    assert_eq!(out, vec![String::from("x")]);
    assert_eq!(env.live_ref_count(), before);
    let out2 = convert_jvalue_list_or_array_to_rust(&mut env, arr).unwrap();
    assert_eq!(out2, vec![String::from("x")]);
}

#[test]
fn code_point_conversion() {
    assert_eq!(u32_to_char(65), Ok('A'));
    assert_eq!(u32_to_char(0x1F600), Ok('\u{1F600}'));
    assert_eq!(u32_to_char(0xD800), Err(JniError::InvalidCodePoint));
    assert_eq!(u32_to_char(0x110000), Err(JniError::InvalidCodePoint));
}

#[test]
fn surrogate_code_units_are_rejected_not_substituted() {
    let mut env = JvmSim::new();
    let r = env.new_array("[C", ArrData::Chars(vec![0x41, 0xD800]));
    let res = to_rust(
        &mut env,
        jni_marshal::values::JvmValue::Object(Some(r)),
        &NativeType::Array(Box::new(NativeType::Ch)),
    );
    assert_eq!(res.unwrap_err(), JniError::InvalidCodePoint);
    // The reference was still consumed on the error path.
    assert_eq!(env.live_ref_count(), 0);
}

#[test]
fn byte_reinterpretation_is_bitwise() {
    let signed = vec_u8_into_i8(vec![0, 1, 127, 128, 255]);
    assert_eq!(signed, vec![0, 1, 127, -128, -1]);
    let unsigned = vec_i8_into_u8(vec![0, 1, 127, -128, -1]);
    assert_eq!(unsigned, vec![0, 1, 127, 128, 255]);
}

#[test]
fn conversion_type_mismatches() {
    let mut env = JvmSim::new();
    let s = env.new_string("text");
    let res = to_rust(
        &mut env,
        jni_marshal::values::JvmValue::Object(Some(s)),
        &NativeType::I32,
    );
    assert_eq!(res.unwrap_err(), JniError::TypeMismatch);
    // The incoming reference is consumed even on the mismatch path.
    assert_eq!(env.live_ref_count(), 0);
    let res2 = to_rust(
        &mut env,
        jni_marshal::values::JvmValue::Int(7),
        &NativeType::Str,
    );
    assert_eq!(res2.unwrap_err(), JniError::TypeMismatch);
}
