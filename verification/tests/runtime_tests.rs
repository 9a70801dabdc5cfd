//! Runtime-level behavior: lookup, iterator protocol edges, the remaining
//! copy-back guards, and the throwable wrapper.

use jni_marshal::copy_back::ArrayCopyBackBool;
use jni_marshal::copy_back::ArrayCopyBackChar;
use jni_marshal::copy_back::ArrayCopyBackLong;
use jni_marshal::copy_back::ArrayCopyBackShort;
use jni_marshal::error::JniError;
use jni_marshal::runtime::ArrData;
use jni_marshal::runtime::Behavior;
use jni_marshal::runtime::ClassDef;
use jni_marshal::runtime::JvmSim;
use jni_marshal::runtime::MethodDef;
use jni_marshal::runtime::class_is_array;
use jni_marshal::values::JvmValue;
use jni_marshal::wrappers::Throwable;

#[test]
fn class_lookup_hands_out_a_releasable_reference() {
    let mut env = JvmSim::new();
    env.register_class(ClassDef {
        name: String::from("a/B"),
        methods: vec![],
        ctor_sigs: vec![],
    })
    .unwrap();
    assert_eq!(env.find_class("no/Such").unwrap_err(), JniError::ClassNotFound);
    let cr = env.find_class("a/B").unwrap();
    assert_eq!(env.live_ref_count(), 1);
    env.delete_local_ref(cr).unwrap();
    assert_eq!(env.live_ref_count(), 0);
}

#[test]
fn is_array_check_tells_arrays_from_iterables() {
    let mut env = JvmSim::new();
    let arr = env.new_array("[I", ArrData::Ints(vec![1]));
    let cls = env.get_object_class(arr).unwrap();
    assert_eq!(class_is_array(&env, cls), Ok(true));
    env.delete_local_ref(cls).unwrap();
    let s = env.new_string("x");
    let cls2 = env.get_object_class(s).unwrap();
    assert_eq!(class_is_array(&env, cls2), Ok(false));
}

#[test]
fn iterator_protocol_edges() {
    let mut env = JvmSim::new();
    let list = env.new_list("java/util/ArrayList", vec![]).unwrap();
    let it = env.get_iterator(list).unwrap();
    assert_eq!(env.iter_has_next(it), Ok(false));
    // Draining past the end is an error, not a silent value.
    assert!(env.iter_next(it).is_err());
    // Beginning the protocol on something that is not an iterable fails.
    let s = env.new_string("x");
    assert_eq!(env.get_iterator(s).unwrap_err(), JniError::TypeMismatch);
}

#[test]
fn remaining_copy_back_guards() {
    let mut env = JvmSim::new();
    env.register_class(ClassDef {
        name: String::from("t/M"),
        methods: vec![
            MethodDef {
                name: String::from("flip"),
                sig: String::from("([Z)V"),
                is_static: false,
                behavior: Behavior::WriteArray { arg: 0, data: ArrData::Bools(vec![false, true]) },
            },
            MethodDef {
                name: String::from("shorten"),
                sig: String::from("([S)V"),
                is_static: false,
                behavior: Behavior::WriteArray { arg: 0, data: ArrData::Shorts(vec![-5, 5]) },
            },
            MethodDef {
                name: String::from("lengthen"),
                sig: String::from("([J)V"),
                is_static: false,
                behavior: Behavior::WriteArray {
                    arg: 0,
                    data: ArrData::Longs(vec![i64::MIN, i64::MAX]),
                },
            },
            MethodDef {
                name: String::from("respell"),
                sig: String::from("([C)V"),
                is_static: false,
                behavior: Behavior::WriteArray { arg: 0, data: ArrData::Chars(vec![0x62, 0x79]) },
            },
        ],
        ctor_sigs: vec![],
    })
    .unwrap();
    let obj = env.create_object("t/M", vec![]).unwrap();
    let target = jni_marshal::values::ObjectHandle {
        class: String::from("t/M"),
        target: Some(obj),
    };

    let g = ArrayCopyBackBool::new(&vec![true, false], &mut env);
    jni_marshal::calls::call_instance_raw(&mut env, &target, "flip", "([Z)V", &vec![g.as_jvalue()])
        .unwrap();
    assert_eq!(g.release(&mut env), vec![false, true]);

    let g = ArrayCopyBackShort::new(&vec![0, 0], &mut env);
    jni_marshal::calls::call_instance_raw(
        &mut env,
        &target,
        "shorten",
        "([S)V",
        &vec![g.as_jvalue()],
    )
    .unwrap();
    assert_eq!(g.release(&mut env), vec![-5, 5]);

    let g = ArrayCopyBackLong::new(&vec![0, 0], &mut env);
    jni_marshal::calls::call_instance_raw(
        &mut env,
        &target,
        "lengthen",
        "([J)V",
        &vec![g.as_jvalue()],
    )
    .unwrap();
    assert_eq!(g.release(&mut env), vec![i64::MIN, i64::MAX]);

    let g = ArrayCopyBackChar::new(&vec!['a', 'x'], &mut env);
    jni_marshal::calls::call_instance_raw(
        &mut env,
        &target,
        "respell",
        "([C)V",
        &vec![g.as_jvalue()],
    )
    .unwrap();
    assert_eq!(g.release(&mut env).unwrap(), vec!['b', 'y']);
}

#[test]
fn char_copy_back_rejects_surrogates_after_releasing() {
    let mut env = JvmSim::new();
    env.register_class(ClassDef {
        name: String::from("t/Bad"),
        methods: vec![MethodDef {
            name: String::from("corrupt"),
            sig: String::from("([C)V"),
            is_static: false,
            behavior: Behavior::WriteArray { arg: 0, data: ArrData::Chars(vec![0xD800]) },
        }],
        ctor_sigs: vec![],
    })
    .unwrap();
    let obj = env.create_object("t/Bad", vec![]).unwrap();
    let target = jni_marshal::values::ObjectHandle {
        class: String::from("t/Bad"),
        target: Some(obj),
    };
    let before = env.live_ref_count();
    let g = ArrayCopyBackChar::new(&vec!['a'], &mut env);
    jni_marshal::calls::call_instance_raw(
        &mut env,
        &target,
        "corrupt",
        "([C)V",
        &vec![g.as_jvalue()],
    )
    .unwrap();
    assert_eq!(g.release(&mut env).unwrap_err(), JniError::InvalidCodePoint);
    // The guard's reference was released even though the decode failed.
    assert_eq!(env.live_ref_count(), before);
}

#[test]
fn throwable_wrapper() {
    let t = Throwable::null();
    assert!(t.handle.target.is_none());
    assert_eq!(Throwable::java_class_name(), "java/lang/Throwable");
    assert_eq!(Throwable::signature_for(), "Ljava/lang/Throwable;");
    let mut env = JvmSim::new();
    env.register_class(ClassDef {
        name: String::from("java/lang/Throwable"),
        methods: vec![MethodDef {
            name: String::from("printStackTrace"),
            sig: String::from("()V"),
            is_static: false,
            behavior: Behavior::ReturnVoid,
        }],
        ctor_sigs: vec![String::from("()V")],
    })
    .unwrap();
    let h = jni_marshal::calls::call_constructor(&mut env, "java/lang/Throwable", &vec![]).unwrap();
    let t2 = Throwable::wrap_jobject(h);
    assert_eq!(t2.printStackTrace(&mut env), Ok(()));
    // Calling through the null wrapper is an error, not a crash.
    assert_eq!(t.printStackTrace(&mut env).unwrap_err(), JniError::InvalidReference);
}

#[test]
fn throwable_print_propagates_the_pending_exception() {
    let mut env = JvmSim::new();
    env.register_class(ClassDef {
        name: String::from("java/lang/Throwable"),
        methods: vec![MethodDef {
            name: String::from("printStackTrace"),
            sig: String::from("()V"),
            is_static: false,
            behavior: Behavior::Throw(String::from("java/io/IOException")),
        }],
        ctor_sigs: vec![String::from("()V")],
    })
    .unwrap();
    let h = jni_marshal::calls::call_constructor(&mut env, "java/lang/Throwable", &vec![]).unwrap();
    let before = env.live_ref_count();
    let t = Throwable::wrap_jobject(h);
    assert_eq!(t.printStackTrace(&mut env).unwrap_err(), JniError::PendingException);
    assert!(!env.exception_check());
    assert_eq!(env.live_ref_count(), before);
}

#[test]
fn calls_chain_on_one_runtime_and_one_handle() {
    let mut env = JvmSim::new();
    env.register_class(ClassDef {
        name: String::from("t/Counter"),
        methods: vec![],
        ctor_sigs: vec![],
    })
    .unwrap();
    let obj = env
        .create_object(
            "t/Counter",
            vec![jni_marshal::runtime::FieldSlot {
                name: String::from("n"),
                sig: String::from("I"),
                value: JvmValue::Int(1),
            }],
        )
        .unwrap();
    let h = jni_marshal::values::ObjectHandle {
        class: String::from("t/Counter"),
        target: Some(obj),
    };
    // Get, then set, then get again, all through the same held handle.
    let got = jni_marshal::calls::get_field_value(
        &mut env,
        &h,
        "n",
        &jni_marshal::signature::NativeType::I32,
    )
    .unwrap();
    assert!(matches!(got, jni_marshal::values::NativeValue::I32(1)));
    jni_marshal::calls::set_field_value(
        &mut env,
        &h,
        "n",
        &jni_marshal::values::NativeValue::I32(2),
    )
    .unwrap();
    let got2 = jni_marshal::calls::get_field_value(
        &mut env,
        &h,
        "n",
        &jni_marshal::signature::NativeType::I32,
    )
    .unwrap();
    assert!(matches!(got2, jni_marshal::values::NativeValue::I32(2)));
}

#[test]
fn fields_store_resolved_objects() {
    let mut env = JvmSim::new();
    env.register_class(ClassDef {
        name: String::from("t/Holder"),
        methods: vec![],
        ctor_sigs: vec![],
    })
    .unwrap();
    let obj = env
        .create_object(
            "t/Holder",
            vec![jni_marshal::runtime::FieldSlot {
                name: String::from("label"),
                sig: String::from("Ljava/lang/String;"),
                value: JvmValue::Object(None),
            }],
        )
        .unwrap();
    let s = env.new_string("tag");
    env.set_field(obj, "label", "Ljava/lang/String;", JvmValue::Object(Some(s))).unwrap();
    env.delete_local_ref(s).unwrap();
    let before = env.live_ref_count();
    let got = env.get_field(obj, "label", "Ljava/lang/String;").unwrap();
    match got {
        JvmValue::Object(Some(r)) => {
            assert_eq!(env.get_string(r).unwrap(), "tag");
            env.delete_local_ref(r).unwrap();
        },
        _ => panic!("expected a fresh reference"),
    }
    assert_eq!(env.live_ref_count(), before);
}
