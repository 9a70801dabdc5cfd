//! Call orchestration scenarios against the simulated host runtime:
//! instance, static and constructor calls, field access, exceptions,
//! copy-back guards, and the reference-count probe.

use jni_marshal::calls::call_constructor;
use jni_marshal::calls::call_instance;
use jni_marshal::calls::call_instance_raw;
use jni_marshal::calls::call_static;
use jni_marshal::calls::get_field_value;
use jni_marshal::calls::set_field_value;
use jni_marshal::copy_back::ArrayCopyBackByte;
use jni_marshal::copy_back::ArrayCopyBackInt;
use jni_marshal::error::JniError;
use jni_marshal::runtime::ArrData;
use jni_marshal::runtime::Behavior;
use jni_marshal::runtime::ClassDef;
use jni_marshal::runtime::FieldSlot;
use jni_marshal::runtime::JvmSim;
use jni_marshal::runtime::MethodDef;
use jni_marshal::signature::NativeType;
use jni_marshal::values::JvmValue;
use jni_marshal::values::NativeValue;
use jni_marshal::values::ObjectHandle;

fn widget_class() -> ClassDef {
    ClassDef {
        name: String::from("com/example/Widget"),
        methods: vec![
            MethodDef {
                name: String::from("getName"),
                sig: String::from("()Ljava/lang/String;"),
                is_static: false,
                behavior: Behavior::ReturnField(String::from("name")),
            },
            MethodDef {
                name: String::from("count"),
                sig: String::from("()I"),
                is_static: false,
                behavior: Behavior::ReturnScalar(JvmValue::Int(7)),
            },
            MethodDef {
                name: String::from("fail"),
                sig: String::from("()V"),
                is_static: false,
                behavior: Behavior::Throw(String::from("java/lang/IllegalStateException")),
            },
        ],
        ctor_sigs: vec![String::from("(Ljava/lang/String;I)V")],
    }
}

fn widget_env() -> (JvmSim, ObjectHandle) {
    let mut env = JvmSim::new();
    env.register_class(widget_class()).unwrap();
    let name_ref = env.new_string("Fido");
    let obj_ref = env
        .create_object(
            "com/example/Widget",
            vec![FieldSlot {
                name: String::from("name"),
                sig: String::from("Ljava/lang/String;"),
                value: JvmValue::Object(Some(name_ref)),
            }],
        )
        .unwrap();
    // The string staged for the field is no longer needed as a reference.
    env.delete_local_ref(name_ref).unwrap();
    let handle = ObjectHandle { class: String::from("com/example/Widget"), target: Some(obj_ref) };
    (env, handle)
}

#[test]
fn instance_call_returns_the_backing_field_without_leaks() {
    let (mut env, widget) = widget_env();
    let before = env.live_ref_count();
    let res = call_instance(&mut env, &widget, "getName", &vec![], &NativeType::Str).unwrap();
    match res {
        NativeValue::Str(s) => assert_eq!(s, "Fido"),
        _ => panic!("expected the string field"),
    }
    // The reference-count probe: nothing leaked.
    assert_eq!(env.live_ref_count(), before);
}

#[test]
fn instance_call_scalar_result() {
    let (mut env, widget) = widget_env();
    let res = call_instance(&mut env, &widget, "count", &vec![], &NativeType::I32).unwrap();
    assert!(matches!(res, NativeValue::I32(7)));
}

#[test]
fn pending_exception_overrides_the_nominal_result() {
    let (mut env, widget) = widget_env();
    let before = env.live_ref_count();
    let res = call_instance(&mut env, &widget, "fail", &vec![], &NativeType::Unit);
    assert_eq!(res.unwrap_err(), JniError::PendingException);
    // The exception was surfaced and cleared; nothing leaked.
    assert!(!env.exception_check());
    assert_eq!(env.live_ref_count(), before);
}

#[test]
fn static_call_builds_the_documented_signature() {
    let mut env = JvmSim::new();
    env.register_class(ClassDef {
        name: String::from("java/lang/Integer"),
        methods: vec![MethodDef {
            name: String::from("valueOf"),
            sig: String::from("(I)Ljava/lang/Integer;"),
            is_static: true,
            behavior: Behavior::ReturnNewString(String::from("42")),
        }],
        ctor_sigs: vec![],
    })
    .unwrap();
    // The signature computed for one 32-bit integer argument and a
    // string-wrapping object result is exactly the documented form.
    let sig = jni_marshal::marshal::value_signature(
        &vec![NativeValue::I32(42)],
        &NativeType::Object(String::from("java/lang/Integer")),
    );
    assert_eq!(sig, "(I)Ljava/lang/Integer;");
    let before = env.live_ref_count();
    let res = call_static(
        &mut env,
        "java/lang/Integer",
        "valueOf",
        &vec![NativeValue::I32(42)],
        &NativeType::Object(String::from("java/lang/Integer")),
    )
    .unwrap();
    match res {
        NativeValue::Obj(h) => {
            assert_eq!(h.class, "java/lang/Integer");
            assert!(h.target.is_some());
            // Exactly one owned reference came back.
            assert_eq!(env.live_ref_count(), before + 1);
        },
        _ => panic!("expected an object handle"),
    }
}

#[test]
fn constructor_returns_a_live_wrapped_handle() {
    let (mut env, _widget) = widget_env();
    let sig = jni_marshal::marshal::value_signature(
        &vec![NativeValue::Str(String::from("Rex")), NativeValue::I32(3)],
        &NativeType::Unit,
    );
    assert_eq!(sig, "(Ljava/lang/String;I)V");
    let before = env.live_ref_count();
    let h = call_constructor(
        &mut env,
        "com/example/Widget",
        &vec![NativeValue::Str(String::from("Rex")), NativeValue::I32(3)],
    )
    .unwrap();
    assert_eq!(h.class, "com/example/Widget");
    assert!(h.target.is_some());
    assert_eq!(env.live_ref_count(), before + 1);
    // The handle is live: an instance call through it succeeds.
    let res = call_instance(&mut env, &h, "count", &vec![], &NativeType::I32).unwrap();
    assert!(matches!(res, NativeValue::I32(7)));
}

#[test]
fn dotted_descriptor_is_flagged_before_any_lookup() {
    let mut env = JvmSim::new();
    let before = env.live_ref_count();
    // A class name in dotted form reaches the signature; the call is
    // refused before any marshalling or lookup happens.
    let bad = ObjectHandle { class: String::from("java.lang.String"), target: None };
    let res = call_instance(
        &mut env,
        &bad,
        "anything",
        &vec![NativeValue::Obj(ObjectHandle {
            class: String::from("java.lang.Thing"),
            target: None,
        })],
        &NativeType::Unit,
    );
    assert_eq!(res.unwrap_err(), JniError::BadDescriptor);
    assert_eq!(env.live_ref_count(), before);
    assert_eq!(env.objects.len(), 0);
}

#[test]
fn lookup_failures() {
    let (mut env, widget) = widget_env();
    let res = call_static(&mut env, "no/such/Class", "m", &vec![], &NativeType::Unit);
    assert_eq!(res.unwrap_err(), JniError::ClassNotFound);
    let res2 = call_instance(&mut env, &widget, "noSuchMethod", &vec![], &NativeType::Unit);
    assert_eq!(res2.unwrap_err(), JniError::MethodNotFound);
    let res3 = call_constructor(&mut env, "com/example/Widget", &vec![]);
    assert_eq!(res3.unwrap_err(), JniError::MethodNotFound);
}

#[test]
fn field_access_by_name_and_signature() {
    let (mut env, widget) = widget_env();
    let before = env.live_ref_count();
    let got = get_field_value(&mut env, &widget, "name", &NativeType::Str).unwrap();
    match got {
        NativeValue::Str(s) => assert_eq!(s, "Fido"),
        _ => panic!("expected the string field"),
    }
    assert_eq!(env.live_ref_count(), before);
    let missing = get_field_value(&mut env, &widget, "age", &NativeType::I32);
    assert_eq!(missing.unwrap_err(), JniError::FieldNotFound);
    let wrong_sig = get_field_value(&mut env, &widget, "name", &NativeType::I32);
    assert_eq!(wrong_sig.unwrap_err(), JniError::FieldNotFound);
}

#[test]
fn field_update_by_name() {
    let mut env = JvmSim::new();
    env.register_class(widget_class()).unwrap();
    let obj_ref = env
        .create_object(
            "com/example/Widget",
            vec![FieldSlot {
                name: String::from("size"),
                sig: String::from("I"),
                value: JvmValue::Int(1),
            }],
        )
        .unwrap();
    let widget = ObjectHandle { class: String::from("com/example/Widget"), target: Some(obj_ref) };
    let before = env.live_ref_count();
    set_field_value(&mut env, &widget, "size", &NativeValue::I32(9)).unwrap();
    assert_eq!(env.live_ref_count(), before);
    let got = get_field_value(&mut env, &widget, "size", &NativeType::I32).unwrap();
    assert!(matches!(got, NativeValue::I32(9)));
}

#[test]
fn copy_back_reflects_jvm_side_mutation() {
    let mut env = JvmSim::new();
    env.register_class(ClassDef {
        name: String::from("t/Mutator"),
        methods: vec![MethodDef {
            name: String::from("mutate"),
            sig: String::from("([I)V"),
            is_static: false,
            behavior: Behavior::WriteArray { arg: 0, data: ArrData::Ints(vec![9, 8, 7]) },
        }],
        ctor_sigs: vec![],
    })
    .unwrap();
    let obj_ref = env.create_object("t/Mutator", vec![]).unwrap();
    let target = ObjectHandle { class: String::from("t/Mutator"), target: Some(obj_ref) };
    let before = env.live_ref_count();
    let buf = vec![1, 2, 3];
    let guard = ArrayCopyBackInt::new(&buf, &mut env);
    let res = call_instance_raw(
        &mut env,
        &target,
        "mutate",
        "([I)V",
        &vec![guard.as_jvalue()],
    )
    .unwrap();
    assert!(matches!(res, JvmValue::Void));
    let buf = guard.release(&mut env);
    // The native buffer reflects exactly the JVM-side contents at exit.
    assert_eq!(buf, vec![9, 8, 7]);
    assert_eq!(env.live_ref_count(), before);
}

#[test]
fn copy_back_is_bit_exact_for_bytes() {
    let mut env = JvmSim::new();
    env.register_class(ClassDef {
        name: String::from("t/ByteMutator"),
        methods: vec![MethodDef {
            name: String::from("mutate"),
            sig: String::from("([B)V"),
            is_static: false,
            behavior: Behavior::WriteArray { arg: 0, data: ArrData::Bytes(vec![-1, -128, 127]) },
        }],
        ctor_sigs: vec![],
    })
    .unwrap();
    let obj_ref = env.create_object("t/ByteMutator", vec![]).unwrap();
    let target = ObjectHandle { class: String::from("t/ByteMutator"), target: Some(obj_ref) };
    let guard = ArrayCopyBackByte::new(&vec![0, 0, 0], &mut env);
    call_instance_raw(&mut env, &target, "mutate", "([B)V", &vec![guard.as_jvalue()]).unwrap();
    let out = guard.release(&mut env);
    assert_eq!(out, vec![-1, -128, 127]);
    // The unsigned reinterpretation of the same bits, unchanged.
    assert_eq!(jni_marshal::values::vec_i8_into_u8(out), vec![255, 128, 127]);
}

#[test]
fn unit_arguments_are_refused() {
    let (mut env, widget) = widget_env();
    let res = call_instance(
        &mut env,
        &widget,
        "count",
        &vec![NativeValue::Unit],
        &NativeType::I32,
    );
    assert_eq!(res.unwrap_err(), JniError::UnsupportedType);
}

#[test]
fn reference_discipline_is_enforced() {
    let mut env = JvmSim::new();
    let r = env.new_string("once");
    assert_eq!(env.live_ref_count(), 1);
    env.delete_local_ref(r).unwrap();
    assert_eq!(env.live_ref_count(), 0);
    // Releasing twice is a defect the runtime reports.
    assert_eq!(env.delete_local_ref(r).unwrap_err(), JniError::InvalidReference);
    // Using a released reference is an error too.
    assert_eq!(env.get_string(r).unwrap_err(), JniError::InvalidReference);
}
