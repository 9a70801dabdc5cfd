//! Wrappers for classes of the host runtime's own library.

use vstd::prelude::*;

use crate::error::JniError;
use crate::runtime::Behavior;
use crate::runtime::JvmSim;
use crate::runtime::Payload;
use crate::runtime::class_first_match;
use crate::runtime::class_found;
use crate::runtime::field_name_first_match;
use crate::runtime::field_name_found;
use crate::runtime::method_first_match;
use crate::runtime::method_found;
use crate::signature::NativeType;
use crate::values::JvmValue;
use crate::values::NativeValue;
use crate::values::ObjectHandle;
use crate::values::jvalue_to_scalar;

verus! {

/// What a no-argument void instance call yields, per scripted behavior of
/// the resolved method: a void behavior succeeds, a throwing behavior is
/// the pending-exception error, a non-void nominal result is a type
/// mismatch, and lookup failures propagate.
pub open spec fn void_call_outcome(
    pre: JvmSim,
    this: usize,
    b: Behavior,
    res: Result<(), JniError>,
) -> bool {
    match b {
        Behavior::ReturnVoid => res == Ok::<(), JniError>(()),
        Behavior::Throw(_) => res == Err::<(), JniError>(JniError::PendingException),
        Behavior::ReturnScalar(jv) => res == (match jvalue_to_scalar(jv, NativeType::Unit) {
            Ok(_) => Ok::<(), JniError>(()),
            Err(e) => Err::<(), JniError>(e),
        }),
        Behavior::ReturnNewString(_) => res is Err,
        Behavior::ReturnField(fname) => match pre.objects@[this as int].payload {
            Payload::Plain(fs) => {
                &&& !field_name_found(fs@, fname@) ==> res == Err::<(), JniError>(
                    JniError::FieldNotFound,
                )
                &&& forall|fi: int|
                    field_name_first_match(fs@, fname@, fi) ==> match (#[trigger] fs@[fi]).value {
                        JvmValue::Object(_) => res == Err::<(), JniError>(JniError::TypeMismatch),
                        v => res == (match jvalue_to_scalar(v, NativeType::Unit) {
                            Ok(_) => Ok::<(), JniError>(()),
                            Err(e) => Err::<(), JniError>(e),
                        }),
                    }
            },
            _ => res == Err::<(), JniError>(JniError::TypeMismatch),
        },
        Behavior::WriteArray { arg, data } => res == Err::<(), JniError>(JniError::TypeMismatch),
    }
}

/// An owned handle to a throwable of the host runtime.
pub struct Throwable {
    /// The wrapped object handle; its class is the throwable's.
    pub handle: ObjectHandle,
}

impl Throwable {
    /// The null throwable: a handle that owns nothing.
    pub fn null() -> (r: Throwable)
        ensures
            r.handle.target is None,
            r.handle.class@ == "java/lang/Throwable"@,
    {
        Throwable {
            handle: ObjectHandle { class: String::from_str("java/lang/Throwable"), target: None },
        }
    }

    /// The slash-separated class name the native interface needs.
    pub fn java_class_name() -> (r: &'static str)
        ensures
            r@ == "java/lang/Throwable"@,
    {
        "java/lang/Throwable"
    }

    /// The JVM type descriptor of the throwable class.
    pub fn signature_for() -> (r: String)
        ensures
            r@ == "L"@ + "java/lang/Throwable"@ + ";"@,
    {
        let mut s = String::from_str("L");
        s.append("java/lang/Throwable");
        s.append(";");
        s
    }

    /// Wraps an object handle obtained from a call or allocation.
    pub fn wrap_jobject(handle: ObjectHandle) -> (r: Throwable)
        ensures
            r.handle == handle,
    {
        Throwable { handle }
    }

    /// Invokes the throwable's stack-trace printer: the no-argument void
    /// instance call `printStackTrace` with signature `()V`, through the
    /// orchestrator with its exception check and reference discipline.
    /// Success is owed exactly when the resolved method's behavior returns
    /// void; a pending exception, a non-void result and every lookup
    /// failure come back as the corresponding error.
    #[allow(non_snake_case)]
    pub fn printStackTrace(&self, env: &mut JvmSim) -> (res: Result<(), JniError>)
        requires
            old(env).wf(),
            old(env).pending is None,
        ensures
            final(env).wf(),
            final(env).pending is None,
            final(env).classes@ == old(env).classes@,
            forall|rr: int|
                0 <= rr < old(env).refs@.len() ==> final(env).refs@[rr] == old(env).refs@[rr],
            final(env).refs@.len() >= old(env).refs@.len(),
            final(env).live_refs() == old(env).live_refs(),
            self.handle.target is None ==> res == Err::<(), JniError>(JniError::InvalidReference),
            self.handle.target matches Some(tr) ==> {
                &&& !old(env).ref_is_obj(tr) ==> res == Err::<(), JniError>(
                    JniError::InvalidReference,
                )
                &&& old(env).ref_is_obj(tr) ==> {
                    let cname = old(env).objects@[old(env).ref_obj(tr) as int].class@;
                    &&& !class_found(old(env).classes@, cname) ==> res == Err::<(), JniError>(
                        JniError::MethodNotFound,
                    )
                    &&& forall|ci: int|
                        class_first_match(old(env).classes@, cname, ci) ==> {
                            &&& !method_found(
                                (#[trigger] old(env).classes@[ci]).methods@,
                                "printStackTrace"@,
                                crate::marshal::value_sig_of(
                                    Seq::<NativeValue>::empty(),
                                    NativeType::Unit,
                                ),
                                false,
                            ) ==> res == Err::<(), JniError>(JniError::MethodNotFound)
                            &&& forall|mi: int|
                                method_first_match(
                                    old(env).classes@[ci].methods@,
                                    "printStackTrace"@,
                                    crate::marshal::value_sig_of(
                                        Seq::<NativeValue>::empty(),
                                        NativeType::Unit,
                                    ),
                                    false,
                                    mi,
                                ) ==> void_call_outcome(
                                    *old(env),
                                    old(env).ref_obj(tr),
                                    (#[trigger] old(env).classes@[ci].methods@[mi]).behavior,
                                    res,
                                )
                        }
                }
            },
    {
        let args: Vec<NativeValue> = Vec::new();
        proof {
            assert(args@ =~= Seq::<NativeValue>::empty());
            crate::signature::lemma_has_dot_concat(
                "("@,
                crate::marshal::descriptors_of_values(args@),
            );
            crate::signature::lemma_has_dot_concat(
                "("@ + crate::marshal::descriptors_of_values(args@),
                ")"@,
            );
            crate::signature::lemma_has_dot_concat(
                ("("@ + crate::marshal::descriptors_of_values(args@)) + ")"@,
                crate::signature::descriptor_of(NativeType::Unit),
            );
            reveal_strlit("(");
            reveal_strlit(")");
            reveal_strlit("V");
            assert(!crate::signature::has_dot(
                crate::marshal::value_sig_of(args@, NativeType::Unit),
            ));
        }
        let conv = crate::calls::call_instance(
            env,
            &self.handle,
            "printStackTrace",
            &args,
            &NativeType::Unit,
        );
        let ghost mid = *env;
        let out: Result<(), JniError> = match &conv {
            Ok(v) => match v {
                NativeValue::Unit => Ok(()),
                NativeValue::Obj(h) => {
                    match h.target {
                        Some(hr) => {
                            let _ = env.delete_local_ref(hr);
                        },
                        None => {},
                    }
                    Err(JniError::TypeMismatch)
                },
                _ => Err(JniError::TypeMismatch),
            },
            Err(e) => Err(*e),
        };
        proof {
            let pre = *old(env);
            match self.handle.target {
                Some(tr) => {
                    if pre.ref_is_obj(tr) {
                        let cname = pre.objects@[pre.ref_obj(tr) as int].class@;
                        assert forall|ci: int, mi: int|
                            class_first_match(pre.classes@, cname, ci) && method_first_match(
                                pre.classes@[ci].methods@,
                                "printStackTrace"@,
                                crate::marshal::value_sig_of(
                                    Seq::<NativeValue>::empty(),
                                    NativeType::Unit,
                                ),
                                false,
                                mi,
                            ) implies void_call_outcome(
                            pre,
                            pre.ref_obj(tr),
                            pre.classes@[ci].methods@[mi].behavior,
                            out,
                        ) by {
                            assert(crate::calls::call_result_ok(
                                pre,
                                mid,
                                Some(pre.ref_obj(tr)),
                                pre.classes@[ci].methods@[mi].behavior,
                                args@,
                                NativeType::Unit,
                                conv,
                            ));
                            assert(crate::runtime::class_wf(pre.classes@[ci]));
                        }
                    }
                },
                None => {},
            }
        }
        out
    }
}

impl crate::values::JavaConstructible for Throwable {
    fn wrap_jobject(handle: ObjectHandle) -> (r: Throwable) {
        Throwable { handle }
    }
}

} // verus!
