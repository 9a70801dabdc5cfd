//! The call orchestrator: instance, static and constructor calls against
//! the host runtime.
//!
//! A call builds the method signature from its argument and return types,
//! flags a dotted class name before any lookup, stages the arguments as
//! temporaries, invokes, polls the pending-exception flag — an exception is
//! the authoritative failure signal, overriding any nominal result — and
//! converts the result back, releasing every temporary afterwards.  The
//! contracts account for every local reference: a call leaks nothing, and
//! hands out exactly one owned reference when its result is an object
//! handle.
//!
//! A dotted class name reaching a descriptor is a broken call site.  The
//! verified functions of this library never panic, so the orchestrators
//! surface it deliberately as the recoverable [`JniError::BadDescriptor`],
//! fixed before any lookup with the runtime untouched; the debug-assertion
//! form stands in [`crate::signature::panic_if_bad_sigs`], whose
//! precondition excludes exactly the inputs it would reject.

use vstd::prelude::*;

use crate::error::JniError;
use crate::marshal::Temporary;
use crate::marshal::converts_to;
use crate::marshal::descriptor_of_value;
use crate::marshal::jvalues_of;
use crate::marshal::marshal_args;
use crate::marshal::owned_by_result;
use crate::marshal::release_temps;
use crate::marshal::temp_owns_ref;
use crate::marshal::value_sig_of;
use crate::marshal::value_signature;
use crate::runtime::Behavior;
use crate::runtime::JvmSim;
use crate::runtime::Payload;
use crate::runtime::RefEntry;
use crate::runtime::behavior_outcome;
use crate::runtime::class_first_match;
use crate::runtime::class_found;
use crate::runtime::ctor_listed;
use crate::runtime::field_name_first_match;
use crate::runtime::field_name_found;
use crate::runtime::method_first_match;
use crate::runtime::method_found;
use crate::signature::NativeType;
use crate::signature::descriptor_of;
use crate::signature::has_dot;
use crate::values::JvmValue;
use crate::values::NativeValue;
use crate::values::ObjectHandle;

verus! {

/// A scoped owner of one class reference: the class lookup a call makes
/// is needed only for that call's duration and is released when the
/// wrapper's scope ends.
pub struct JClassWrapper {
    /// The owned local reference to the resolved class.
    pub cls: usize,
}

impl JClassWrapper {
    /// Ends the wrapper's scope, releasing the class reference.
    pub fn release(self, env: &mut JvmSim)
        requires
            old(env).wf(),
            old(env).ref_is_class(self.cls),
        ensures
            final(env).wf(),
            final(env).objects@ == old(env).objects@,
            final(env).classes@ == old(env).classes@,
            final(env).pending == old(env).pending,
            final(env).refs@ == old(env).refs@.update(
                self.cls as int,
                RefEntry { target: old(env).refs@[self.cls as int].target, live: false },
            ),
            final(env).live_refs() + 1 == old(env).live_refs(),
    {
        let _ = env.delete_local_ref(self.cls);
    }
}

/// What invoking a method with the given behavior and then checking the
/// pending-exception flag yields: a pending exception becomes the
/// boundary's error, never a nominal result.
pub open spec fn raw_outcome(
    pre: JvmSim,
    post: JvmSim,
    this: Option<usize>,
    b: Behavior,
    args: Seq<JvmValue>,
    res: Result<JvmValue, JniError>,
) -> bool {
    match b {
        Behavior::Throw(cls) => {
            &&& res == Err::<JvmValue, JniError>(JniError::PendingException)
            &&& post.objects@.len() == pre.objects@.len() + 1
            &&& forall|i: int| 0 <= i < pre.objects@.len() ==> post.objects@[i] == pre.objects@[i]
            &&& post.objects@.last().class@ == cls@
            &&& post.refs@ == pre.refs@
            &&& post.classes@ == pre.classes@
            &&& post.pending is None
        },
        _ => behavior_outcome(pre, post, this, b, args, res),
    }
}

/// Invokes a method on an already-held object reference with boxed
/// arguments: the low-level instance call.  The signature is checked for
/// dotted class names before any lookup; the pending-exception flag is
/// polled after the invocation and a pending exception is surfaced as an
/// error, clearing the flag.
pub fn call_instance_raw(
    env: &mut JvmSim,
    target: &ObjectHandle,
    method: &str,
    sig: &str,
    args: &Vec<JvmValue>,
) -> (res: Result<JvmValue, JniError>)
    requires
        old(env).wf(),
        old(env).pending is None,
    ensures
        final(env).wf(),
        final(env).pending is None,
        final(env).classes@ == old(env).classes@,
        forall|rr: int| 0 <= rr < old(env).refs@.len() ==> final(env).refs@[rr] == old(env).refs@[rr],
        final(env).refs@.len() >= old(env).refs@.len(),
        final(env).live_refs() == old(env).live_refs() + (match res {
            Ok(JvmValue::Object(Some(_))) => 1nat,
            _ => 0nat,
        }),
        res matches Ok(jv) ==> (jv matches JvmValue::Object(oo) ==> (oo matches Some(nr)
            ==> final(env).ref_is_obj(nr))),
        has_dot(sig@) ==> res == Err::<JvmValue, JniError>(JniError::BadDescriptor) && old(
            env,
        ).unchanged(*final(env)),
        !has_dot(sig@) ==> {
            &&& target.target is None ==> res == Err::<JvmValue, JniError>(
                JniError::InvalidReference,
            ) && old(env).unchanged(*final(env))
            &&& target.target matches Some(tr) ==> {
                &&& !old(env).ref_is_obj(tr) ==> res == Err::<JvmValue, JniError>(
                    JniError::InvalidReference,
                ) && old(env).unchanged(*final(env))
                &&& old(env).ref_is_obj(tr) ==> {
                    let cname = old(env).objects@[old(env).ref_obj(tr) as int].class@;
                    &&& !class_found(old(env).classes@, cname) ==> res == Err::<
                        JvmValue,
                        JniError,
                    >(JniError::MethodNotFound) && old(env).unchanged(*final(env))
                    &&& forall|ci: int|
                        class_first_match(old(env).classes@, cname, ci) ==> {
                            &&& !method_found(
                                (#[trigger] old(env).classes@[ci]).methods@,
                                method@,
                                sig@,
                                false,
                            ) ==> res == Err::<JvmValue, JniError>(JniError::MethodNotFound)
                                && old(env).unchanged(*final(env))
                            &&& forall|mi: int|
                                method_first_match(
                                    old(env).classes@[ci].methods@,
                                    method@,
                                    sig@,
                                    false,
                                    mi,
                                ) ==> raw_outcome(
                                    *old(env),
                                    *final(env),
                                    Some(old(env).ref_obj(tr)),
                                    (#[trigger] old(env).classes@[ci].methods@[mi]).behavior,
                                    args@,
                                    res,
                                )
                        }
                }
            }
        },
{
    if crate::signature::descriptor_has_dot(sig) {
        return Err(JniError::BadDescriptor);
    }
    match target.target {
        None => Err(JniError::InvalidReference),
        Some(tr) => {
            let r = env.call_method(tr, method, sig, args);
            if env.exception_check() {
                env.exception_clear();
                match r {
                    Ok(JvmValue::Object(Some(nr))) => {
                        let _ = env.delete_local_ref(nr);
                    },
                    _ => {},
                }
                Err(JniError::PendingException)
            } else {
                r
            }
        },
    }
}

/// What a successful void invocation converts to: the unit value for a
/// void return type, the fixed error otherwise.
pub open spec fn void_result(ret: NativeType, res: Result<NativeValue, JniError>) -> bool {
    match ret {
        NativeType::Unit => res == Ok::<NativeValue, JniError>(NativeValue::Unit),
        NativeType::Float => res == Err::<NativeValue, JniError>(JniError::UnsupportedType),
        NativeType::Double => res == Err::<NativeValue, JniError>(JniError::UnsupportedType),
        _ => res == Err::<NativeValue, JniError>(JniError::TypeMismatch),
    }
}

/// The array-write outcome for one staged argument whose element type and
/// length either match the scripted data or do not.
pub open spec fn write_result(
    fits: bool,
    ret: NativeType,
    res: Result<NativeValue, JniError>,
) -> bool {
    if fits {
        void_result(ret, res)
    } else {
        res == Err::<NativeValue, JniError>(JniError::TypeMismatch)
    }
}

/// What converting a call's nominal result to the wanted native type
/// yields, per scripted behavior: the value-level outcome of a completed
/// call, with the mutation of a caller-held array pinned in the post
/// state.
pub open spec fn call_result_ok(
    pre: JvmSim,
    post: JvmSim,
    this: Option<usize>,
    b: Behavior,
    args: Seq<NativeValue>,
    ret: NativeType,
    res: Result<NativeValue, JniError>,
) -> bool {
    match b {
        Behavior::Throw(_) => res == Err::<NativeValue, JniError>(JniError::PendingException),
        Behavior::ReturnVoid => converts_to(pre, JvmValue::Void, ret, res),
        Behavior::ReturnScalar(jv) => converts_to(pre, jv, ret, res),
        Behavior::ReturnNewString(s) => match ret {
            NativeType::Str => res matches Ok(v) && v matches NativeValue::Str(x) && x@ == s@,
            NativeType::Object(cls) => res matches Ok(v) && v matches NativeValue::Obj(h)
                && h.class@ == cls@ && h.target is Some,
            _ => res is Err,
        },
        Behavior::ReturnField(fname) => match this {
            Some(oid) => match pre.objects@[oid as int].payload {
                Payload::Plain(fs) => {
                    &&& !field_name_found(fs@, fname@) ==> res == Err::<NativeValue, JniError>(
                        JniError::FieldNotFound,
                    )
                    &&& forall|fi: int|
                        field_name_first_match(fs@, fname@, fi) ==> match (#[trigger] fs@[fi]).value {
                            JvmValue::Object(Some(tid)) => crate::marshal::object_converts(
                                pre,
                                tid,
                                ret,
                                res,
                            ),
                            v => converts_to(pre, v, ret, res),
                        }
                },
                _ => res == Err::<NativeValue, JniError>(JniError::TypeMismatch),
            },
            None => res == Err::<NativeValue, JniError>(JniError::TypeMismatch),
        },
        Behavior::WriteArray { arg, data } => {
            &&& arg >= args.len() ==> res == Err::<NativeValue, JniError>(JniError::TypeMismatch)
            &&& arg < args.len() ==> match args[arg as int] {
                NativeValue::BoolArray(x) => write_result(
                    data matches crate::runtime::ArrData::Bools(d) && d@.len() == x@.len(),
                    ret,
                    res,
                ),
                NativeValue::I8Array(x) => write_result(
                    data matches crate::runtime::ArrData::Bytes(d) && d@.len() == x@.len(),
                    ret,
                    res,
                ),
                NativeValue::U8Array(x) => write_result(
                    data matches crate::runtime::ArrData::Bytes(d) && d@.len() == x@.len(),
                    ret,
                    res,
                ),
                NativeValue::I16Array(x) => write_result(
                    data matches crate::runtime::ArrData::Shorts(d) && d@.len() == x@.len(),
                    ret,
                    res,
                ),
                NativeValue::I32Array(x) => write_result(
                    data matches crate::runtime::ArrData::Ints(d) && d@.len() == x@.len(),
                    ret,
                    res,
                ),
                NativeValue::I64Array(x) => write_result(
                    data matches crate::runtime::ArrData::Longs(d) && d@.len() == x@.len(),
                    ret,
                    res,
                ),
                NativeValue::CharArray(x) => write_result(
                    data matches crate::runtime::ArrData::Chars(d) && d@.len() == x@.len(),
                    ret,
                    res,
                ),
                NativeValue::Obj(h) => match h.target {
                    Some(ar) => if pre.ref_is_obj(ar) {
                        match pre.objects@[pre.ref_obj(ar) as int].payload {
                            Payload::Arr(a) => if crate::runtime::arr_same_kind(a, data)
                                && crate::runtime::arr_len(a) == crate::runtime::arr_len(data) {
                                &&& void_result(ret, res)
                                &&& post.objects@[pre.ref_obj(ar) as int].payload matches
                                    Payload::Arr(b2) && crate::runtime::arr_eq(b2, data)
                                &&& post.objects@[pre.ref_obj(ar) as int].class == pre.objects@[pre.ref_obj(
                                    ar,
                                ) as int].class
                            } else {
                                res == Err::<NativeValue, JniError>(JniError::TypeMismatch)
                            },
                            _ => res == Err::<NativeValue, JniError>(JniError::TypeMismatch),
                        }
                    } else {
                        true
                    },
                    None => res == Err::<NativeValue, JniError>(JniError::TypeMismatch),
                },
                _ => res == Err::<NativeValue, JniError>(JniError::TypeMismatch),
            }
        },
    }
}

/// Performs an instance call: encodes each argument's descriptor, builds
/// the signature, stages the arguments, invokes the method by name and
/// signature on the target object, polls for a pending exception, converts
/// the result to the wanted native type, and releases every temporary.
/// The call leaks no local reference: the live count grows by exactly one
/// when the result is an owned object handle and is unchanged otherwise.
pub fn call_instance(
    env: &mut JvmSim,
    target: &ObjectHandle,
    method: &str,
    args: &Vec<NativeValue>,
    ret: &NativeType,
) -> (res: Result<NativeValue, JniError>)
    requires
        old(env).wf(),
        old(env).pending is None,
    ensures
        final(env).wf(),
        final(env).pending is None,
        final(env).classes@ == old(env).classes@,
        final(env).objects@.len() >= old(env).objects@.len(),
        forall|rr: int| 0 <= rr < old(env).refs@.len() ==> final(env).refs@[rr] == old(env).refs@[rr],
        final(env).refs@.len() >= old(env).refs@.len(),
        (forall|k: int| 0 <= k < args@.len() ==> !((#[trigger] args@[k]) is Obj)) ==> forall|
            i: int,
        | 0 <= i < old(env).objects@.len() ==> final(env).objects@[i] == old(env).objects@[i],
        final(env).live_refs() == old(env).live_refs() + owned_by_result(res),
        res matches Ok(v) ==> (v matches NativeValue::Obj(h) ==> (h.target matches Some(hr)
            ==> final(env).ref_is_obj(hr) && hr >= old(env).refs@.len())),
        has_dot(value_sig_of(args@, *ret)) ==> res == Err::<NativeValue, JniError>(
            JniError::BadDescriptor,
        ) && old(env).unchanged(*final(env)),
        !has_dot(value_sig_of(args@, *ret)) ==> {
            &&& target.target is None ==> res == Err::<NativeValue, JniError>(
                JniError::InvalidReference,
            )
            &&& target.target matches Some(tr) ==> {
                &&& !old(env).ref_is_obj(tr) ==> res == Err::<NativeValue, JniError>(
                    JniError::InvalidReference,
                )
                &&& old(env).ref_is_obj(tr) ==> {
                    let cname = old(env).objects@[old(env).ref_obj(tr) as int].class@;
                    &&& (exists|i: int| 0 <= i < args@.len() && (#[trigger] args@[i]) is Unit)
                        ==> res == Err::<NativeValue, JniError>(JniError::UnsupportedType)
                    &&& (forall|i: int|
                        0 <= i < args@.len() ==> !((#[trigger] args@[i]) is Unit)) ==> {
                    &&& !class_found(old(env).classes@, cname) ==> res == Err::<
                        NativeValue,
                        JniError,
                    >(JniError::MethodNotFound)
                    &&& forall|ci: int|
                        class_first_match(old(env).classes@, cname, ci) ==> {
                            &&& !method_found(
                                (#[trigger] old(env).classes@[ci]).methods@,
                                method@,
                                value_sig_of(args@, *ret),
                                false,
                            ) ==> res == Err::<NativeValue, JniError>(JniError::MethodNotFound)
                            &&& forall|mi: int|
                                method_first_match(
                                    old(env).classes@[ci].methods@,
                                    method@,
                                    value_sig_of(args@, *ret),
                                    false,
                                    mi,
                                ) ==> call_result_ok(
                                    *old(env),
                                    *final(env),
                                    Some(old(env).ref_obj(tr)),
                                    (#[trigger] old(env).classes@[ci].methods@[mi]).behavior,
                                    args@,
                                    *ret,
                                    res,
                                )
                        }
                    }
                }
            }
        },
{
    let sig = value_signature(args, ret);
    if crate::signature::descriptor_has_dot(sig.as_str()) {
        return Err(JniError::BadDescriptor);
    }
    let tr: usize;
    match target.target {
        None => {
            return Err(JniError::InvalidReference);
        },
        Some(t) => {
            tr = t;
        },
    }
    if !env.valid_obj_ref(tr) {
        return Err(JniError::InvalidReference);
    }
    let ts: Vec<Temporary>;
    match marshal_args(env, args) {
        Ok(t) => {
            ts = t;
        },
        Err(e) => {
            return Err(e);
        },
    }
    let ghost s1 = *env;
    let jvs = jvalues_of(&ts);
    let ghost tsnap = ts@;
    let jvr = env.call_method(tr, method, sig.as_str(), &jvs);
    let ghost s2 = *env;
    proof {
        if old(env).ref_is_obj(tr) {
            lemma_target_bridge(*old(env), s1, tr);
        }
    }
    if env.exception_check() {
        env.exception_clear();
        match jvr {
            Ok(JvmValue::Object(Some(nr))) => {
                let _ = env.delete_local_ref(nr);
            },
            _ => {},
        }
        let ghost sB = *env;
        proof {
            lemma_temps_survive(s1, *env, tsnap);
            lemma_temps_outside_prefix(tsnap, old(env).refs@.len() as int);
        }
        release_temps(env, ts);
        proof {
            assert forall|rr: int|
                0 <= rr < old(env).refs@.len() implies env.refs@[rr] == old(env).refs@[rr] by {
                assert(!temp_owns_ref(tsnap, rr));
                assert(env.refs@[rr] == sB.refs@[rr]);
                assert(sB.refs@[rr] == s2.refs@[rr]);
            }
            if (forall|k: int| 0 <= k < args@.len() ==> !((#[trigger] args@[k]) is Unit)) && (
            forall|k: int| 0 <= k < args@.len() ==> !((#[trigger] args@[k]) is Obj)) {
                lemma_args_target_fresh(
                    s1,
                    tsnap,
                    args@,
                    jvs@,
                    old(env).objects@.len() as int,
                );
                assert forall|i: int|
                    0 <= i < old(env).objects@.len() implies env.objects@[i] == old(
                    env,
                ).objects@[i] by {
                    assert(!crate::runtime::arg_targets(s1, jvs@, i));
                    assert(s2.objects@[i] == s1.objects@[i]);
                }
            }
        }
        return Err(JniError::PendingException);
    }
    let conv: Result<NativeValue, JniError>;
    match jvr {
        Ok(jv) => {
            conv = crate::marshal::to_rust(env, jv, ret);
        },
        Err(e) => {
            conv = Err(e);
        },
    }
    let ghost s3 = *env;
    proof {
        lemma_temps_survive(s1, *env, tsnap);
        assert forall|rr: int| temp_owns_ref(tsnap, rr) implies 0 <= rr < s1.refs@.len() by {
            let i = choose|i: int|
                {
                    &&& 0 <= i < tsnap.len()
                    &&& (#[trigger] tsnap[i]) matches Temporary::Local(r)
                    &&& r == rr
                };
            assert(s1.ref_live(tsnap[i]->Local_0));
        }
    }
    release_temps(env, ts);
    proof {
        match &conv {
            Ok(v) => match v {
                NativeValue::Obj(h) => match &h.target {
                    Some(hr) => {
                        assert(*hr >= s1.refs@.len());
                        assert(!temp_owns_ref(tsnap, *hr as int));
                        assert(env.refs@[*hr as int] == s3.refs@[*hr as int]);
                        assert(env.ref_is_obj(*hr));
                    },
                    None => {},
                },
                _ => {},
            },
            Err(_) => {},
        }
        lemma_temps_outside_prefix(tsnap, old(env).refs@.len() as int);
        assert forall|rr: int|
            0 <= rr < old(env).refs@.len() implies env.refs@[rr] == old(env).refs@[rr] by {
            assert(!temp_owns_ref(tsnap, rr));
            assert(env.refs@[rr] == s3.refs@[rr]);
            assert(s3.refs@[rr] == s2.refs@[rr]);
            assert(s2.refs@[rr] == s1.refs@[rr]);
        }
        if (forall|k: int| 0 <= k < args@.len() ==> !((#[trigger] args@[k]) is Unit)) && (forall|
            k: int,
        | 0 <= k < args@.len() ==> !((#[trigger] args@[k]) is Obj)) {
            lemma_args_target_fresh(s1, tsnap, args@, jvs@, old(env).objects@.len() as int);
            assert forall|i: int|
                0 <= i < old(env).objects@.len() implies env.objects@[i] == old(
                env,
            ).objects@[i] by {
                assert(!crate::runtime::arg_targets(s1, jvs@, i));
                assert(s2.objects@[i] == s1.objects@[i]);
                assert(s3.objects@[i] == s2.objects@[i]);
            }
        }
        let pre = *old(env);
        if pre.ref_is_obj(tr) {
            let cname = pre.objects@[pre.ref_obj(tr) as int].class@;
            assert forall|ci: int, mi: int|
                class_first_match(pre.classes@, cname, ci) && method_first_match(
                    pre.classes@[ci].methods@,
                    method@,
                    value_sig_of(args@, *ret),
                    false,
                    mi,
                ) implies call_result_ok(
                pre,
                *env,
                Some(pre.ref_obj(tr)),
                pre.classes@[ci].methods@[mi].behavior,
                args@,
                *ret,
                conv,
            ) by {
                assert(pre.ref_obj(tr) < pre.objects@.len());
                assert(crate::runtime::class_wf(pre.classes@[ci]));
                assert(crate::runtime::behavior_ok(pre.classes@[ci].methods@[mi].behavior));
                assert(behavior_outcome(
                    s1,
                    s2,
                    Some(s1.ref_obj(tr)),
                    pre.classes@[ci].methods@[mi].behavior,
                    jvs@,
                    jvr,
                ));
                lemma_value_outcome(
                    pre,
                    s1,
                    s2,
                    *env,
                    Some(pre.ref_obj(tr)),
                    pre.classes@[ci].methods@[mi].behavior,
                    args@,
                    tsnap,
                    jvs@,
                    *ret,
                    jvr,
                    conv,
                );
            }
        }
    }
    conv
}

/// A class reference survives runtime steps that preserve existing
/// reference-table entries.
proof fn lemma_class_bridge(pre: JvmSim, post: JvmSim, cr: usize)
    requires
        pre.ref_is_class(cr),
        post.refs@.len() >= pre.refs@.len(),
        forall|rr: int| 0 <= rr < pre.refs@.len() ==> post.refs@[rr] == pre.refs@[rr],
    ensures
        post.ref_is_class(cr),
        post.ref_class(cr) == pre.ref_class(cr),
{
    assert(post.refs@[cr as int] == pre.refs@[cr as int]);
}

/// The target reference and the class of the object behind it are
/// untouched by staging steps that only extend the runtime.
proof fn lemma_target_bridge(pre: JvmSim, post: JvmSim, tr: usize)
    requires
        pre.wf(),
        pre.ref_is_obj(tr),
        post.refs@.len() >= pre.refs@.len(),
        forall|rr: int| 0 <= rr < pre.refs@.len() ==> post.refs@[rr] == pre.refs@[rr],
        post.objects@.len() >= pre.objects@.len(),
        forall|i: int| 0 <= i < pre.objects@.len() ==> post.objects@[i] == pre.objects@[i],
    ensures
        post.ref_is_obj(tr),
        post.ref_obj(tr) == pre.ref_obj(tr),
        post.objects@[post.ref_obj(tr) as int] == pre.objects@[pre.ref_obj(tr) as int],
{
    assert(post.refs@[tr as int] == pre.refs@[tr as int]);
    assert(match pre.refs@[tr as int].target {
        crate::runtime::RefTarget::Obj(o) => o < pre.objects@.len(),
        crate::runtime::RefTarget::Class(c) => c < pre.classes@.len(),
    });
}

/// Composes one invocation's behavior outcome with the result conversion
/// into the value-level call outcome, on the path where no exception is
/// pending after the invocation.
proof fn lemma_value_outcome(
    pre: JvmSim,
    s1: JvmSim,
    s2: JvmSim,
    post: JvmSim,
    this: Option<usize>,
    b: Behavior,
    args: Seq<NativeValue>,
    ts: Seq<Temporary>,
    jvs: Seq<JvmValue>,
    ret: NativeType,
    jvr: Result<JvmValue, JniError>,
    conv: Result<NativeValue, JniError>,
)
    requires
        pre.wf(),
        pre.pending is None,
        s1.classes@ == pre.classes@,
        s1.pending == pre.pending,
        s1.refs@.len() >= pre.refs@.len(),
        forall|rr: int| 0 <= rr < pre.refs@.len() ==> s1.refs@[rr] == pre.refs@[rr],
        s1.objects@.len() >= pre.objects@.len(),
        forall|i: int| 0 <= i < pre.objects@.len() ==> s1.objects@[i] == pre.objects@[i],
        this matches Some(oid) ==> oid < pre.objects@.len(),
        crate::runtime::behavior_ok(b),
        ts.len() == args.len(),
        forall|i: int|
            0 <= i < args.len() ==> crate::marshal::temp_corresponds(
                s1,
                #[trigger] ts[i],
                args[i],
            ),
        jvs.len() == ts.len(),
        forall|i: int| 0 <= i < ts.len() ==> jvs[i] == crate::marshal::temp_jvalue(#[trigger] ts[i]),
        behavior_outcome(s1, s2, this, b, jvs, jvr),
        s2.pending is None,
        match jvr {
            Ok(jv) => converts_to(s2, jv, ret, conv),
            Err(e) => conv == Err::<NativeValue, JniError>(e),
        },
        post.objects@.len() >= s2.objects@.len(),
        forall|i: int| 0 <= i < s2.objects@.len() ==> post.objects@[i] == s2.objects@[i],
    ensures
        call_result_ok(pre, post, this, b, args, ret, conv),
{
    match b {
        Behavior::Throw(_) => {
            // behavior_outcome for a throwing method leaves the exception
            // pending, which this path excludes.
            assert(false);
        },
        Behavior::ReturnVoid => {
        },
        Behavior::ReturnScalar(jvb) => {
            assert(!(jvb matches JvmValue::Object(Some(_))));
            assert(converts_to(pre, jvb, ret, conv));
        },
        Behavior::ReturnNewString(_) => {
        },
        Behavior::ReturnField(fname) => match this {
            Some(oid) => {
                assert(s1.objects@[oid as int] == pre.objects@[oid as int]);
                match s1.objects@[oid as int].payload {
                    Payload::Plain(fs) => {
                        assert forall|fi: int|
                            field_name_first_match(fs@, fname@, fi) implies match (
                        #[trigger] fs@[fi]).value {
                            JvmValue::Object(Some(tid)) => crate::marshal::object_converts(
                                pre,
                                tid,
                                ret,
                                conv,
                            ),
                            v => converts_to(pre, v, ret, conv),
                        } by {
                            match fs@[fi].value {
                                JvmValue::Object(Some(tid)) => {
                                    assert(crate::runtime::payload_wf(
                                        pre.objects@[oid as int].payload,
                                        pre.objects@.len(),
                                    ));
                                    assert(tid < pre.objects@.len());
                                    assert(jvr matches Ok(jv) && jv matches JvmValue::Object(oo)
                                        && oo matches Some(nr) && s2.ref_is_obj(nr) && s2.ref_obj(
                                        nr,
                                    ) == tid);
                                    assert(crate::marshal::object_converts(s2, tid, ret, conv));
                                    crate::marshal::lemma_object_converts_transfer(
                                        pre,
                                        s2,
                                        tid,
                                        ret,
                                        conv,
                                    );
                                },
                                _ => {},
                            }
                        }
                    },
                    _ => {},
                }
            },
            None => {},
        },
        Behavior::WriteArray { arg, data } => {
            if arg < args.len() {
                let t = ts[arg as int];
                let jv = jvs[arg as int];
                assert(crate::marshal::temp_corresponds(s1, t, args[arg as int]));
                assert(jv == crate::marshal::temp_jvalue(t));
                match args[arg as int] {
                    NativeValue::Obj(h) => {
                        assert(t == Temporary::Borrowed(h.target));
                        match h.target {
                            Some(ar) => {
                                if pre.ref_is_obj(ar) {
                                    assert(s1.refs@[ar as int] == pre.refs@[ar as int]);
                                    assert(s1.ref_is_obj(ar) && s1.ref_obj(ar) == pre.ref_obj(
                                        ar,
                                    ));
                                    let oid = pre.ref_obj(ar);
                                    assert(oid < pre.objects@.len());
                                    assert(s1.objects@[oid as int] == pre.objects@[oid as int]);
                                    match pre.objects@[oid as int].payload {
                                        Payload::Arr(a) => {
                                            if crate::runtime::arr_same_kind(a, data)
                                                && crate::runtime::arr_len(a)
                                                == crate::runtime::arr_len(data) {
                                                assert(crate::runtime::write_target(
                                                    s1,
                                                    jvs,
                                                    arg as int,
                                                    data,
                                                ) == Some(oid));
                                                assert(jvr == Ok::<JvmValue, JniError>(
                                                    JvmValue::Void,
                                                ));
                                                assert(s2.objects@[oid as int].payload matches
                                                    Payload::Arr(b2) && crate::runtime::arr_eq(
                                                    b2,
                                                    data,
                                                ));
                                                assert(post.objects@[oid as int]
                                                    == s2.objects@[oid as int]);
                                                assert(void_result(ret, conv));
                                            } else {
                                                assert(crate::runtime::write_target(
                                                    s1,
                                                    jvs,
                                                    arg as int,
                                                    data,
                                                ) is None);
                                            }
                                        },
                                        _ => {
                                            assert(crate::runtime::write_target(
                                                s1,
                                                jvs,
                                                arg as int,
                                                data,
                                            ) is None);
                                        },
                                    }
                                }
                            },
                            None => {
                                assert(crate::runtime::write_target(s1, jvs, arg as int, data)
                                    is None);
                            },
                        }
                    },
                    NativeValue::BoolArray(x) => {
                        assert({
                            &&& t matches Temporary::Local(r)
                            &&& s1.ref_is_obj(r)
                            &&& s1.objects@[s1.ref_obj(r) as int].payload matches Payload::Arr(
                                crate::runtime::ArrData::Bools(bb),
                            )
                            &&& bb@ == x@
                        });
                        match data {
                            crate::runtime::ArrData::Bools(d) => {
                                if d@.len() == x@.len() {
                                    assert(crate::runtime::write_target(s1, jvs, arg as int, data)
                                        is Some);
                                    assert(jvr == Ok::<JvmValue, JniError>(JvmValue::Void));
                                    assert(void_result(ret, conv));
                                } else {
                                    assert(crate::runtime::write_target(s1, jvs, arg as int, data)
                                        is None);
                                }
                            },
                            _ => {
                                assert(crate::runtime::write_target(s1, jvs, arg as int, data)
                                    is None);
                            },
                        }
                    },
                    NativeValue::I8Array(x) => {
                        assert({
                            &&& t matches Temporary::Local(r)
                            &&& s1.ref_is_obj(r)
                            &&& s1.objects@[s1.ref_obj(r) as int].payload matches Payload::Arr(
                                crate::runtime::ArrData::Bytes(bb),
                            )
                            &&& bb@ == x@
                        });
                        match data {
                            crate::runtime::ArrData::Bytes(d) => {
                                if d@.len() == x@.len() {
                                    assert(crate::runtime::write_target(s1, jvs, arg as int, data)
                                        is Some);
                                    assert(jvr == Ok::<JvmValue, JniError>(JvmValue::Void));
                                    assert(void_result(ret, conv));
                                } else {
                                    assert(crate::runtime::write_target(s1, jvs, arg as int, data)
                                        is None);
                                }
                            },
                            _ => {
                                assert(crate::runtime::write_target(s1, jvs, arg as int, data)
                                    is None);
                            },
                        }
                    },
                    NativeValue::U8Array(x) => {
                        assert({
                            &&& t matches Temporary::Local(r)
                            &&& s1.ref_is_obj(r)
                            &&& s1.objects@[s1.ref_obj(r) as int].payload matches Payload::Arr(
                                crate::runtime::ArrData::Bytes(bb),
                            )
                            &&& bb@ == crate::marshal::bytes_of_u8s(x@)
                        });
                        match data {
                            crate::runtime::ArrData::Bytes(d) => {
                                if d@.len() == x@.len() {
                                    assert(crate::runtime::write_target(s1, jvs, arg as int, data)
                                        is Some);
                                    assert(jvr == Ok::<JvmValue, JniError>(JvmValue::Void));
                                    assert(void_result(ret, conv));
                                } else {
                                    assert(crate::runtime::write_target(s1, jvs, arg as int, data)
                                        is None);
                                }
                            },
                            _ => {
                                assert(crate::runtime::write_target(s1, jvs, arg as int, data)
                                    is None);
                            },
                        }
                    },
                    NativeValue::I16Array(x) => {
                        assert({
                            &&& t matches Temporary::Local(r)
                            &&& s1.ref_is_obj(r)
                            &&& s1.objects@[s1.ref_obj(r) as int].payload matches Payload::Arr(
                                crate::runtime::ArrData::Shorts(bb),
                            )
                            &&& bb@ == x@
                        });
                        match data {
                            crate::runtime::ArrData::Shorts(d) => {
                                if d@.len() == x@.len() {
                                    assert(crate::runtime::write_target(s1, jvs, arg as int, data)
                                        is Some);
                                    assert(jvr == Ok::<JvmValue, JniError>(JvmValue::Void));
                                    assert(void_result(ret, conv));
                                } else {
                                    assert(crate::runtime::write_target(s1, jvs, arg as int, data)
                                        is None);
                                }
                            },
                            _ => {
                                assert(crate::runtime::write_target(s1, jvs, arg as int, data)
                                    is None);
                            },
                        }
                    },
                    NativeValue::I32Array(x) => {
                        assert({
                            &&& t matches Temporary::Local(r)
                            &&& s1.ref_is_obj(r)
                            &&& s1.objects@[s1.ref_obj(r) as int].payload matches Payload::Arr(
                                crate::runtime::ArrData::Ints(bb),
                            )
                            &&& bb@ == x@
                        });
                        match data {
                            crate::runtime::ArrData::Ints(d) => {
                                if d@.len() == x@.len() {
                                    assert(crate::runtime::write_target(s1, jvs, arg as int, data)
                                        is Some);
                                    assert(jvr == Ok::<JvmValue, JniError>(JvmValue::Void));
                                    assert(void_result(ret, conv));
                                } else {
                                    assert(crate::runtime::write_target(s1, jvs, arg as int, data)
                                        is None);
                                }
                            },
                            _ => {
                                assert(crate::runtime::write_target(s1, jvs, arg as int, data)
                                    is None);
                            },
                        }
                    },
                    NativeValue::I64Array(x) => {
                        assert({
                            &&& t matches Temporary::Local(r)
                            &&& s1.ref_is_obj(r)
                            &&& s1.objects@[s1.ref_obj(r) as int].payload matches Payload::Arr(
                                crate::runtime::ArrData::Longs(bb),
                            )
                            &&& bb@ == x@
                        });
                        match data {
                            crate::runtime::ArrData::Longs(d) => {
                                if d@.len() == x@.len() {
                                    assert(crate::runtime::write_target(s1, jvs, arg as int, data)
                                        is Some);
                                    assert(jvr == Ok::<JvmValue, JniError>(JvmValue::Void));
                                    assert(void_result(ret, conv));
                                } else {
                                    assert(crate::runtime::write_target(s1, jvs, arg as int, data)
                                        is None);
                                }
                            },
                            _ => {
                                assert(crate::runtime::write_target(s1, jvs, arg as int, data)
                                    is None);
                            },
                        }
                    },
                    NativeValue::CharArray(x) => {
                        assert({
                            &&& t matches Temporary::Local(r)
                            &&& s1.ref_is_obj(r)
                            &&& s1.objects@[s1.ref_obj(r) as int].payload matches Payload::Arr(
                                crate::runtime::ArrData::Chars(bb),
                            )
                            &&& bb@ == crate::marshal::units_of_chars(x@)
                        });
                        match data {
                            crate::runtime::ArrData::Chars(d) => {
                                if d@.len() == x@.len() {
                                    assert(crate::runtime::write_target(s1, jvs, arg as int, data)
                                        is Some);
                                    assert(jvr == Ok::<JvmValue, JniError>(JvmValue::Void));
                                    assert(void_result(ret, conv));
                                } else {
                                    assert(crate::runtime::write_target(s1, jvs, arg as int, data)
                                        is None);
                                }
                            },
                            _ => {
                                assert(crate::runtime::write_target(s1, jvs, arg as int, data)
                                    is None);
                            },
                        }
                    },
                    NativeValue::Str(_) => {
                        assert({
                            &&& t matches Temporary::Local(r)
                            &&& s1.ref_is_obj(r)
                            &&& s1.objects@[s1.ref_obj(r) as int].payload is Str
                        });
                        assert(crate::runtime::write_target(s1, jvs, arg as int, data) is None);
                    },
                    NativeValue::StrArray(_) => {
                        assert({
                            &&& t matches Temporary::Local(r)
                            &&& s1.ref_is_obj(r)
                            &&& s1.objects@[s1.ref_obj(r) as int].payload is ObjArr
                        });
                        assert(crate::runtime::write_target(s1, jvs, arg as int, data) is None);
                    },
                    NativeValue::Unit => {
                    },
                    _ => {
                        assert(t == Temporary::Scalar(crate::values::scalar_to_jvalue(
                            args[arg as int],
                        )));
                        assert(!(jv matches JvmValue::Object(_)));
                        assert(crate::runtime::write_target(s1, jvs, arg as int, data) is None);
                    },
                }
            }
        },
    }
}

/// Temporaries own only references created after the given bound.
proof fn lemma_temps_outside_prefix(ts: Seq<Temporary>, bound: int)
    requires
        forall|i: int|
            0 <= i < ts.len() ==> ((#[trigger] ts[i]) matches Temporary::Local(r) ==> r
                >= bound),
    ensures
        forall|rr: int| rr < bound ==> !temp_owns_ref(ts, rr),
{
    assert forall|rr: int| rr < bound implies !temp_owns_ref(ts, rr) by {
        if temp_owns_ref(ts, rr) {
            let k = choose|k: int|
                {
                    &&& 0 <= k < ts.len()
                    &&& (#[trigger] ts[k]) matches Temporary::Local(r)
                    &&& r == rr
                };
            assert(ts[k]->Local_0 >= bound);
        }
    }
}

/// When no argument is an object handle, the staged boxed arguments only
/// reference objects past the given bound: no pre-existing object is a
/// write target.
proof fn lemma_args_target_fresh(
    s1: JvmSim,
    ts: Seq<Temporary>,
    args: Seq<NativeValue>,
    jvs: Seq<JvmValue>,
    bound_obj: int,
)
    requires
        ts.len() == args.len(),
        jvs.len() == ts.len(),
        forall|i: int|
            0 <= i < args.len() ==> crate::marshal::temp_corresponds(
                s1,
                #[trigger] ts[i],
                args[i],
            ),
        forall|i: int| 0 <= i < ts.len() ==> jvs[i] == crate::marshal::temp_jvalue(#[trigger] ts[i]),
        forall|i: int|
            0 <= i < ts.len() ==> ((#[trigger] ts[i]) matches Temporary::Local(r) ==> s1.ref_obj(
                r,
            ) >= bound_obj),
        forall|k: int| 0 <= k < args.len() ==> !((#[trigger] args[k]) is Obj),
        forall|k: int| 0 <= k < args.len() ==> !((#[trigger] args[k]) is Unit),
    ensures
        forall|i: int| i < bound_obj ==> !crate::runtime::arg_targets(s1, jvs, i),
{
    assert forall|i: int| i < bound_obj implies !crate::runtime::arg_targets(s1, jvs, i) by {
        if crate::runtime::arg_targets(s1, jvs, i) {
            let k = choose|k: int|
                {
                    &&& 0 <= k < jvs.len()
                    &&& (#[trigger] jvs[k]) matches JvmValue::Object(oo)
                    &&& oo matches Some(ar)
                    &&& s1.ref_is_obj(ar)
                    &&& s1.ref_obj(ar) == i
                };
            assert(crate::marshal::temp_corresponds(s1, ts[k], args[k]));
            assert(jvs[k] == crate::marshal::temp_jvalue(ts[k]));
            match args[k] {
                NativeValue::Obj(_) => {
                    assert(false);
                },
                NativeValue::Unit => {
                    assert(false);
                },
                NativeValue::Str(_) => {
                    assert(ts[k] is Local && s1.ref_obj(ts[k]->Local_0) >= bound_obj);
                },
                NativeValue::BoolArray(_) => {
                    assert(ts[k] is Local && s1.ref_obj(ts[k]->Local_0) >= bound_obj);
                },
                NativeValue::I8Array(_) => {
                    assert(ts[k] is Local && s1.ref_obj(ts[k]->Local_0) >= bound_obj);
                },
                NativeValue::U8Array(_) => {
                    assert(ts[k] is Local && s1.ref_obj(ts[k]->Local_0) >= bound_obj);
                },
                NativeValue::I16Array(_) => {
                    assert(ts[k] is Local && s1.ref_obj(ts[k]->Local_0) >= bound_obj);
                },
                NativeValue::I32Array(_) => {
                    assert(ts[k] is Local && s1.ref_obj(ts[k]->Local_0) >= bound_obj);
                },
                NativeValue::I64Array(_) => {
                    assert(ts[k] is Local && s1.ref_obj(ts[k]->Local_0) >= bound_obj);
                },
                NativeValue::CharArray(_) => {
                    assert(ts[k] is Local && s1.ref_obj(ts[k]->Local_0) >= bound_obj);
                },
                NativeValue::StrArray(_) => {
                    assert(ts[k] is Local && s1.ref_obj(ts[k]->Local_0) >= bound_obj);
                },
                _ => {
                    assert(ts[k] == Temporary::Scalar(crate::values::scalar_to_jvalue(args[k])));
                    assert(!(jvs[k] matches JvmValue::Object(_)));
                },
            }
        }
    }
}

/// Temporaries created before a call stay live and distinct through the
/// call and the result conversion, which only touch other references.
proof fn lemma_temps_survive(pre: JvmSim, post: JvmSim, ts: Seq<Temporary>)
    requires
        crate::marshal::temps_live(pre, ts),
        post.refs@.len() >= pre.refs@.len(),
        forall|rr: int| 0 <= rr < pre.refs@.len() ==> post.refs@[rr] == pre.refs@[rr],
    ensures
        crate::marshal::temps_live(post, ts),
{
    assert forall|i: int|
        0 <= i < ts.len() && (#[trigger] ts[i]) is Local implies post.ref_live(
        ts[i]->Local_0,
    ) by {
        let r = ts[i]->Local_0;
        assert(pre.ref_live(r));
        assert(post.refs@[r as int] == pre.refs@[r as int]);
    }
}


/// Performs a static call: resolves the class by its slash-separated name
/// (the lookup's reference lives only for this call), builds the
/// signature, stages the arguments, invokes the static method, polls for
/// a pending exception, converts the result, and releases the class
/// reference and every temporary.
pub fn call_static(
    env: &mut JvmSim,
    class_name: &str,
    method: &str,
    args: &Vec<NativeValue>,
    ret: &NativeType,
) -> (res: Result<NativeValue, JniError>)
    requires
        old(env).wf(),
        old(env).pending is None,
    ensures
        final(env).wf(),
        final(env).pending is None,
        final(env).classes@ == old(env).classes@,
        final(env).objects@.len() >= old(env).objects@.len(),
        forall|rr: int| 0 <= rr < old(env).refs@.len() ==> final(env).refs@[rr] == old(env).refs@[rr],
        final(env).refs@.len() >= old(env).refs@.len(),
        (forall|k: int| 0 <= k < args@.len() ==> !((#[trigger] args@[k]) is Obj)) ==> forall|
            i: int,
        | 0 <= i < old(env).objects@.len() ==> final(env).objects@[i] == old(env).objects@[i],
        final(env).live_refs() == old(env).live_refs() + owned_by_result(res),
        res matches Ok(v) ==> (v matches NativeValue::Obj(h) ==> (h.target matches Some(hr)
            ==> final(env).ref_is_obj(hr) && hr >= old(env).refs@.len())),
        has_dot(value_sig_of(args@, *ret)) ==> res == Err::<NativeValue, JniError>(
            JniError::BadDescriptor,
        ) && old(env).unchanged(*final(env)),
        !has_dot(value_sig_of(args@, *ret)) ==> {
            &&& !class_found(old(env).classes@, class_name@) ==> res == Err::<
                NativeValue,
                JniError,
            >(JniError::ClassNotFound)
            &&& forall|ci: int|
                #[trigger] class_first_match(old(env).classes@, class_name@, ci) ==> {
                    &&& (exists|i: int| 0 <= i < args@.len() && (#[trigger] args@[i]) is Unit)
                        ==> res == Err::<NativeValue, JniError>(JniError::UnsupportedType)
                    &&& (forall|i: int|
                        0 <= i < args@.len() ==> !((#[trigger] args@[i]) is Unit)) ==> {
                        &&& !method_found(
                            old(env).classes@[ci].methods@,
                            method@,
                            value_sig_of(args@, *ret),
                            true,
                        ) ==> res == Err::<NativeValue, JniError>(JniError::MethodNotFound)
                        &&& forall|mi: int|
                            method_first_match(
                                old(env).classes@[ci].methods@,
                                method@,
                                value_sig_of(args@, *ret),
                                true,
                                mi,
                            ) ==> call_result_ok(
                                *old(env),
                                *final(env),
                                None,
                                (#[trigger] old(env).classes@[ci].methods@[mi]).behavior,
                                args@,
                                *ret,
                                res,
                            )
                    }
                }
        },
{
    let sig = value_signature(args, ret);
    if crate::signature::descriptor_has_dot(sig.as_str()) {
        return Err(JniError::BadDescriptor);
    }
    let cr: usize;
    match env.find_class(class_name) {
        Ok(c) => {
            cr = c;
        },
        Err(e) => {
            return Err(e);
        },
    }
    let cls = JClassWrapper { cls: cr };
    let ghost s0 = *env;
    let ts: Vec<Temporary>;
    match marshal_args(env, args) {
        Ok(t) => {
            ts = t;
        },
        Err(e) => {
            cls.release(env);
            return Err(e);
        },
    }
    let ghost s1 = *env;
    let jvs = jvalues_of(&ts);
    let ghost tsnap = ts@;
    proof {
        lemma_class_bridge(s0, s1, cr);
        assert(cr < s1.refs@.len());
        assert forall|rr: int| temp_owns_ref(tsnap, rr) implies s0.refs@.len() <= rr
            < s1.refs@.len() by {
            let i = choose|i: int|
                {
                    &&& 0 <= i < tsnap.len()
                    &&& (#[trigger] tsnap[i]) matches Temporary::Local(r)
                    &&& r == rr
                };
            assert(s1.ref_live(tsnap[i]->Local_0));
        }
        assert(!temp_owns_ref(tsnap, cr as int));
        assert(cr == old(env).refs@.len());
    }
    let jvr = env.call_static_method(cr, method, sig.as_str(), &jvs);
    let ghost s2 = *env;
    proof {
        lemma_class_bridge(s1, s2, cr);
    }
    if env.exception_check() {
        env.exception_clear();
        match jvr {
            Ok(JvmValue::Object(Some(nr))) => {
                let _ = env.delete_local_ref(nr);
            },
            _ => {},
        }
        let ghost sB = *env;
        proof {
            lemma_temps_survive(s1, *env, tsnap);
            assert(env.refs@[cr as int] == s2.refs@[cr as int]);
            assert(sB.ref_is_class(cr));
        }
        release_temps(env, ts);
        let ghost sC = *env;
        proof {
            assert(env.refs@[cr as int] == sB.refs@[cr as int]);
            assert(env.ref_is_class(cr));
        }
        let cls2 = JClassWrapper { cls: cr };
        cls2.release(env);
        proof {
            assert forall|rr: int|
                0 <= rr < old(env).refs@.len() implies env.refs@[rr] == old(env).refs@[rr] by {
                assert(rr != cr as int);
                assert(env.refs@[rr] == sC.refs@[rr]);
                assert(!temp_owns_ref(tsnap, rr));
                assert(sC.refs@[rr] == sB.refs@[rr]);
                assert(sB.refs@[rr] == s2.refs@[rr]);
                assert(s2.refs@[rr] == s1.refs@[rr]);
                assert(s1.refs@[rr] == s0.refs@[rr]);
            }
            if (forall|k: int| 0 <= k < args@.len() ==> !((#[trigger] args@[k]) is Unit)) && (
            forall|k: int| 0 <= k < args@.len() ==> !((#[trigger] args@[k]) is Obj)) {
                lemma_args_target_fresh(
                    s1,
                    tsnap,
                    args@,
                    jvs@,
                    old(env).objects@.len() as int,
                );
                assert forall|i: int|
                    0 <= i < old(env).objects@.len() implies env.objects@[i] == old(
                    env,
                ).objects@[i] by {
                    assert(!crate::runtime::arg_targets(s1, jvs@, i));
                    assert(s2.objects@[i] == s1.objects@[i]);
                    assert(s1.objects@[i] == s0.objects@[i]);
                }
            }
        }
        return Err(JniError::PendingException);
    }
    let conv: Result<NativeValue, JniError>;
    match jvr {
        Ok(jv) => {
            conv = crate::marshal::to_rust(env, jv, ret);
        },
        Err(e) => {
            conv = Err(e);
        },
    }
    let ghost s3 = *env;
    proof {
        lemma_temps_survive(s1, *env, tsnap);
        assert(env.refs@[cr as int] == s2.refs@[cr as int]);
        assert(s3.ref_is_class(cr));
    }
    release_temps(env, ts);
    proof {
        assert(env.refs@[cr as int] == s3.refs@[cr as int]);
        assert(env.ref_is_class(cr));
        match &conv {
            Ok(v) => match v {
                NativeValue::Obj(h) => match &h.target {
                    Some(hr) => {
                        assert(*hr >= s1.refs@.len());
                        assert(!temp_owns_ref(tsnap, *hr as int));
                        assert(env.refs@[*hr as int] == s3.refs@[*hr as int]);
                        assert(env.ref_is_obj(*hr));
                        assert(*hr != cr);
                    },
                    None => {},
                },
                _ => {},
            },
            Err(_) => {},
        }
    }
    cls.release(env);
    proof {
        lemma_temps_outside_prefix(tsnap, old(env).refs@.len() as int);
        assert forall|rr: int|
            0 <= rr < old(env).refs@.len() implies env.refs@[rr] == old(env).refs@[rr] by {
            assert(rr != cr as int);
            assert(!temp_owns_ref(tsnap, rr));
            assert(env.refs@[rr] == s3.refs@[rr]);
            assert(s3.refs@[rr] == s2.refs@[rr]);
            assert(s2.refs@[rr] == s1.refs@[rr]);
            assert(s1.refs@[rr] == s0.refs@[rr]);
        }
        if (forall|k: int| 0 <= k < args@.len() ==> !((#[trigger] args@[k]) is Unit)) && (forall|
            k: int,
        | 0 <= k < args@.len() ==> !((#[trigger] args@[k]) is Obj)) {
            lemma_args_target_fresh(s1, tsnap, args@, jvs@, old(env).objects@.len() as int);
            assert forall|i: int|
                0 <= i < old(env).objects@.len() implies env.objects@[i] == old(
                env,
            ).objects@[i] by {
                assert(!crate::runtime::arg_targets(s1, jvs@, i));
                assert(s2.objects@[i] == s1.objects@[i]);
                assert(s1.objects@[i] == s0.objects@[i]);
                assert(s3.objects@[i] == s2.objects@[i]);
            }
        }
        let pre = *old(env);
        let rc = s1.ref_class(cr) as int;
        assert(class_first_match(pre.classes@, class_name@, rc));
        assert forall|ci: int, mi: int|
            class_first_match(pre.classes@, class_name@, ci) && method_first_match(
                pre.classes@[ci].methods@,
                method@,
                value_sig_of(args@, *ret),
                true,
                mi,
            ) implies call_result_ok(
            pre,
            *env,
            None,
            pre.classes@[ci].methods@[mi].behavior,
            args@,
            *ret,
            conv,
        ) by {
            assert(pre.classes@[ci].name@ == class_name@);
            assert(pre.classes@[rc].name@ == class_name@);
            if ci < rc {
                assert(pre.classes@[ci].name@ != class_name@);
            }
            if rc < ci {
                assert(pre.classes@[rc].name@ != class_name@);
            }
            assert(ci == rc);
            assert(crate::runtime::class_wf(pre.classes@[ci]));
            assert(crate::runtime::behavior_ok(pre.classes@[ci].methods@[mi].behavior));
            assert(behavior_outcome(
                s1,
                s2,
                None,
                pre.classes@[ci].methods@[mi].behavior,
                jvs@,
                jvr,
            ));
            lemma_value_outcome(
                pre,
                s1,
                s2,
                *env,
                None,
                pre.classes@[ci].methods@[mi].behavior,
                args@,
                tsnap,
                jvs@,
                *ret,
                jvr,
                conv,
            );
        }
    }
    conv
}

/// Performs a constructor call: resolves the class, builds the
/// constructor signature (argument descriptors and a void return), stages
/// the arguments, allocates the instance, polls for a pending exception,
/// and wraps the new instance's reference as an owned object handle.
pub fn call_constructor(env: &mut JvmSim, class_name: &str, args: &Vec<NativeValue>) -> (res:
    Result<ObjectHandle, JniError>)
    requires
        old(env).wf(),
        old(env).pending is None,
    ensures
        final(env).wf(),
        final(env).pending is None,
        final(env).classes@ == old(env).classes@,
        final(env).objects@.len() >= old(env).objects@.len(),
        forall|rr: int| 0 <= rr < old(env).refs@.len() ==> final(env).refs@[rr] == old(env).refs@[rr],
        final(env).refs@.len() >= old(env).refs@.len(),
        forall|i: int| 0 <= i < old(env).objects@.len() ==> final(env).objects@[i] == old(env).objects@[i],
        final(env).live_refs() == old(env).live_refs() + (match res {
            Ok(_) => 1nat,
            Err(_) => 0nat,
        }),
        res matches Ok(h) ==> {
            &&& h.class@ == class_name@
            &&& h.target matches Some(hr)
            &&& hr >= old(env).refs@.len()
            &&& final(env).ref_is_obj(hr)
            &&& final(env).objects@[final(env).ref_obj(hr) as int].class@ == class_name@
            &&& final(env).objects@[final(env).ref_obj(hr) as int].payload matches Payload::Plain(
                fs,
            ) && fs@.len() == 0
        },
        has_dot(value_sig_of(args@, NativeType::Unit)) ==> res == Err::<ObjectHandle, JniError>(
            JniError::BadDescriptor,
        ) && old(env).unchanged(*final(env)),
        !has_dot(value_sig_of(args@, NativeType::Unit)) ==> {
            &&& !class_found(old(env).classes@, class_name@) ==> res == Err::<
                ObjectHandle,
                JniError,
            >(JniError::ClassNotFound)
            &&& forall|ci: int|
                #[trigger] class_first_match(old(env).classes@, class_name@, ci) ==> {
                    &&& (exists|i: int| 0 <= i < args@.len() && (#[trigger] args@[i]) is Unit)
                        ==> res == Err::<ObjectHandle, JniError>(JniError::UnsupportedType)
                    &&& (forall|i: int|
                        0 <= i < args@.len() ==> !((#[trigger] args@[i]) is Unit)) ==> {
                        &&& !ctor_listed(
                            old(env).classes@[ci].ctor_sigs@,
                            value_sig_of(args@, NativeType::Unit),
                        ) ==> res == Err::<ObjectHandle, JniError>(JniError::MethodNotFound)
                        &&& ctor_listed(
                            old(env).classes@[ci].ctor_sigs@,
                            value_sig_of(args@, NativeType::Unit),
                        ) ==> (res matches Ok(h) && final(env).objects@[final(env).ref_obj(
                            h.target->0,
                        ) as int].class == old(env).classes@[ci].name)
                    }
                }
        },
{
    let ret = NativeType::Unit;
    let sig = value_signature(args, &ret);
    if crate::signature::descriptor_has_dot(sig.as_str()) {
        return Err(JniError::BadDescriptor);
    }
    let cr: usize;
    match env.find_class(class_name) {
        Ok(c) => {
            cr = c;
        },
        Err(e) => {
            return Err(e);
        },
    }
    let cls = JClassWrapper { cls: cr };
    let ghost s0 = *env;
    let ts: Vec<Temporary>;
    match marshal_args(env, args) {
        Ok(t) => {
            ts = t;
        },
        Err(e) => {
            proof {
                lemma_class_bridge(s0, *env, cr);
            }
            cls.release(env);
            return Err(e);
        },
    }
    let ghost s1 = *env;
    let jvs = jvalues_of(&ts);
    let ghost tsnap = ts@;
    proof {
        lemma_class_bridge(s0, s1, cr);
        assert(cr < s1.refs@.len());
        assert forall|rr: int| temp_owns_ref(tsnap, rr) implies s0.refs@.len() <= rr
            < s1.refs@.len() by {
            let i = choose|i: int|
                {
                    &&& 0 <= i < tsnap.len()
                    &&& (#[trigger] tsnap[i]) matches Temporary::Local(r)
                    &&& r == rr
                };
            assert(s1.ref_live(tsnap[i]->Local_0));
        }
        assert(!temp_owns_ref(tsnap, cr as int));
        assert(cr == old(env).refs@.len());
    }
    let nr: usize;
    match env.new_object(cr, sig.as_str(), &jvs) {
        Ok(r) => {
            nr = r;
        },
        Err(e) => {
            let ghost sB = *env;
            proof {
                lemma_temps_survive(s1, *env, tsnap);
                lemma_class_bridge(s1, sB, cr);
            }
            release_temps(env, ts);
            let ghost sC = *env;
            proof {
                assert(env.refs@[cr as int] == sB.refs@[cr as int]);
                assert(env.ref_is_class(cr));
            }
            let cls2 = JClassWrapper { cls: cr };
            cls2.release(env);
            proof {
                lemma_temps_outside_prefix(tsnap, old(env).refs@.len() as int);
                assert forall|rr: int|
                    0 <= rr < old(env).refs@.len() implies env.refs@[rr] == old(env).refs@[rr] by {
                    assert(rr != cr as int);
                    assert(!temp_owns_ref(tsnap, rr));
                    assert(env.refs@[rr] == sC.refs@[rr]);
                    assert(sC.refs@[rr] == sB.refs@[rr]);
                    assert(sB.refs@[rr] == s1.refs@[rr]);
                    assert(s1.refs@[rr] == s0.refs@[rr]);
                }
            }
            return Err(e);
        },
    }
    let ghost s2 = *env;
    proof {
        lemma_temps_survive(s1, *env, tsnap);
        lemma_class_bridge(s1, s2, cr);
        assert(!temp_owns_ref(tsnap, nr as int));
    }
    release_temps(env, ts);
    let ghost s3 = *env;
    proof {
        assert(env.refs@[cr as int] == s2.refs@[cr as int]);
        assert(env.ref_is_class(cr));
        assert(env.refs@[nr as int] == s2.refs@[nr as int]);
        assert(nr != cr);
    }
    let cls3 = JClassWrapper { cls: cr };
    cls3.release(env);
    proof {
        lemma_temps_outside_prefix(tsnap, old(env).refs@.len() as int);
        assert forall|rr: int|
            0 <= rr < old(env).refs@.len() implies env.refs@[rr] == old(env).refs@[rr] by {
            assert(rr != cr as int);
            assert(!temp_owns_ref(tsnap, rr));
            assert(env.refs@[rr] == s3.refs@[rr]);
            assert(s3.refs@[rr] == s2.refs@[rr]);
            assert(s2.refs@[rr] == s1.refs@[rr]);
            assert(s1.refs@[rr] == s0.refs@[rr]);
        }
        assert(nr >= old(env).refs@.len());
    }
    Ok(ObjectHandle { class: String::from_str(class_name), target: Some(nr) })
}

/// Reads a field of the target object by name, with the field signature
/// derived from the wanted native type, and converts the value.
pub fn get_field_value(
    env: &mut JvmSim,
    target: &ObjectHandle,
    name: &str,
    ty: &NativeType,
) -> (res: Result<NativeValue, JniError>)
    requires
        old(env).wf(),
        old(env).pending is None,
    ensures
        final(env).wf(),
        final(env).pending is None,
        final(env).classes@ == old(env).classes@,
        final(env).objects@.len() >= old(env).objects@.len(),
        forall|rr: int| 0 <= rr < old(env).refs@.len() ==> final(env).refs@[rr] == old(env).refs@[rr],
        final(env).refs@.len() >= old(env).refs@.len(),
        forall|i: int| 0 <= i < old(env).objects@.len() ==> final(env).objects@[i] == old(env).objects@[i],
        final(env).live_refs() == old(env).live_refs() + owned_by_result(res),
        res matches Ok(v) ==> (v matches NativeValue::Obj(h) ==> (h.target matches Some(hr)
            ==> final(env).ref_is_obj(hr) && hr >= old(env).refs@.len())),
        has_dot(descriptor_of(*ty)) ==> res == Err::<NativeValue, JniError>(
            JniError::BadDescriptor,
        ) && old(env).unchanged(*final(env)),
        !has_dot(descriptor_of(*ty)) ==> {
            &&& target.target is None ==> res == Err::<NativeValue, JniError>(
                JniError::InvalidReference,
            )
            &&& target.target matches Some(tr) ==> {
                &&& !old(env).ref_is_obj(tr) ==> res == Err::<NativeValue, JniError>(
                    JniError::InvalidReference,
                )
                &&& old(env).ref_is_obj(tr) ==> match old(env).objects@[old(env).ref_obj(
                    tr,
                ) as int].payload {
                    Payload::Plain(fs) => {
                        &&& !crate::runtime::field_found(fs@, name@, descriptor_of(*ty)) ==> res
                            == Err::<NativeValue, JniError>(JniError::FieldNotFound)
                        &&& forall|fi: int|
                            crate::runtime::field_first_match(
                                fs@,
                                name@,
                                descriptor_of(*ty),
                                fi,
                            ) ==> match (#[trigger] fs@[fi]).value {
                                JvmValue::Object(Some(tid)) => crate::marshal::object_converts(
                                    *old(env),
                                    tid,
                                    *ty,
                                    res,
                                ),
                                v => converts_to(*old(env), v, *ty, res),
                            }
                    },
                    _ => res == Err::<NativeValue, JniError>(JniError::TypeMismatch),
                }
            }
        },
{
    let sig = crate::signature::signature_for(ty);
    if crate::signature::descriptor_has_dot(sig.as_str()) {
        return Err(JniError::BadDescriptor);
    }
    let tr: usize;
    match target.target {
        None => {
            return Err(JniError::InvalidReference);
        },
        Some(t) => {
            tr = t;
        },
    }
    let jv: JvmValue;
    match env.get_field(tr, name, sig.as_str()) {
        Ok(x) => {
            jv = x;
        },
        Err(e) => {
            return Err(e);
        },
    }
    crate::marshal::to_rust(env, jv, ty)
}

/// The stored field slot stands for the written native value: scalars are
/// stored boxed; strings and arrays are stored as the id of a staged
/// object with the converted contents; an object handle is stored as the
/// id its reference resolves to.
pub open spec fn stored_value_ok(
    pre: JvmSim,
    post: JvmSim,
    v: NativeValue,
    stored: JvmValue,
) -> bool {
    match v {
        NativeValue::Unit => true,
        NativeValue::Str(x) => {
            &&& stored matches JvmValue::Object(oo)
            &&& oo matches Some(oid)
            &&& oid < post.objects@.len()
            &&& post.objects@[oid as int].payload matches Payload::Str(c)
            &&& c@ == x@
        },
        NativeValue::BoolArray(x) => {
            &&& stored matches JvmValue::Object(oo)
            &&& oo matches Some(oid)
            &&& oid < post.objects@.len()
            &&& post.objects@[oid as int].payload matches Payload::Arr(
                crate::runtime::ArrData::Bools(b),
            )
            &&& b@ == x@
        },
        NativeValue::I8Array(x) => {
            &&& stored matches JvmValue::Object(oo)
            &&& oo matches Some(oid)
            &&& oid < post.objects@.len()
            &&& post.objects@[oid as int].payload matches Payload::Arr(
                crate::runtime::ArrData::Bytes(b),
            )
            &&& b@ == x@
        },
        NativeValue::U8Array(x) => {
            &&& stored matches JvmValue::Object(oo)
            &&& oo matches Some(oid)
            &&& oid < post.objects@.len()
            &&& post.objects@[oid as int].payload matches Payload::Arr(
                crate::runtime::ArrData::Bytes(b),
            )
            &&& b@ == crate::marshal::bytes_of_u8s(x@)
        },
        NativeValue::I16Array(x) => {
            &&& stored matches JvmValue::Object(oo)
            &&& oo matches Some(oid)
            &&& oid < post.objects@.len()
            &&& post.objects@[oid as int].payload matches Payload::Arr(
                crate::runtime::ArrData::Shorts(b),
            )
            &&& b@ == x@
        },
        NativeValue::I32Array(x) => {
            &&& stored matches JvmValue::Object(oo)
            &&& oo matches Some(oid)
            &&& oid < post.objects@.len()
            &&& post.objects@[oid as int].payload matches Payload::Arr(
                crate::runtime::ArrData::Ints(b),
            )
            &&& b@ == x@
        },
        NativeValue::I64Array(x) => {
            &&& stored matches JvmValue::Object(oo)
            &&& oo matches Some(oid)
            &&& oid < post.objects@.len()
            &&& post.objects@[oid as int].payload matches Payload::Arr(
                crate::runtime::ArrData::Longs(b),
            )
            &&& b@ == x@
        },
        NativeValue::CharArray(x) => {
            &&& stored matches JvmValue::Object(oo)
            &&& oo matches Some(oid)
            &&& oid < post.objects@.len()
            &&& post.objects@[oid as int].payload matches Payload::Arr(
                crate::runtime::ArrData::Chars(b),
            )
            &&& b@ == crate::marshal::units_of_chars(x@)
        },
        NativeValue::StrArray(x) => {
            &&& stored matches JvmValue::Object(oo)
            &&& oo matches Some(oid)
            &&& oid < post.objects@.len()
            &&& post.objects@[oid as int].payload matches Payload::ObjArr(items)
            &&& items@.len() == x@.len()
            &&& forall|i: int|
                0 <= i < items@.len() ==> {
                    &&& (#[trigger] items@[i]) matches Some(sid)
                    &&& sid < post.objects@.len()
                    &&& post.objects@[sid as int].payload matches Payload::Str(c)
                    &&& c@ == x@[i]@
                }
        },
        NativeValue::Obj(h) => match h.target {
            Some(hh) => pre.ref_is_obj(hh) ==> stored == JvmValue::Object(
                Some(pre.ref_obj(hh)),
            ),
            None => stored == JvmValue::Object(None),
        },
        _ => stored == crate::values::scalar_to_jvalue(v),
    }
}

/// Writes a field of the target object by name: the new value is staged
/// like a call argument, stored (resolved to its object id when it is an
/// allocated temporary), and the temporary is released afterwards.  The
/// field signature is derived from the value.
pub fn set_field_value(
    env: &mut JvmSim,
    target: &ObjectHandle,
    name: &str,
    new_val: &NativeValue,
) -> (res: Result<(), JniError>)
    requires
        old(env).wf(),
        old(env).pending is None,
    ensures
        final(env).wf(),
        final(env).pending is None,
        final(env).classes@ == old(env).classes@,
        final(env).objects@.len() >= old(env).objects@.len(),
        forall|rr: int| 0 <= rr < old(env).refs@.len() ==> final(env).refs@[rr] == old(env).refs@[rr],
        final(env).refs@.len() >= old(env).refs@.len(),
        forall|i: int|
            0 <= i < old(env).objects@.len() && !(target.target matches Some(tr) && old(
                env,
            ).ref_is_obj(tr) && i == old(env).ref_obj(tr) as int) ==> final(env).objects@[i]
                == old(env).objects@[i],
        final(env).live_refs() == old(env).live_refs(),
        has_dot(descriptor_of_value(*new_val)) ==> res == Err::<(), JniError>(
            JniError::BadDescriptor,
        ) && old(env).unchanged(*final(env)),
        !has_dot(descriptor_of_value(*new_val)) ==> {
            &&& target.target is None ==> res == Err::<(), JniError>(JniError::InvalidReference)
            &&& target.target matches Some(tr) ==> {
                &&& !old(env).ref_is_obj(tr) ==> res == Err::<(), JniError>(
                    JniError::InvalidReference,
                )
                &&& old(env).ref_is_obj(tr) ==> {
                    &&& new_val is Unit ==> res == Err::<(), JniError>(JniError::UnsupportedType)
                    &&& !(new_val is Unit) ==> ((new_val matches NativeValue::Obj(h) ==> (
                    h.target matches Some(hh) ==> old(env).ref_is_obj(hh))) ==> match old(
                        env,
                    ).objects@[old(env).ref_obj(tr) as int].payload {
                    Payload::Plain(fs) => {
                        &&& !crate::runtime::field_found(
                            fs@,
                            name@,
                            descriptor_of_value(*new_val),
                        ) ==> res == Err::<(), JniError>(JniError::FieldNotFound)
                        &&& forall|fi: int|
                            #[trigger] crate::runtime::field_first_match(
                                fs@,
                                name@,
                                descriptor_of_value(*new_val),
                                fi,
                            ) ==> {
                                &&& res is Ok
                                &&& final(env).objects@[old(env).ref_obj(tr) as int].payload
                                    matches Payload::Plain(fs2)
                                &&& fs2@.len() == fs@.len()
                                &&& forall|k: int|
                                    0 <= k < fs@.len() && k != fi ==> fs2@[k] == fs@[k]
                                &&& fs2@[fi].name@ == fs@[fi].name@
                                &&& fs2@[fi].sig@ == fs@[fi].sig@
                                &&& stored_value_ok(
                                    *old(env),
                                    *final(env),
                                    *new_val,
                                    fs2@[fi].value,
                                )
                                &&& crate::values::is_scalar_value(*new_val) ==> fs2@
                                    == crate::runtime::update_field_vec(
                                    fs@,
                                    fi,
                                    crate::values::scalar_to_jvalue(*new_val),
                                )
                            }
                    },
                    _ => res == Err::<(), JniError>(JniError::TypeMismatch),
                })
                }
            }
        },
{
    let sig = crate::marshal::signature_for_value(new_val);
    if crate::signature::descriptor_has_dot(sig.as_str()) {
        return Err(JniError::BadDescriptor);
    }
    let tr: usize;
    match target.target {
        None => {
            return Err(JniError::InvalidReference);
        },
        Some(t) => {
            tr = t;
        },
    }
    if !env.valid_obj_ref(tr) {
        return Err(JniError::InvalidReference);
    }
    let t: Temporary;
    match crate::marshal::into_temporary(env, new_val) {
        Ok(x) => {
            t = x;
        },
        Err(e) => {
            return Err(e);
        },
    }
    let ghost s1 = *env;
    let jv = crate::marshal::temporary_into_jvalue(&t);
    let sres = env.set_field(tr, name, sig.as_str(), jv);
    proof {
        match t {
            Temporary::Local(r) => {
                assert(env.refs@[r as int] == s1.refs@[r as int]);
            },
            _ => {},
        }
    }
    crate::marshal::release_temporary(env, t);
    sres
}

} // verus!
