//! A simulated host runtime: the JVM-side collaborator of the marshalling
//! core, modelled explicitly as a state machine over plain values.
//!
//! The runtime owns an object store, a local-reference table, a class table
//! that scripts what each method does when invoked, and a pending-exception
//! flag that must be polled explicitly after invoking operations.  Every
//! reference handed out is a fresh entry in the reference table; releasing
//! a reference twice, or using a released one, is an error.  The live count
//! of the table is the probe that leak-freedom contracts and tests are
//! stated against.

use vstd::prelude::*;

use crate::error::JniError;
use crate::values::JvmValue;

verus! {

/// Contents of a primitive array object, one variant per JVM element type.
/// Characters are stored as UTF-16 code units, booleans as native booleans.
#[derive(Debug)]
pub enum ArrData {
    Bools(Vec<bool>),
    Bytes(Vec<i8>),
    Chars(Vec<u16>),
    Shorts(Vec<i16>),
    Ints(Vec<i32>),
    Longs(Vec<i64>),
}

/// The length of a primitive array's contents.
pub open spec fn arr_len(a: ArrData) -> nat {
    match a {
        ArrData::Bools(v) => v@.len(),
        ArrData::Bytes(v) => v@.len(),
        ArrData::Chars(v) => v@.len(),
        ArrData::Shorts(v) => v@.len(),
        ArrData::Ints(v) => v@.len(),
        ArrData::Longs(v) => v@.len(),
    }
}

/// True when two primitive arrays have the same element type.
pub open spec fn arr_same_kind(a: ArrData, b: ArrData) -> bool {
    match (a, b) {
        (ArrData::Bools(_), ArrData::Bools(_)) => true,
        (ArrData::Bytes(_), ArrData::Bytes(_)) => true,
        (ArrData::Chars(_), ArrData::Chars(_)) => true,
        (ArrData::Shorts(_), ArrData::Shorts(_)) => true,
        (ArrData::Ints(_), ArrData::Ints(_)) => true,
        (ArrData::Longs(_), ArrData::Longs(_)) => true,
        _ => false,
    }
}

/// One named, typed field of a simulated object.  Object-valued fields
/// store object ids of the object store, never reference ids.
#[derive(Debug)]
pub struct FieldSlot {
    pub name: String,
    pub sig: String,
    pub value: JvmValue,
}

/// What a simulated object is: a plain object with fields, a string, a
/// primitive array, an object array, an iterable, a live iterator over an
/// iterable's items, or a class object answering the `isArray` question.
#[derive(Debug)]
pub enum Payload {
    Plain(Vec<FieldSlot>),
    Str(String),
    Arr(ArrData),
    ObjArr(Vec<Option<usize>>),
    List(Vec<Option<usize>>),
    Iter { items: Vec<Option<usize>>, pos: usize },
    ClassObj { is_array: bool },
}

/// An entry of the object store.
#[derive(Debug)]
pub struct ObjectData {
    /// Slash-separated class name.
    pub class: String,
    pub payload: Payload,
}

/// What a local reference points at: an object of the store or a class of
/// the class table.
#[derive(Clone, Copy, PartialEq, Eq, Structural, Debug)]
pub enum RefTarget {
    Obj(usize),
    Class(usize),
}

/// One slot of the local-reference table.  A released slot stays in the
/// table but is dead; handing out a dead reference again would break the
/// release-exactly-once discipline.
#[derive(Clone, Copy, PartialEq, Eq, Structural, Debug)]
pub struct RefEntry {
    pub target: RefTarget,
    pub live: bool,
}

/// What an invoked method does on the simulated runtime.
#[derive(Debug)]
pub enum Behavior {
    /// Return void.
    ReturnVoid,
    /// Return a canned non-reference value.
    ReturnScalar(JvmValue),
    /// Allocate a fresh string object and return a reference to it.
    ReturnNewString(String),
    /// Return the value of the named field of the receiver, as a fresh
    /// reference when the field is object-valued.
    ReturnField(String),
    /// Overwrite the contents of the primitive array passed as the given
    /// argument, then return void: the mutation that copy-back exists for.
    WriteArray { arg: usize, data: ArrData },
    /// Allocate an exception object of the named class, leave it pending,
    /// and return a nominal void result.
    Throw(String),
}

/// A method of a simulated class.
#[derive(Debug)]
pub struct MethodDef {
    pub name: String,
    pub sig: String,
    pub is_static: bool,
    pub behavior: Behavior,
}

/// A class of the simulated runtime: its slash-separated name, its scripted
/// methods, and the signatures its constructors accept.
#[derive(Debug)]
pub struct ClassDef {
    pub name: String,
    pub methods: Vec<MethodDef>,
    pub ctor_sigs: Vec<String>,
}

/// The simulated host runtime.
#[derive(Debug)]
pub struct JvmSim {
    pub classes: Vec<ClassDef>,
    pub objects: Vec<ObjectData>,
    pub refs: Vec<RefEntry>,
    /// Object id of the pending exception, if one is pending.
    pub pending: Option<usize>,
}

/// Every object id stored inside a payload stays within the first `n`
/// entries of the object store.
pub open spec fn payload_wf(p: Payload, n: nat) -> bool {
    match p {
        Payload::Plain(fs) => forall|i: int|
            0 <= i < fs@.len() ==> match (#[trigger] fs@[i]).value {
                JvmValue::Object(Some(oid)) => oid < n,
                _ => true,
            },
        Payload::ObjArr(items) => forall|i: int|
            0 <= i < items@.len() ==> match #[trigger] items@[i] {
                Some(oid) => oid < n,
                None => true,
            },
        Payload::List(items) => forall|i: int|
            0 <= i < items@.len() ==> match #[trigger] items@[i] {
                Some(oid) => oid < n,
                None => true,
            },
        Payload::Iter { items, pos } => forall|i: int|
            0 <= i < items@.len() ==> match #[trigger] items@[i] {
                Some(oid) => oid < n,
                None => true,
            },
        _ => true,
    }
}

/// A scripted canned result never carries an object reference: references
/// are only ever handed out fresh.
pub open spec fn behavior_ok(b: Behavior) -> bool {
    match b {
        Behavior::ReturnScalar(jv) => !(jv matches JvmValue::Object(Some(_))),
        _ => true,
    }
}

/// Every scripted method of the class has a well-formed behavior.
pub open spec fn class_wf(c: ClassDef) -> bool {
    forall|i: int| 0 <= i < c.methods@.len() ==> behavior_ok((#[trigger] c.methods@[i]).behavior)
}

/// Payload well-formedness is monotone in the store length.
pub proof fn lemma_payload_wf_mono(p: Payload, n: nat, m: nat)
    requires
        payload_wf(p, n),
        n <= m,
    ensures
        payload_wf(p, m),
{
}

/// The number of live entries of a reference table.
pub open spec fn live_count(refs: Seq<RefEntry>) -> nat
    decreases refs.len(),
{
    if refs.len() == 0 {
        0
    } else {
        live_count(refs.drop_last()) + if refs.last().live {
            1nat
        } else {
            0nat
        }
    }
}

/// Appending an entry adds its liveness to the count.
pub proof fn lemma_live_count_push(refs: Seq<RefEntry>, e: RefEntry)
    ensures
        live_count(refs.push(e)) == live_count(refs) + if e.live {
            1nat
        } else {
            0nat
        },
{
    assert(refs.push(e).drop_last() =~= refs);
}

/// Replacing one entry changes the count by the difference of liveness.
pub proof fn lemma_live_count_update(refs: Seq<RefEntry>, i: int, e: RefEntry)
    requires
        0 <= i < refs.len(),
    ensures
        live_count(refs.update(i, e)) + if refs[i].live {
            1nat
        } else {
            0nat
        } == live_count(refs) + if e.live {
            1nat
        } else {
            0nat
        },
    decreases refs.len(),
{
    let u = refs.update(i, e);
    if i == refs.len() - 1 {
        assert(u.drop_last() =~= refs.drop_last());
    } else {
        assert(u.drop_last() =~= refs.drop_last().update(i, e));
        assert(u.last() == refs.last());
        lemma_live_count_update(refs.drop_last(), i, e);
    }
}

/// Counting the first `i + 1` entries extends counting the first `i`.
pub proof fn lemma_live_count_take(refs: Seq<RefEntry>, i: int)
    requires
        0 <= i < refs.len(),
    ensures
        live_count(refs.take(i + 1)) == live_count(refs.take(i)) + if refs[i].live {
            1nat
        } else {
            0nat
        },
{
    assert(refs.take(i + 1).drop_last() =~= refs.take(i));
}

/// The contents of two primitive arrays are equal: same element type, same
/// element sequence.
pub open spec fn arr_eq(a: ArrData, b: ArrData) -> bool {
    match (a, b) {
        (ArrData::Bools(x), ArrData::Bools(y)) => x@ == y@,
        (ArrData::Bytes(x), ArrData::Bytes(y)) => x@ == y@,
        (ArrData::Chars(x), ArrData::Chars(y)) => x@ == y@,
        (ArrData::Shorts(x), ArrData::Shorts(y)) => x@ == y@,
        (ArrData::Ints(x), ArrData::Ints(y)) => x@ == y@,
        (ArrData::Longs(x), ArrData::Longs(y)) => x@ == y@,
        _ => false,
    }
}

/// Copies a vector of plain values element by element.
pub fn copy_vec<T: Copy>(v: &Vec<T>) -> (r: Vec<T>)
    ensures
        r@ == v@,
{
    let mut r: Vec<T> = Vec::new();
    let mut i: usize = 0;
    while i < v.len()
        invariant
            i <= v@.len(),
            r@ == v@.take(i as int),
        decreases v@.len() - i,
    {
        r.push(v[i]);
        proof {
            assert(v@.take(i + 1) =~= v@.take(i as int).push(v@[i as int]));
        }
        i = i + 1;
    }
    proof {
        assert(v@.take(v@.len() as int) =~= v@);
    }
    r
}

/// Copies the contents of a primitive array.
pub fn copy_arr(a: &ArrData) -> (r: ArrData)
    ensures
        arr_eq(r, *a),
{
    match a {
        ArrData::Bools(v) => ArrData::Bools(copy_vec(v)),
        ArrData::Bytes(v) => ArrData::Bytes(copy_vec(v)),
        ArrData::Chars(v) => ArrData::Chars(copy_vec(v)),
        ArrData::Shorts(v) => ArrData::Shorts(copy_vec(v)),
        ArrData::Ints(v) => ArrData::Ints(copy_vec(v)),
        ArrData::Longs(v) => ArrData::Longs(copy_vec(v)),
    }
}

impl JvmSim {
    /// Nothing observable changed between the two runtime states.
    pub open spec fn unchanged(self, other: Self) -> bool {
        &&& other.classes@ == self.classes@
        &&& other.objects@ == self.objects@
        &&& other.refs@ == self.refs@
        &&& other.pending == self.pending
    }

    /// The value a boundary argument denotes inside the object store:
    /// references resolve to object ids, everything else passes through.
    /// `None` when the argument holds a dead or out-of-range reference.
    pub open spec fn resolve_spec(self, v: JvmValue) -> Option<JvmValue> {
        match v {
            JvmValue::Object(Some(rr)) => if self.ref_is_obj(rr) {
                Some(JvmValue::Object(Some(self.ref_obj(rr))))
            } else {
                None
            },
            _ => Some(v),
        }
    }

    /// True when a reference id denotes a live local reference.
    pub open spec fn ref_live(self, r: usize) -> bool {
        r < self.refs@.len() && self.refs@[r as int].live
    }

    /// True when a reference id denotes a live reference to an object.
    pub open spec fn ref_is_obj(self, r: usize) -> bool {
        self.ref_live(r) && self.refs@[r as int].target is Obj
    }

    /// The object id a live object reference points at.
    pub open spec fn ref_obj(self, r: usize) -> usize
        recommends
            self.ref_is_obj(r),
    {
        self.refs@[r as int].target->Obj_0
    }

    /// True when a reference id denotes a live reference to a class.
    pub open spec fn ref_is_class(self, r: usize) -> bool {
        self.ref_live(r) && self.refs@[r as int].target is Class
    }

    /// The class index a live class reference points at.
    pub open spec fn ref_class(self, r: usize) -> usize
        recommends
            self.ref_is_class(r),
    {
        self.refs@[r as int].target->Class_0
    }

    /// The number of live local references: the leak probe.
    pub open spec fn live_refs(self) -> nat {
        live_count(self.refs@)
    }

    /// Reference targets stay within the stores they index.
    pub open spec fn wf(self) -> bool {
        &&& forall|r: int|
            0 <= r < self.refs@.len() ==> match #[trigger] self.refs@[r].target {
                RefTarget::Obj(o) => o < self.objects@.len(),
                RefTarget::Class(c) => c < self.classes@.len(),
            }
        &&& forall|o: int|
            0 <= o < self.objects@.len() ==> payload_wf(
                (#[trigger] self.objects@[o]).payload,
                self.objects@.len(),
            )
        &&& forall|c: int| 0 <= c < self.classes@.len() ==> class_wf(#[trigger] self.classes@[c])
        &&& self.pending matches Some(p) ==> p < self.objects@.len()
    }

    /// The class table, the pending flag and the first `n` objects are the
    /// same in `self` as in `other`, and `other`'s reference table extends
    /// `self`'s without touching existing entries.
    pub open spec fn extends(self, other: Self) -> bool {
        &&& other.classes@ == self.classes@
        &&& other.objects@.len() >= self.objects@.len()
        &&& forall|i: int| 0 <= i < self.objects@.len() ==> other.objects@[i] == self.objects@[i]
        &&& other.refs@.len() >= self.refs@.len()
        &&& forall|r: int| 0 <= r < self.refs@.len() ==> other.refs@[r] == self.refs@[r]
    }

    /// A fresh, empty runtime: no classes, no objects, no references, no
    /// pending exception.
    pub fn new() -> (r: JvmSim)
        ensures
            r.classes@.len() == 0,
            r.objects@.len() == 0,
            r.refs@.len() == 0,
            r.pending is None,
            r.wf(),
            r.live_refs() == 0,
    {
        JvmSim { classes: Vec::new(), objects: Vec::new(), refs: Vec::new(), pending: None }
    }

    /// Registers a class definition; test setup, not a downstream
    /// operation of the native interface.  A scripted canned result that
    /// carries an object reference is rejected: references are only ever
    /// handed out fresh.
    pub fn register_class(&mut self, c: ClassDef) -> (res: Result<(), JniError>)
        requires
            old(self).wf(),
        ensures
            final(self).wf(),
            class_wf(c) ==> {
                &&& res is Ok
                &&& final(self).classes@ == old(self).classes@.push(c)
            },
            !class_wf(c) ==> res == Err::<(), JniError>(JniError::TypeMismatch) && old(
                self,
            ).unchanged(*final(self)),
            final(self).objects@ == old(self).objects@,
            final(self).refs@ == old(self).refs@,
            final(self).pending == old(self).pending,
            final(self).live_refs() == old(self).live_refs(),
    {
        let mut i: usize = 0;
        while i < c.methods.len()
            invariant
                self == old(self),
                old(self).wf(),
                i <= c.methods@.len(),
                forall|j: int|
                    0 <= j < i ==> behavior_ok((#[trigger] c.methods@[j]).behavior),
            decreases c.methods@.len() - i,
        {
            match &c.methods[i].behavior {
                Behavior::ReturnScalar(jv) => match jv {
                    JvmValue::Object(Some(_)) => {
                        return Err(JniError::TypeMismatch);
                    },
                    _ => {},
                },
                _ => {},
            }
            i = i + 1;
        }
        self.classes.push(c);
        Ok(())
    }

    /// Pushes a fresh live reference to the given existing object and
    /// returns its id.
    fn push_obj_ref(&mut self, o: usize) -> (r: usize)
        requires
            old(self).wf(),
            o < old(self).objects@.len(),
        ensures
            final(self).wf(),
            r == old(self).refs@.len(),
            final(self).refs@ == old(self).refs@.push(
                RefEntry { target: RefTarget::Obj(o), live: true },
            ),
            final(self).objects@ == old(self).objects@,
            final(self).classes@ == old(self).classes@,
            final(self).pending == old(self).pending,
            final(self).live_refs() == old(self).live_refs() + 1,
            final(self).ref_is_obj(r) && final(self).ref_obj(r) == o,
    {
        let r = self.refs.len();
        self.refs.push(RefEntry { target: RefTarget::Obj(o), live: true });
        proof {
            lemma_live_count_push(
                old(self).refs@,
                RefEntry { target: RefTarget::Obj(o), live: true },
            );
        }
        r
    }

    /// Allocates a new object and returns a fresh live reference to it.
    fn alloc_object(&mut self, data: ObjectData) -> (r: usize)
        requires
            old(self).wf(),
            payload_wf(data.payload, old(self).objects@.len() + 1),
        ensures
            final(self).wf(),
            r == old(self).refs@.len(),
            final(self).objects@ == old(self).objects@.push(data),
            final(self).refs@ == old(self).refs@.push(
                RefEntry { target: RefTarget::Obj(old(self).objects@.len() as usize), live: true },
            ),
            final(self).classes@ == old(self).classes@,
            final(self).pending == old(self).pending,
            final(self).live_refs() == old(self).live_refs() + 1,
            final(self).ref_is_obj(r),
            final(self).ref_obj(r) == old(self).objects@.len(),
    {
        let o = self.objects.len();
        self.objects.push(data);
        let r = self.refs.len();
        self.refs.push(RefEntry { target: RefTarget::Obj(o), live: true });
        proof {
            lemma_live_count_push(
                old(self).refs@,
                RefEntry { target: RefTarget::Obj(o), live: true },
            );
            assert forall|oo: int| 0 <= oo < self.objects@.len() implies payload_wf(
                (#[trigger] self.objects@[oo]).payload,
                self.objects@.len(),
            ) by {
                if oo < self.objects@.len() - 1 {
                    lemma_payload_wf_mono(
                        self.objects@[oo].payload,
                        (self.objects@.len() - 1) as nat,
                        self.objects@.len(),
                    );
                }
            }
        }
        r
    }

    /// Releases a local reference.  Releasing a dead or out-of-range
    /// reference is an error and changes nothing.
    pub fn delete_local_ref(&mut self, r: usize) -> (res: Result<(), JniError>)
        requires
            old(self).wf(),
        ensures
            final(self).wf(),
            final(self).classes@ == old(self).classes@,
            final(self).objects@ == old(self).objects@,
            final(self).pending == old(self).pending,
            old(self).ref_live(r) ==> {
                &&& res is Ok
                &&& final(self).refs@ == old(self).refs@.update(
                    r as int,
                    RefEntry { target: old(self).refs@[r as int].target, live: false },
                )
                &&& final(self).live_refs() + 1 == old(self).live_refs()
            },
            !old(self).ref_live(r) ==> {
                &&& res == Err::<(), JniError>(JniError::InvalidReference)
                &&& final(self).refs@ == old(self).refs@
            },
    {
        if r < self.refs.len() {
            let e = self.refs[r];
            if e.live {
                let dead = RefEntry { target: e.target, live: false };
                self.refs.set(r, dead);
                proof {
                    lemma_live_count_update(old(self).refs@, r as int, dead);
                }
                return Ok(());
            }
        }
        Err(JniError::InvalidReference)
    }

    /// Counts the live references: the probe a leak check reads.
    pub fn live_ref_count(&self) -> (n: usize)
        ensures
            n == self.live_refs(),
    {
        let mut n: usize = 0;
        let mut i: usize = 0;
        while i < self.refs.len()
            invariant
                i <= self.refs@.len(),
                n == live_count(self.refs@.take(i as int)),
                n <= i,
            decreases self.refs@.len() - i,
        {
            proof {
                lemma_live_count_take(self.refs@, i as int);
            }
            if self.refs[i].live {
                n = n + 1;
            }
            i = i + 1;
        }
        proof {
            assert(self.refs@.take(self.refs@.len() as int) =~= self.refs@);
        }
        n
    }

    /// Polls the pending-exception flag.
    pub fn exception_check(&self) -> (b: bool)
        ensures
            b == (self.pending is Some),
    {
        match self.pending {
            Some(_) => true,
            None => false,
        }
    }

    /// Clears the pending-exception flag.
    pub fn exception_clear(&mut self)
        requires
            old(self).wf(),
        ensures
            final(self).wf(),
            final(self).classes@ == old(self).classes@,
            final(self).objects@ == old(self).objects@,
            final(self).refs@ == old(self).refs@,
            final(self).pending is None,
    {
        self.pending = None;
    }

    /// Creates a string object from native UTF-8 content and returns a
    /// fresh reference to it.
    pub fn new_string(&mut self, s: &str) -> (r: usize)
        requires
            old(self).wf(),
        ensures
            final(self).wf(),
            old(self).extends(*final(self)),
            r == old(self).refs@.len(),
            final(self).objects@.len() == old(self).objects@.len() + 1,
            final(self).refs@ == old(self).refs@.push(
                RefEntry { target: RefTarget::Obj(old(self).objects@.len() as usize), live: true },
            ),
            final(self).ref_is_obj(r),
            final(self).ref_obj(r) == old(self).objects@.len(),
            final(self).objects@.last().class@ == "java/lang/String"@,
            final(self).objects@.last().payload matches Payload::Str(c) && c@ == s@,
            final(self).pending == old(self).pending,
            final(self).live_refs() == old(self).live_refs() + 1,
    {
        let data = ObjectData {
            class: String::from_str("java/lang/String"),
            payload: Payload::Str(String::from_str(s)),
        };
        self.alloc_object(data)
    }

    /// Extracts the UTF-8 content of a string object.  The reference stays
    /// live; releasing it is the caller's duty.
    pub fn get_string(&self, r: usize) -> (res: Result<String, JniError>)
        requires
            self.wf(),
        ensures
            self.ref_is_obj(r) ==> (self.objects@[self.ref_obj(
                r,
            ) as int].payload matches Payload::Str(c) ==> res matches Ok(s) && s@ == c@),
            !self.ref_is_obj(r) ==> res == Err::<String, JniError>(JniError::InvalidReference),
            self.ref_is_obj(r) && !(self.objects@[self.ref_obj(r) as int].payload is Str) ==> res
                == Err::<String, JniError>(JniError::TypeMismatch),
    {
        if r < self.refs.len() {
            let e = self.refs[r];
            if e.live {
                if let RefTarget::Obj(o) = e.target {
                    return match &self.objects[o].payload {
                        Payload::Str(c) => Ok(c.clone()),
                        _ => Err(JniError::TypeMismatch),
                    };
                }
            }
        }
        Err(JniError::InvalidReference)
    }

    /// Allocates a primitive array object with the given contents and
    /// returns a fresh reference to it.
    pub fn new_array(&mut self, class: &str, data: ArrData) -> (r: usize)
        requires
            old(self).wf(),
        ensures
            final(self).wf(),
            old(self).extends(*final(self)),
            r == old(self).refs@.len(),
            final(self).objects@.len() == old(self).objects@.len() + 1,
            final(self).refs@ == old(self).refs@.push(
                RefEntry { target: RefTarget::Obj(old(self).objects@.len() as usize), live: true },
            ),
            final(self).ref_is_obj(r),
            final(self).ref_obj(r) == old(self).objects@.len(),
            final(self).objects@.last().class@ == class@,
            final(self).objects@.last().payload == Payload::Arr(data),
            final(self).pending == old(self).pending,
            final(self).live_refs() == old(self).live_refs() + 1,
    {
        let data = ObjectData { class: String::from_str(class), payload: Payload::Arr(data) };
        self.alloc_object(data)
    }

    /// The length of the array object behind a reference.
    pub fn get_array_length(&self, r: usize) -> (res: Result<usize, JniError>)
        requires
            self.wf(),
        ensures
            self.ref_is_obj(r) ==> (self.objects@[self.ref_obj(
                r,
            ) as int].payload matches Payload::Arr(a) ==> res matches Ok(n) && n == arr_len(a)),
            self.ref_is_obj(r) ==> (self.objects@[self.ref_obj(
                r,
            ) as int].payload matches Payload::ObjArr(items) ==> res matches Ok(n) && n
                == items@.len()),
            !self.ref_is_obj(r) ==> res == Err::<usize, JniError>(JniError::InvalidReference),
            self.ref_is_obj(r) && !(self.objects@[self.ref_obj(r) as int].payload is Arr)
                && !(self.objects@[self.ref_obj(r) as int].payload is ObjArr) ==> res == Err::<
                usize,
                JniError,
            >(JniError::TypeMismatch),
    {
        if r < self.refs.len() {
            let e = self.refs[r];
            if e.live {
                if let RefTarget::Obj(o) = e.target {
                    return match &self.objects[o].payload {
                        Payload::Arr(a) => Ok(
                            match a {
                                ArrData::Bools(v) => v.len(),
                                ArrData::Bytes(v) => v.len(),
                                ArrData::Chars(v) => v.len(),
                                ArrData::Shorts(v) => v.len(),
                                ArrData::Ints(v) => v.len(),
                                ArrData::Longs(v) => v.len(),
                            },
                        ),
                        Payload::ObjArr(items) => Ok(items.len()),
                        _ => Err(JniError::TypeMismatch),
                    };
                }
            }
        }
        Err(JniError::InvalidReference)
    }

    /// Whether a reference id denotes a live reference to an object.
    pub fn valid_obj_ref(&self, r: usize) -> (b: bool)
        ensures
            b == self.ref_is_obj(r),
    {
        if r < self.refs.len() {
            let e = self.refs[r];
            if e.live {
                if let RefTarget::Obj(_) = e.target {
                    return true;
                }
            }
        }
        false
    }

    /// The object id behind a reference, when it is live and points at an
    /// object.
    fn resolve_obj(&self, r: usize) -> (res: Option<usize>)
        ensures
            self.ref_is_obj(r) ==> res == Some(self.ref_obj(r)),
            !self.ref_is_obj(r) ==> res is None,
    {
        if r < self.refs.len() {
            let e = self.refs[r];
            if e.live {
                if let RefTarget::Obj(o) = e.target {
                    return Some(o);
                }
            }
        }
        None
    }

    /// Resolves one boundary value to its stored form.
    fn resolve_value(&self, v: JvmValue) -> (res: Option<JvmValue>)
        ensures
            res == self.resolve_spec(v),
    {
        match v {
            JvmValue::Object(Some(rr)) => match self.resolve_obj(rr) {
                Some(o) => Some(JvmValue::Object(Some(o))),
                None => None,
            },
            _ => Some(v),
        }
    }

    /// Creates a plain object of the given class with the given fields and
    /// returns a fresh reference to it.  Object-valued fields are given as
    /// references and stored resolved; a dead reference is an error.
    pub fn create_object(&mut self, class: &str, fields: Vec<FieldSlot>) -> (res: Result<
        usize,
        JniError,
    >)
        requires
            old(self).wf(),
        ensures
            final(self).wf(),
            res matches Ok(r) ==> {
                &&& forall|i: int|
                    0 <= i < fields@.len() ==> old(self).resolve_spec(
                        (#[trigger] fields@[i]).value,
                    ) is Some
                &&& r == old(self).refs@.len()
                &&& final(self).objects@.len() == old(self).objects@.len() + 1
                &&& final(self).objects@.last().class@ == class@
                &&& final(self).objects@.last().payload matches Payload::Plain(fs) && {
                    &&& fs@.len() == fields@.len()
                    &&& forall|i: int|
                        0 <= i < fields@.len() ==> {
                            &&& (#[trigger] fs@[i]).name@ == fields@[i].name@
                            &&& fs@[i].sig@ == fields@[i].sig@
                            &&& Some(fs@[i].value) == old(self).resolve_spec(fields@[i].value)
                        }
                }
                &&& forall|i: int|
                    0 <= i < old(self).objects@.len() ==> final(self).objects@[i] == old(
                        self,
                    ).objects@[i]
                &&& final(self).refs@ == old(self).refs@.push(
                    RefEntry {
                        target: RefTarget::Obj(old(self).objects@.len() as usize),
                        live: true,
                    },
                )
                &&& final(self).ref_is_obj(r) && final(self).ref_obj(r) == old(
                    self,
                ).objects@.len()
                &&& final(self).classes@ == old(self).classes@
                &&& final(self).pending == old(self).pending
                &&& final(self).live_refs() == old(self).live_refs() + 1
            },
            res is Err ==> res == Err::<usize, JniError>(JniError::InvalidReference) && old(
                self,
            ).unchanged(*final(self)),
            (forall|i: int|
                0 <= i < fields@.len() ==> old(self).resolve_spec(
                    (#[trigger] fields@[i]).value,
                ) is Some) ==> res is Ok,
    {
        let mut fs: Vec<FieldSlot> = Vec::new();
        let mut i: usize = 0;
        while i < fields.len()
            invariant
                old(self).wf(),
                self == old(self),
                i <= fields@.len(),
                fs@.len() == i,
                forall|j: int|
                    0 <= j < i ==> {
                        &&& (#[trigger] fs@[j]).name@ == fields@[j].name@
                        &&& fs@[j].sig@ == fields@[j].sig@
                        &&& Some(fs@[j].value) == old(self).resolve_spec(fields@[j].value)
                    },
            decreases fields@.len() - i,
        {
            let slot = &fields[i];
            match self.resolve_value(slot.value) {
                Some(v) => {
                    fs.push(
                        FieldSlot { name: slot.name.clone(), sig: slot.sig.clone(), value: v },
                    );
                },
                None => {
                    proof {
                        assert(old(self).resolve_spec(fields@[i as int].value) is None);
                    }
                    return Err(JniError::InvalidReference);
                },
            }
            i = i + 1;
        }
        proof {
            assert forall|k: int| 0 <= k < fields@.len() implies old(self).resolve_spec(
                (#[trigger] fields@[k]).value,
            ) is Some by {
                assert(Some(fs@[k].value) == old(self).resolve_spec(fields@[k].value));
            }
        }
        let data = ObjectData { class: String::from_str(class), payload: Payload::Plain(fs) };
        let r = self.alloc_object(data);
        Ok(r)
    }

    /// Resolves a vector of boundary object values to stored object ids.
    fn resolve_items(&self, items: &Vec<JvmValue>) -> (res: Option<Vec<Option<usize>>>)
        requires
            self.wf(),
        ensures
            res matches Some(rs) ==> {
                &&& rs@.len() == items@.len()
                &&& forall|i: int|
                    0 <= i < items@.len() ==> {
                        &&& (#[trigger] items@[i]) matches JvmValue::Object(_)
                        &&& self.resolve_spec(items@[i]) matches Some(v) && v matches
                            JvmValue::Object(oo) && rs@[i] == oo
                    }
                &&& forall|i: int|
                    0 <= i < rs@.len() ==> match #[trigger] rs@[i] {
                        Some(oid) => oid < self.objects@.len(),
                        None => true,
                    }
            },
            (forall|i: int|
                0 <= i < items@.len() ==> {
                    &&& (#[trigger] items@[i]) matches JvmValue::Object(oo)
                    &&& oo matches Some(rr) ==> self.ref_is_obj(rr)
                }) ==> res is Some,
    {
        let mut rs: Vec<Option<usize>> = Vec::new();
        let mut i: usize = 0;
        while i < items.len()
            invariant
                self.wf(),
                i <= items@.len(),
                rs@.len() == i,
                forall|j: int|
                    0 <= j < i ==> {
                        &&& (#[trigger] items@[j]) matches JvmValue::Object(_)
                        &&& self.resolve_spec(items@[j]) matches Some(v) && v matches
                            JvmValue::Object(oo) && rs@[j] == oo
                    },
                forall|j: int|
                    0 <= j < i ==> match #[trigger] rs@[j] {
                        Some(oid) => oid < self.objects@.len(),
                        None => true,
                    },
            decreases items@.len() - i,
        {
            match items[i] {
                JvmValue::Object(opt) => match opt {
                    Some(rr) => match self.resolve_obj(rr) {
                        Some(o) => {
                            proof {
                                assert(self.ref_is_obj(rr));
                                assert(match self.refs@[rr as int].target {
                                    RefTarget::Obj(oid) => oid < self.objects@.len(),
                                    RefTarget::Class(c) => c < self.classes@.len(),
                                });
                                assert(o < self.objects@.len());
                            }
                            rs.push(Some(o));
                        },
                        None => {
                            proof {
                                assert(!(items@[i as int] matches JvmValue::Object(oo) && (
                                oo matches Some(rr2) ==> self.ref_is_obj(rr2))));
                            }
                            return None;
                        },
                    },
                    None => {
                        rs.push(None);
                    },
                },
                _ => {
                    proof {
                        assert(!(items@[i as int] matches JvmValue::Object(_)));
                    }
                    return None;
                },
            }
            i = i + 1;
        }
        Some(rs)
    }

    /// Creates an iterable collection object holding the given object
    /// references, in order, and returns a fresh reference to it.
    pub fn new_list(&mut self, class: &str, items: Vec<JvmValue>) -> (res: Result<usize, JniError>)
        requires
            old(self).wf(),
        ensures
            final(self).wf(),
            res matches Ok(r) ==> {
                &&& r == old(self).refs@.len()
                &&& final(self).objects@.len() == old(self).objects@.len() + 1
                &&& final(self).objects@.last().class@ == class@
                &&& final(self).objects@.last().payload matches Payload::List(rs) && {
                    &&& rs@.len() == items@.len()
                    &&& forall|i: int|
                        0 <= i < items@.len() ==> (old(self).resolve_spec(
                            #[trigger] items@[i],
                        ) matches Some(v) && v matches JvmValue::Object(oo) && rs@[i] == oo)
                }
                &&& forall|i: int|
                    0 <= i < old(self).objects@.len() ==> final(self).objects@[i] == old(
                        self,
                    ).objects@[i]
                &&& final(self).refs@ == old(self).refs@.push(
                    RefEntry {
                        target: RefTarget::Obj(old(self).objects@.len() as usize),
                        live: true,
                    },
                )
                &&& final(self).classes@ == old(self).classes@
                &&& final(self).pending == old(self).pending
                &&& final(self).live_refs() == old(self).live_refs() + 1
            },
            res is Err ==> old(self).unchanged(*final(self)),
            (forall|i: int|
                0 <= i < items@.len() ==> {
                    &&& (#[trigger] items@[i]) matches JvmValue::Object(oo)
                    &&& oo matches Some(rr) ==> old(self).ref_is_obj(rr)
                }) ==> res is Ok,
    {
        match self.resolve_items(&items) {
            Some(rs) => {
                let data = ObjectData {
                    class: String::from_str(class),
                    payload: Payload::List(rs),
                };
                let r = self.alloc_object(data);
                Ok(r)
            },
            None => Err(JniError::InvalidReference),
        }
    }

    /// Creates an object array holding the given object references, in
    /// order, and returns a fresh reference to it.
    pub fn new_object_array(&mut self, class: &str, items: Vec<JvmValue>) -> (res: Result<
        usize,
        JniError,
    >)
        requires
            old(self).wf(),
        ensures
            final(self).wf(),
            res matches Ok(r) ==> {
                &&& r == old(self).refs@.len()
                &&& final(self).objects@.len() == old(self).objects@.len() + 1
                &&& final(self).objects@.last().class@ == class@
                &&& final(self).objects@.last().payload matches Payload::ObjArr(rs) && {
                    &&& rs@.len() == items@.len()
                    &&& forall|i: int|
                        0 <= i < items@.len() ==> (old(self).resolve_spec(
                            #[trigger] items@[i],
                        ) matches Some(v) && v matches JvmValue::Object(oo) && rs@[i] == oo)
                }
                &&& forall|i: int|
                    0 <= i < old(self).objects@.len() ==> final(self).objects@[i] == old(
                        self,
                    ).objects@[i]
                &&& final(self).refs@ == old(self).refs@.push(
                    RefEntry {
                        target: RefTarget::Obj(old(self).objects@.len() as usize),
                        live: true,
                    },
                )
                &&& final(self).classes@ == old(self).classes@
                &&& final(self).pending == old(self).pending
                &&& final(self).live_refs() == old(self).live_refs() + 1
            },
            res is Err ==> old(self).unchanged(*final(self)),
            (forall|i: int|
                0 <= i < items@.len() ==> {
                    &&& (#[trigger] items@[i]) matches JvmValue::Object(oo)
                    &&& oo matches Some(rr) ==> old(self).ref_is_obj(rr)
                }) ==> res is Ok,
    {
        match self.resolve_items(&items) {
            Some(rs) => {
                let data = ObjectData {
                    class: String::from_str(class),
                    payload: Payload::ObjArr(rs),
                };
                let r = self.alloc_object(data);
                Ok(r)
            },
            None => Err(JniError::InvalidReference),
        }
    }

    /// Creates one string object per element and an object array holding
    /// them in order, and returns a fresh reference to the array: the
    /// staging of a native string sequence as a call argument.
    pub fn new_string_array(&mut self, class: &str, items: &Vec<String>) -> (r: usize)
        requires
            old(self).wf(),
        ensures
            final(self).wf(),
            r == old(self).refs@.len(),
            final(self).objects@.len() == old(self).objects@.len() + items@.len() + 1,
            forall|i: int|
                0 <= i < old(self).objects@.len() ==> final(self).objects@[i] == old(
                    self,
                ).objects@[i],
            forall|i: int|
                0 <= i < items@.len() ==> {
                    &&& (#[trigger] final(self).objects@[old(self).objects@.len() + i]).class@
                        == "java/lang/String"@
                    &&& final(self).objects@[old(self).objects@.len() + i].payload matches
                        Payload::Str(c) && c@ == items@[i]@
                },
            final(self).objects@.last().class@ == class@,
            final(self).objects@.last().payload matches Payload::ObjArr(rs) && {
                &&& rs@.len() == items@.len()
                &&& forall|i: int|
                    0 <= i < items@.len() ==> {
                        &&& (#[trigger] rs@[i]) matches Some(oid)
                        &&& oid == old(self).objects@.len() + i
                    }
            },
            final(self).refs@ == old(self).refs@.push(
                RefEntry {
                    target: RefTarget::Obj((old(self).objects@.len() + items@.len()) as usize),
                    live: true,
                },
            ),
            final(self).ref_is_obj(r),
            final(self).ref_obj(r) == old(self).objects@.len() + items@.len(),
            final(self).classes@ == old(self).classes@,
            final(self).pending == old(self).pending,
            final(self).live_refs() == old(self).live_refs() + 1,
    {
        let base = self.objects.len();
        let mut i: usize = 0;
        let mut rs: Vec<Option<usize>> = Vec::new();
        while i < items.len()
            invariant
                old(self).wf(),
                base == old(self).objects@.len(),
                i <= items@.len(),
                self.objects@.len() == base + i,
                self.refs@ == old(self).refs@,
                self.classes@ == old(self).classes@,
                self.pending == old(self).pending,
                forall|j: int| 0 <= j < base ==> self.objects@[j] == old(self).objects@[j],
                forall|j: int|
                    0 <= j < i ==> {
                        &&& (#[trigger] self.objects@[base + j]).class@ == "java/lang/String"@
                        &&& self.objects@[base + j].payload matches Payload::Str(c) && c@
                            == items@[j]@
                    },
                rs@.len() == i,
                forall|j: int|
                    0 <= j < i ==> {
                        &&& (#[trigger] rs@[j]) matches Some(oid)
                        &&& oid == base + j
                    },
                self.wf(),
            decreases items@.len() - i,
        {
            let s = items[i].clone();
            let idx = self.objects.len();
            self.objects.push(
                ObjectData { class: String::from_str("java/lang/String"), payload: Payload::Str(s) },
            );
            rs.push(Some(idx));
            proof {
                assert forall|oo: int| 0 <= oo < self.objects@.len() implies payload_wf(
                    (#[trigger] self.objects@[oo]).payload,
                    self.objects@.len(),
                ) by {
                    if oo < self.objects@.len() - 1 {
                        lemma_payload_wf_mono(
                            self.objects@[oo].payload,
                            (self.objects@.len() - 1) as nat,
                            self.objects@.len(),
                        );
                    }
                }
            }
            i = i + 1;
        }
        let r = self.alloc_object(
            ObjectData { class: String::from_str(class), payload: Payload::ObjArr(rs) },
        );
        r
    }

    /// Borrows the contents of the primitive array behind a reference.
    pub fn get_array(&self, r: usize) -> (res: Result<&ArrData, JniError>)
        requires
            self.wf(),
        ensures
            self.ref_is_obj(r) ==> (self.objects@[self.ref_obj(
                r,
            ) as int].payload matches Payload::Arr(a) ==> res matches Ok(b) && *b == a),
            !self.ref_is_obj(r) ==> res == Err::<&ArrData, JniError>(JniError::InvalidReference),
            self.ref_is_obj(r) && !(self.objects@[self.ref_obj(r) as int].payload is Arr) ==> res
                == Err::<&ArrData, JniError>(JniError::TypeMismatch),
    {
        if let Some(o) = self.resolve_obj(r) {
            match &self.objects[o].payload {
                Payload::Arr(a) => Ok(a),
                _ => Err(JniError::TypeMismatch),
            }
        } else {
            Err(JniError::InvalidReference)
        }
    }

    /// Overwrites the contents of the primitive array behind a reference.
    /// Element type and length must match the existing contents.
    pub fn write_array(&mut self, r: usize, data: ArrData) -> (res: Result<(), JniError>)
        requires
            old(self).wf(),
        ensures
            final(self).wf(),
            old(self).ref_is_obj(r) ==> (old(self).objects@[old(self).ref_obj(
                r,
            ) as int].payload matches Payload::Arr(a) && arr_same_kind(a, data) && arr_len(a)
                == arr_len(data) ==> {
                &&& res is Ok
                &&& final(self).objects@.len() == old(self).objects@.len()
                &&& final(self).objects@[old(self).ref_obj(r) as int].payload == Payload::Arr(data)
                &&& final(self).objects@[old(self).ref_obj(r) as int].class == old(
                    self,
                ).objects@[old(self).ref_obj(r) as int].class
                &&& forall|i: int|
                    0 <= i < old(self).objects@.len() && i != old(self).ref_obj(r) as int
                        ==> final(self).objects@[i] == old(self).objects@[i]
                &&& final(self).refs@ == old(self).refs@
                &&& final(self).classes@ == old(self).classes@
                &&& final(self).pending == old(self).pending
            }),
            !old(self).ref_is_obj(r) ==> res == Err::<(), JniError>(JniError::InvalidReference)
                && old(self).unchanged(*final(self)),
            old(self).ref_is_obj(r) && !(old(self).objects@[old(self).ref_obj(
                r,
            ) as int].payload matches Payload::Arr(a) && arr_same_kind(a, data) && arr_len(a)
                == arr_len(data)) ==> res == Err::<(), JniError>(JniError::TypeMismatch) && old(
                self,
            ).unchanged(*final(self)),
            res is Err ==> old(self).unchanged(*final(self)),
    {
        let o_opt = self.resolve_obj(r);
        if let Some(o) = o_opt {
            let ok: bool = match &self.objects[o].payload {
                Payload::Arr(a) => {
                    let same: bool = match (a, &data) {
                        (ArrData::Bools(x), ArrData::Bools(y)) => x.len() == y.len(),
                        (ArrData::Bytes(x), ArrData::Bytes(y)) => x.len() == y.len(),
                        (ArrData::Chars(x), ArrData::Chars(y)) => x.len() == y.len(),
                        (ArrData::Shorts(x), ArrData::Shorts(y)) => x.len() == y.len(),
                        (ArrData::Ints(x), ArrData::Ints(y)) => x.len() == y.len(),
                        (ArrData::Longs(x), ArrData::Longs(y)) => x.len() == y.len(),
                        _ => false,
                    };
                    same
                },
                _ => false,
            };
            if ok {
                let cls = self.objects[o].class.clone();
                self.objects.set(o, ObjectData { class: cls, payload: Payload::Arr(data) });
                Ok(())
            } else {
                Err(JniError::TypeMismatch)
            }
        } else {
            Err(JniError::InvalidReference)
        }
    }

    /// Allocates the class object of the object behind a reference; the
    /// class object answers whether the object is an array.
    pub fn get_object_class(&mut self, r: usize) -> (res: Result<usize, JniError>)
        requires
            old(self).wf(),
        ensures
            final(self).wf(),
            !old(self).ref_is_obj(r) ==> res == Err::<usize, JniError>(JniError::InvalidReference)
                && old(self).unchanged(*final(self)),
            old(self).ref_is_obj(r) ==> (res matches Ok(cr) && {
                &&& cr == old(self).refs@.len()
                &&& final(self).ref_is_obj(cr)
                &&& final(self).ref_obj(cr) == old(self).objects@.len()
                &&& final(self).objects@.len() == old(self).objects@.len() + 1
                &&& final(self).objects@.last().payload == (Payload::ClassObj {
                    is_array: (old(self).objects@[old(self).ref_obj(r) as int].payload is Arr || old(
                        self,
                    ).objects@[old(self).ref_obj(r) as int].payload is ObjArr),
                })
                &&& forall|i: int|
                    0 <= i < old(self).objects@.len() ==> final(self).objects@[i] == old(
                        self,
                    ).objects@[i]
                &&& final(self).refs@ == old(self).refs@.push(
                    RefEntry {
                        target: RefTarget::Obj(old(self).objects@.len() as usize),
                        live: true,
                    },
                )
                &&& final(self).classes@ == old(self).classes@
                &&& final(self).pending == old(self).pending
                &&& final(self).live_refs() == old(self).live_refs() + 1
            }),
    {
        if let Some(o) = self.resolve_obj(r) {
            let is_arr: bool = match &self.objects[o].payload {
                Payload::Arr(_) => true,
                Payload::ObjArr(_) => true,
                _ => false,
            };
            let data = ObjectData {
                class: String::from_str("java/lang/Class"),
                payload: Payload::ClassObj { is_array: is_arr },
            };
            let cr = self.alloc_object(data);
            Ok(cr)
        } else {
            Err(JniError::InvalidReference)
        }
    }

    /// Begins the iterator protocol on an iterable object: allocates a live
    /// iterator over its items and returns a fresh reference to it.
    pub fn get_iterator(&mut self, r: usize) -> (res: Result<usize, JniError>)
        requires
            old(self).wf(),
        ensures
            final(self).wf(),
            !old(self).ref_is_obj(r) ==> res == Err::<usize, JniError>(JniError::InvalidReference)
                && old(self).unchanged(*final(self)),
            old(self).ref_is_obj(r) ==> (old(self).objects@[old(self).ref_obj(
                r,
            ) as int].payload matches Payload::List(items) ==> res matches Ok(ir) && {
                &&& ir == old(self).refs@.len()
                &&& final(self).ref_is_obj(ir)
                &&& final(self).ref_obj(ir) == old(self).objects@.len()
                &&& final(self).objects@.len() == old(self).objects@.len() + 1
                &&& final(self).objects@.last().payload matches Payload::Iter {
                    items: it2,
                    pos: p2,
                } && it2@ == items@ && p2 == 0
                &&& forall|i: int|
                    0 <= i < old(self).objects@.len() ==> final(self).objects@[i] == old(
                        self,
                    ).objects@[i]
                &&& final(self).refs@ == old(self).refs@.push(
                    RefEntry {
                        target: RefTarget::Obj(old(self).objects@.len() as usize),
                        live: true,
                    },
                )
                &&& final(self).classes@ == old(self).classes@
                &&& final(self).pending == old(self).pending
                &&& final(self).live_refs() == old(self).live_refs() + 1
            }),
            old(self).ref_is_obj(r) && !(old(self).objects@[old(self).ref_obj(
                r,
            ) as int].payload is List) ==> res == Err::<usize, JniError>(JniError::TypeMismatch)
                && old(self).unchanged(*final(self)),
    {
        let o_opt = self.resolve_obj(r);
        if let Some(o) = o_opt {
            let items2: Vec<Option<usize>>;
            match &self.objects[o].payload {
                Payload::List(items) => {
                    items2 = copy_vec(items);
                },
                _ => {
                    return Err(JniError::TypeMismatch);
                },
            }
            let data = ObjectData {
                class: String::from_str("java/util/Iterator"),
                payload: Payload::Iter { items: items2, pos: 0 },
            };
            let ir = self.alloc_object(data);
            Ok(ir)
        } else {
            Err(JniError::InvalidReference)
        }
    }

    /// Whether a live iterator has more items.
    pub fn iter_has_next(&self, r: usize) -> (res: Result<bool, JniError>)
        requires
            self.wf(),
        ensures
            !self.ref_is_obj(r) ==> res == Err::<bool, JniError>(JniError::InvalidReference),
            self.ref_is_obj(r) ==> (self.objects@[self.ref_obj(
                r,
            ) as int].payload matches Payload::Iter { items, pos } ==> res == Ok::<bool, JniError>(
                pos < items@.len(),
            )),
            self.ref_is_obj(r) && !(self.objects@[self.ref_obj(r) as int].payload is Iter) ==> res
                == Err::<bool, JniError>(JniError::TypeMismatch),
    {
        if let Some(o) = self.resolve_obj(r) {
            match &self.objects[o].payload {
                Payload::Iter { items, pos } => Ok(*pos < items.len()),
                _ => Err(JniError::TypeMismatch),
            }
        } else {
            Err(JniError::InvalidReference)
        }
    }

    /// Takes the next item from a live iterator: advances it and returns
    /// the item as a fresh reference (or the null reference for a null
    /// item).  Exhausted iterators are an error.
    pub fn iter_next(&mut self, r: usize) -> (res: Result<JvmValue, JniError>)
        requires
            old(self).wf(),
        ensures
            final(self).wf(),
            !old(self).ref_is_obj(r) ==> res == Err::<JvmValue, JniError>(
                JniError::InvalidReference,
            ) && old(self).unchanged(*final(self)),
            old(self).ref_is_obj(r) ==> (old(self).objects@[old(self).ref_obj(
                r,
            ) as int].payload matches Payload::Iter { items, pos } ==> {
                &&& pos < items@.len() ==> {
                    &&& final(self).objects@.len() == old(self).objects@.len()
                    &&& final(self).objects@[old(self).ref_obj(r) as int].payload matches
                        Payload::Iter { items: it2, pos: p2 } && it2@ == items@ && p2 == pos + 1
                    &&& final(self).objects@[old(self).ref_obj(r) as int].class == old(
                        self,
                    ).objects@[old(self).ref_obj(r) as int].class
                    &&& forall|i: int|
                        0 <= i < old(self).objects@.len() && i != old(self).ref_obj(r) as int
                            ==> final(self).objects@[i] == old(self).objects@[i]
                    &&& final(self).classes@ == old(self).classes@
                    &&& final(self).pending == old(self).pending
                    &&& match items@[pos as int] {
                        Some(oid) => {
                            &&& res matches Ok(jv)
                            &&& jv matches JvmValue::Object(oo)
                            &&& oo matches Some(nr)
                            &&& nr == old(self).refs@.len()
                            &&& final(self).ref_is_obj(nr)
                            &&& final(self).ref_obj(nr) == oid
                            &&& final(self).refs@ == old(self).refs@.push(
                                RefEntry { target: RefTarget::Obj(oid), live: true },
                            )
                            &&& final(self).live_refs() == old(self).live_refs() + 1
                        },
                        None => {
                            &&& res == Ok::<JvmValue, JniError>(JvmValue::Object(None))
                            &&& final(self).refs@ == old(self).refs@
                        },
                    }
                }
                &&& pos >= items@.len() ==> res == Err::<JvmValue, JniError>(
                    JniError::TypeMismatch,
                ) && old(self).unchanged(*final(self))
            }),
            old(self).ref_is_obj(r) && !(old(self).objects@[old(self).ref_obj(
                r,
            ) as int].payload is Iter) ==> res == Err::<JvmValue, JniError>(JniError::TypeMismatch)
                && old(self).unchanged(*final(self)),
    {
        let o_opt = self.resolve_obj(r);
        if let Some(o) = o_opt {
            let items2: Vec<Option<usize>>;
            let pos2: usize;
            match &self.objects[o].payload {
                Payload::Iter { items, pos } => {
                    if *pos >= items.len() {
                        return Err(JniError::TypeMismatch);
                    }
                    items2 = copy_vec(items);
                    pos2 = *pos;
                },
                _ => {
                    return Err(JniError::TypeMismatch);
                },
            }
            let item: Option<usize> = items2[pos2];
            let cls = self.objects[o].class.clone();
            self.objects.set(
                o,
                ObjectData { class: cls, payload: Payload::Iter { items: items2, pos: pos2 + 1 } },
            );
            proof {
                assert forall|oo: int| 0 <= oo < self.objects@.len() implies payload_wf(
                    (#[trigger] self.objects@[oo]).payload,
                    self.objects@.len(),
                ) by {}
            }
            match item {
                Some(oid) => {
                    let nr = self.push_obj_ref(oid);
                    Ok(JvmValue::Object(Some(nr)))
                },
                None => Ok(JvmValue::Object(None)),
            }
        } else {
            Err(JniError::InvalidReference)
        }
    }

    /// Reads one element of an object array as a fresh reference (or the
    /// null reference for a null element).
    pub fn get_object_array_element(&mut self, r: usize, idx: usize) -> (res: Result<
        JvmValue,
        JniError,
    >)
        requires
            old(self).wf(),
        ensures
            final(self).wf(),
            !old(self).ref_is_obj(r) ==> res == Err::<JvmValue, JniError>(
                JniError::InvalidReference,
            ) && old(self).unchanged(*final(self)),
            old(self).ref_is_obj(r) ==> (old(self).objects@[old(self).ref_obj(
                r,
            ) as int].payload matches Payload::ObjArr(items) ==> {
                &&& idx < items@.len() ==> {
                    &&& final(self).objects@ == old(self).objects@
                    &&& final(self).classes@ == old(self).classes@
                    &&& final(self).pending == old(self).pending
                    &&& match items@[idx as int] {
                        Some(oid) => {
                            &&& res matches Ok(jv)
                            &&& jv matches JvmValue::Object(oo)
                            &&& oo matches Some(nr)
                            &&& nr == old(self).refs@.len()
                            &&& final(self).ref_is_obj(nr)
                            &&& final(self).ref_obj(nr) == oid
                            &&& final(self).refs@ == old(self).refs@.push(
                                RefEntry { target: RefTarget::Obj(oid), live: true },
                            )
                            &&& final(self).live_refs() == old(self).live_refs() + 1
                        },
                        None => {
                            &&& res == Ok::<JvmValue, JniError>(JvmValue::Object(None))
                            &&& final(self).refs@ == old(self).refs@
                        },
                    }
                }
                &&& idx >= items@.len() ==> res == Err::<JvmValue, JniError>(
                    JniError::TypeMismatch,
                ) && old(self).unchanged(*final(self))
            }),
            old(self).ref_is_obj(r) && !(old(self).objects@[old(self).ref_obj(
                r,
            ) as int].payload is ObjArr) ==> res == Err::<JvmValue, JniError>(
                JniError::TypeMismatch,
            ) && old(self).unchanged(*final(self)),
    {
        let o_opt = self.resolve_obj(r);
        if let Some(o) = o_opt {
            let item: Option<usize>;
            match &self.objects[o].payload {
                Payload::ObjArr(items) => {
                    if idx >= items.len() {
                        return Err(JniError::TypeMismatch);
                    }
                    item = items[idx];
                },
                _ => {
                    return Err(JniError::TypeMismatch);
                },
            }
            match item {
                Some(oid) => {
                    let nr = self.push_obj_ref(oid);
                    Ok(JvmValue::Object(Some(nr)))
                },
                None => Ok(JvmValue::Object(None)),
            }
        } else {
            Err(JniError::InvalidReference)
        }
    }
}

/// Asks the class object behind a reference whether it describes an array
/// class: the runtime `isArray` check that array and iterable results are
/// told apart by.
pub fn class_is_array(je: &JvmSim, class_object: usize) -> (res: Result<bool, JniError>)
    requires
        je.wf(),
    ensures
        !je.ref_is_obj(class_object) ==> res == Err::<bool, JniError>(JniError::InvalidReference),
        je.ref_is_obj(class_object) ==> (je.objects@[je.ref_obj(
            class_object,
        ) as int].payload matches Payload::ClassObj { is_array } ==> res == Ok::<bool, JniError>(
            is_array,
        )),
        je.ref_is_obj(class_object) && !(je.objects@[je.ref_obj(
            class_object,
        ) as int].payload is ClassObj) ==> res == Err::<bool, JniError>(JniError::TypeMismatch),
{
    if class_object < je.refs.len() {
        let e = je.refs[class_object];
        if e.live {
            if let RefTarget::Obj(o) = e.target {
                return match &je.objects[o].payload {
                    Payload::ClassObj { is_array } => Ok(*is_array),
                    _ => Err(JniError::TypeMismatch),
                };
            }
        }
    }
    Err(JniError::InvalidReference)
}


/// The class at index `i` is the first of the table with the given name.
pub open spec fn class_first_match(cs: Seq<ClassDef>, name: Seq<char>, i: int) -> bool {
    &&& 0 <= i < cs.len()
    &&& cs[i].name@ == name
    &&& forall|j: int| 0 <= j < i ==> (#[trigger] cs[j]).name@ != name
}

/// Some class of the table has the given name.
pub open spec fn class_found(cs: Seq<ClassDef>, name: Seq<char>) -> bool {
    exists|i: int| class_first_match(cs, name, i)
}

/// The method matches the requested name, signature and static-ness.
pub open spec fn method_matches(m: MethodDef, name: Seq<char>, sig: Seq<char>, is_static: bool) -> bool {
    m.name@ == name && m.sig@ == sig && m.is_static == is_static
}

/// The method at index `i` is the first match of the list.
pub open spec fn method_first_match(
    ms: Seq<MethodDef>,
    name: Seq<char>,
    sig: Seq<char>,
    is_static: bool,
    i: int,
) -> bool {
    &&& 0 <= i < ms.len()
    &&& method_matches(ms[i], name, sig, is_static)
    &&& forall|j: int| 0 <= j < i ==> !method_matches(#[trigger] ms[j], name, sig, is_static)
}

/// Some method of the list matches.
pub open spec fn method_found(ms: Seq<MethodDef>, name: Seq<char>, sig: Seq<char>, is_static: bool) -> bool {
    exists|i: int| method_first_match(ms, name, sig, is_static, i)
}

/// The field at index `i` is the first with the given name.
pub open spec fn field_name_first_match(fs: Seq<FieldSlot>, name: Seq<char>, i: int) -> bool {
    &&& 0 <= i < fs.len()
    &&& fs[i].name@ == name
    &&& forall|j: int| 0 <= j < i ==> (#[trigger] fs[j]).name@ != name
}

/// Some field of the list has the given name.
pub open spec fn field_name_found(fs: Seq<FieldSlot>, name: Seq<char>) -> bool {
    exists|i: int| field_name_first_match(fs, name, i)
}

/// The field at index `i` is the first with the given name and signature.
pub open spec fn field_first_match(fs: Seq<FieldSlot>, name: Seq<char>, sig: Seq<char>, i: int) -> bool {
    &&& 0 <= i < fs.len()
    &&& fs[i].name@ == name && fs[i].sig@ == sig
    &&& forall|j: int|
        0 <= j < i ==> !((#[trigger] fs[j]).name@ == name && fs[j].sig@ == sig)
}

/// Some field of the list matches name and signature.
pub open spec fn field_found(fs: Seq<FieldSlot>, name: Seq<char>, sig: Seq<char>) -> bool {
    exists|i: int| field_first_match(fs, name, sig, i)
}

/// The constructor signature list contains the given signature.
pub open spec fn ctor_listed(sigs: Seq<String>, sig: Seq<char>) -> bool {
    exists|i: int| 0 <= i < sigs.len() && (#[trigger] sigs[i])@ == sig
}

/// Some boundary argument is a live reference to the object at index `i`:
/// only such objects can be written by an invoked behavior.
pub open spec fn arg_targets(s: JvmSim, args: Seq<JvmValue>, i: int) -> bool {
    exists|k: int|
        {
            &&& 0 <= k < args.len()
            &&& (#[trigger] args[k]) matches JvmValue::Object(oo)
            &&& oo matches Some(ar)
            &&& s.ref_is_obj(ar)
            &&& s.ref_obj(ar) == i
        }
}

/// The object the array-writing behavior would mutate: the argument at the
/// given position must be a live array reference whose element type and
/// length match the data to write.
pub open spec fn write_target(s: JvmSim, args: Seq<JvmValue>, arg: int, data: ArrData) -> Option<
    usize,
> {
    if 0 <= arg < args.len() {
        match args[arg] {
            JvmValue::Object(Some(ar)) => if s.ref_is_obj(ar) {
                match s.objects@[s.ref_obj(ar) as int].payload {
                    Payload::Arr(a) => if arr_same_kind(a, data) && arr_len(a) == arr_len(data) {
                        Some(s.ref_obj(ar))
                    } else {
                        None
                    },
                    _ => None,
                }
            } else {
                None
            },
            _ => None,
        }
    } else {
        None
    }
}

/// What invoking a method with the given scripted behavior does to the
/// runtime, given the pre state, the post state, the receiver's object id,
/// the boundary arguments and the result.
pub open spec fn behavior_outcome(
    pre: JvmSim,
    post: JvmSim,
    this: Option<usize>,
    b: Behavior,
    args: Seq<JvmValue>,
    res: Result<JvmValue, JniError>,
) -> bool {
    match b {
        Behavior::ReturnVoid => res == Ok::<JvmValue, JniError>(JvmValue::Void) && pre.unchanged(
            post,
        ),
        Behavior::ReturnScalar(jv) => res == Ok::<JvmValue, JniError>(jv) && pre.unchanged(post),
        Behavior::ReturnNewString(s) => {
            &&& res matches Ok(jv)
            &&& jv matches JvmValue::Object(oo)
            &&& oo matches Some(nr)
            &&& nr == pre.refs@.len()
            &&& post.ref_is_obj(nr)
            &&& post.ref_obj(nr) == pre.objects@.len()
            &&& post.objects@.len() == pre.objects@.len() + 1
            &&& post.objects@.last().class@ == "java/lang/String"@
            &&& post.objects@.last().payload matches Payload::Str(c) && c@ == s@
            &&& forall|i: int| 0 <= i < pre.objects@.len() ==> post.objects@[i] == pre.objects@[i]
            &&& post.refs@ == pre.refs@.push(
                RefEntry { target: RefTarget::Obj(pre.objects@.len() as usize), live: true },
            )
            &&& post.classes@ == pre.classes@
            &&& post.pending == pre.pending
        },
        Behavior::ReturnField(fname) => match this {
            Some(o) => if o < pre.objects@.len() {
                match pre.objects@[o as int].payload {
                    Payload::Plain(fs) => {
                        &&& !field_name_found(fs@, fname@) ==> res == Err::<JvmValue, JniError>(
                            JniError::FieldNotFound,
                        ) && pre.unchanged(post)
                        &&& forall|fi: int|
                            field_name_first_match(fs@, fname@, fi) ==> match (#[trigger] fs@[fi]).value {
                                JvmValue::Object(Some(tid)) => {
                                    &&& res matches Ok(jv)
                                    &&& jv matches JvmValue::Object(oo)
                                    &&& oo matches Some(nr)
                                    &&& nr == pre.refs@.len()
                                    &&& post.ref_is_obj(nr)
                                    &&& post.ref_obj(nr) == tid
                                    &&& post.refs@ == pre.refs@.push(
                                        RefEntry { target: RefTarget::Obj(tid), live: true },
                                    )
                                    &&& post.objects@ == pre.objects@
                                    &&& post.classes@ == pre.classes@
                                    &&& post.pending == pre.pending
                                },
                                v => res == Ok::<JvmValue, JniError>(v) && pre.unchanged(post),
                            }
                    },
                    _ => res == Err::<JvmValue, JniError>(JniError::TypeMismatch) && pre.unchanged(
                        post,
                    ),
                }
            } else {
                true
            },
            None => res == Err::<JvmValue, JniError>(JniError::TypeMismatch) && pre.unchanged(post),
        },
        Behavior::WriteArray { arg, data } => match write_target(pre, args, arg as int, data) {
            Some(oid) => {
                &&& res == Ok::<JvmValue, JniError>(JvmValue::Void)
                &&& post.objects@.len() == pre.objects@.len()
                &&& post.objects@[oid as int].payload matches Payload::Arr(b2) && arr_eq(b2, data)
                &&& post.objects@[oid as int].class == pre.objects@[oid as int].class
                &&& forall|i: int|
                    0 <= i < pre.objects@.len() && i != oid as int ==> post.objects@[i]
                        == pre.objects@[i]
                &&& post.refs@ == pre.refs@
                &&& post.classes@ == pre.classes@
                &&& post.pending == pre.pending
            },
            None => res == Err::<JvmValue, JniError>(JniError::TypeMismatch) && pre.unchanged(post),
        },
        Behavior::Throw(cls) => {
            &&& res == Ok::<JvmValue, JniError>(JvmValue::Void)
            &&& post.objects@.len() == pre.objects@.len() + 1
            &&& post.objects@.last().class@ == cls@
            &&& post.objects@.last().payload matches Payload::Plain(fs) && fs@.len() == 0
            &&& forall|i: int| 0 <= i < pre.objects@.len() ==> post.objects@[i] == pre.objects@[i]
            &&& post.refs@ == pre.refs@
            &&& post.classes@ == pre.classes@
            &&& post.pending == Some(pre.objects@.len() as usize)
        },
    }
}

/// Two scripted behaviors are the same up to array contents being compared
/// element-wise.
pub open spec fn behavior_eq(a: Behavior, b: Behavior) -> bool {
    match (a, b) {
        (Behavior::ReturnVoid, Behavior::ReturnVoid) => true,
        (Behavior::ReturnScalar(x), Behavior::ReturnScalar(y)) => x == y,
        (Behavior::ReturnNewString(x), Behavior::ReturnNewString(y)) => x == y,
        (Behavior::ReturnField(x), Behavior::ReturnField(y)) => x == y,
        (
            Behavior::WriteArray { arg: a1, data: d1 },
            Behavior::WriteArray { arg: a2, data: d2 },
        ) => a1 == a2 && arr_eq(d1, d2),
        (Behavior::Throw(x), Behavior::Throw(y)) => x == y,
        _ => false,
    }
}

/// The index of the first field with the given name, if any.
fn find_field_by_name(fs: &Vec<FieldSlot>, name: &str) -> (res: Option<usize>)
    ensures
        res matches Some(i) ==> field_name_first_match(fs@, name@, i as int),
        res is None ==> !field_name_found(fs@, name@),
{
    let mut i: usize = 0;
    while i < fs.len()
        invariant
            i <= fs@.len(),
            forall|j: int| 0 <= j < i ==> (#[trigger] fs@[j]).name@ != name@,
        decreases fs@.len() - i,
    {
        if crate::signature::str_eq(fs[i].name.as_str(), name) {
            return Some(i);
        }
        i = i + 1;
    }
    proof {
        assert forall|k: int| !field_name_first_match(fs@, name@, k) by {
            if 0 <= k < fs@.len() {
                assert(fs@[k].name@ != name@);
            }
        }
    }
    None
}

/// The index of the first field with the given name and signature, if any.
fn find_field_idx(fs: &Vec<FieldSlot>, name: &str, sig: &str) -> (res: Option<usize>)
    ensures
        res matches Some(i) ==> field_first_match(fs@, name@, sig@, i as int),
        res is None ==> !field_found(fs@, name@, sig@),
{
    let mut i: usize = 0;
    while i < fs.len()
        invariant
            i <= fs@.len(),
            forall|j: int| 0 <= j < i ==> !((#[trigger] fs@[j]).name@ == name@ && fs@[j].sig@ == sig@),
        decreases fs@.len() - i,
    {
        if crate::signature::str_eq(fs[i].name.as_str(), name) && crate::signature::str_eq(
            fs[i].sig.as_str(),
            sig,
        ) {
            return Some(i);
        }
        i = i + 1;
    }
    proof {
        assert forall|k: int| !field_first_match(fs@, name@, sig@, k) by {
            if 0 <= k < fs@.len() {
                assert(!(fs@[k].name@ == name@ && fs@[k].sig@ == sig@));
            }
        }
    }
    None
}

/// Whether the signature list holds the given signature.
fn sig_listed(sigs: &Vec<String>, sig: &str) -> (b: bool)
    ensures
        b == ctor_listed(sigs@, sig@),
{
    let mut i: usize = 0;
    while i < sigs.len()
        invariant
            i <= sigs@.len(),
            forall|j: int| 0 <= j < i ==> (#[trigger] sigs@[j])@ != sig@,
        decreases sigs@.len() - i,
    {
        if crate::signature::str_eq(sigs[i].as_str(), sig) {
            return true;
        }
        i = i + 1;
    }
    proof {
        assert forall|k: int| !(0 <= k < sigs@.len() && (#[trigger] sigs@[k])@ == sig@) by {
            if 0 <= k < sigs@.len() {
                assert(sigs@[k]@ != sig@);
            }
        }
    }
    false
}

/// Copies a scripted behavior.
fn clone_behavior(b: &Behavior) -> (r: Behavior)
    ensures
        behavior_eq(r, *b),
{
    match b {
        Behavior::ReturnVoid => Behavior::ReturnVoid,
        Behavior::ReturnScalar(jv) => Behavior::ReturnScalar(*jv),
        Behavior::ReturnNewString(s) => Behavior::ReturnNewString(s.clone()),
        Behavior::ReturnField(s) => Behavior::ReturnField(s.clone()),
        Behavior::WriteArray { arg, data } => Behavior::WriteArray {
            arg: *arg,
            data: copy_arr(data),
        },
        Behavior::Throw(s) => Behavior::Throw(s.clone()),
    }
}

impl JvmSim {
    /// The index of the first class with the given name, if any.
    fn find_class_idx(&self, name: &str) -> (res: Option<usize>)
        ensures
            res matches Some(i) ==> class_first_match(self.classes@, name@, i as int),
            res is None ==> !class_found(self.classes@, name@),
    {
        let mut i: usize = 0;
        while i < self.classes.len()
            invariant
                i <= self.classes@.len(),
                forall|j: int| 0 <= j < i ==> (#[trigger] self.classes@[j]).name@ != name@,
            decreases self.classes@.len() - i,
        {
            if crate::signature::str_eq(self.classes[i].name.as_str(), name) {
                return Some(i);
            }
            i = i + 1;
        }
        proof {
            assert forall|k: int| !class_first_match(self.classes@, name@, k) by {
                if 0 <= k < self.classes@.len() {
                    assert(self.classes@[k].name@ != name@);
                }
            }
        }
        None
    }

    /// The index of the first matching method of a class, if any.
    fn find_method_idx(&self, ci: usize, name: &str, sig: &str, is_static: bool) -> (res: Option<
        usize,
    >)
        requires
            ci < self.classes@.len(),
        ensures
            res matches Some(i) ==> method_first_match(
                self.classes@[ci as int].methods@,
                name@,
                sig@,
                is_static,
                i as int,
            ),
            res is None ==> !method_found(self.classes@[ci as int].methods@, name@, sig@, is_static),
    {
        let ms = &self.classes[ci].methods;
        let mut i: usize = 0;
        while i < ms.len()
            invariant
                ms@ == self.classes@[ci as int].methods@,
                i <= ms@.len(),
                forall|j: int|
                    0 <= j < i ==> !method_matches(#[trigger] ms@[j], name@, sig@, is_static),
            decreases ms@.len() - i,
        {
            let m = &ms[i];
            if m.is_static == is_static && crate::signature::str_eq(m.name.as_str(), name)
                && crate::signature::str_eq(m.sig.as_str(), sig) {
                return Some(i);
            }
            i = i + 1;
        }
        proof {
            assert forall|k: int| !method_first_match(
                self.classes@[ci as int].methods@,
                name@,
                sig@,
                is_static,
                k,
            ) by {
                if 0 <= k < ms@.len() {
                    assert(!method_matches(ms@[k], name@, sig@, is_static));
                }
            }
        }
        None
    }

    /// Runs the scripted behavior of the method at the given class and
    /// method index against the given receiver and boundary arguments.
    fn exec_behavior(
        &mut self,
        this: Option<usize>,
        ci: usize,
        mi: usize,
        args: &Vec<JvmValue>,
    ) -> (res: Result<JvmValue, JniError>)
        requires
            old(self).wf(),
            ci < old(self).classes@.len(),
            mi < old(self).classes@[ci as int].methods@.len(),
            this matches Some(o) ==> o < old(self).objects@.len(),
        ensures
            final(self).wf(),
            final(self).classes@ == old(self).classes@,
            forall|rr: int|
                0 <= rr < old(self).refs@.len() ==> final(self).refs@[rr] == old(self).refs@[rr],
            final(self).refs@.len() >= old(self).refs@.len(),
            final(self).objects@.len() >= old(self).objects@.len(),
            forall|i: int|
                0 <= i < old(self).objects@.len() && !arg_targets(*old(self), args@, i)
                    ==> final(self).objects@[i] == old(self).objects@[i],
            final(self).live_refs() == old(self).live_refs() + (match res {
                Ok(JvmValue::Object(Some(_))) => 1nat,
                _ => 0nat,
            }),
            res matches Ok(jv) ==> (jv matches JvmValue::Object(oo) ==> (oo matches Some(nr)
                ==> final(self).ref_is_obj(nr) && nr == old(self).refs@.len())),
            behavior_outcome(
                *old(self),
                *final(self),
                this,
                old(self).classes@[ci as int].methods@[mi as int].behavior,
                args@,
                res,
            ),
    {
        let b = clone_behavior(&self.classes[ci].methods[mi].behavior);
        match b {
            Behavior::ReturnVoid => Ok(JvmValue::Void),
            Behavior::ReturnScalar(jv) => Ok(jv),
            Behavior::ReturnNewString(s) => {
                let r = self.new_string(s.as_str());
                Ok(JvmValue::Object(Some(r)))
            },
            Behavior::ReturnField(fname) => match this {
                Some(o) => {
                    let v: JvmValue;
                    match &self.objects[o].payload {
                        Payload::Plain(fs) => {
                            match find_field_by_name(fs, fname.as_str()) {
                                Some(fi) => {
                                    v = fs[fi].value;
                                },
                                None => {
                                    return Err(JniError::FieldNotFound);
                                },
                            }
                        },
                        _ => {
                            return Err(JniError::TypeMismatch);
                        },
                    }
                    match v {
                        JvmValue::Object(Some(tid)) => {
                            let nr = self.push_obj_ref(tid);
                            Ok(JvmValue::Object(Some(nr)))
                        },
                        other => Ok(other),
                    }
                },
                None => Err(JniError::TypeMismatch),
            },
            Behavior::WriteArray { arg, data } => {
                if arg >= args.len() {
                    return Err(JniError::TypeMismatch);
                }
                match args[arg] {
                    JvmValue::Object(Some(ar)) => match self.write_array(ar, data) {
                        Ok(_) => Ok(JvmValue::Void),
                        Err(_) => Err(JniError::TypeMismatch),
                    },
                    _ => Err(JniError::TypeMismatch),
                }
            },
            Behavior::Throw(cls) => {
                let oid = self.objects.len();
                self.objects.push(ObjectData { class: cls, payload: Payload::Plain(Vec::new()) });
                self.pending = Some(oid);
                proof {
                    assert forall|oo: int| 0 <= oo < self.objects@.len() implies payload_wf(
                        (#[trigger] self.objects@[oo]).payload,
                        self.objects@.len(),
                    ) by {
                        if oo < self.objects@.len() - 1 {
                            lemma_payload_wf_mono(
                                self.objects@[oo].payload,
                                (self.objects@.len() - 1) as nat,
                                self.objects@.len(),
                            );
                        }
                    }
                }
                Ok(JvmValue::Void)
            },
        }
    }

    /// Looks up a class by its slash-separated name and returns a fresh
    /// class reference, to be released by the caller after use.
    pub fn find_class(&mut self, name: &str) -> (res: Result<usize, JniError>)
        requires
            old(self).wf(),
        ensures
            final(self).wf(),
            !class_found(old(self).classes@, name@) ==> res == Err::<usize, JniError>(
                JniError::ClassNotFound,
            ) && old(self).unchanged(*final(self)),
            class_found(old(self).classes@, name@) ==> (res matches Ok(r) && {
                &&& r == old(self).refs@.len()
                &&& final(self).ref_is_class(r)
                &&& class_first_match(old(self).classes@, name@, final(self).ref_class(r) as int)
                &&& final(self).refs@ == old(self).refs@.push(
                    RefEntry {
                        target: RefTarget::Class(final(self).ref_class(r)),
                        live: true,
                    },
                )
                &&& final(self).objects@ == old(self).objects@
                &&& final(self).classes@ == old(self).classes@
                &&& final(self).pending == old(self).pending
                &&& final(self).live_refs() == old(self).live_refs() + 1
            }),
    {
        match self.find_class_idx(name) {
            Some(ci) => {
                let r = self.refs.len();
                self.refs.push(RefEntry { target: RefTarget::Class(ci), live: true });
                proof {
                    lemma_live_count_push(
                        old(self).refs@,
                        RefEntry { target: RefTarget::Class(ci), live: true },
                    );
                }
                Ok(r)
            },
            None => Err(JniError::ClassNotFound),
        }
    }

    /// Invokes a method by name and signature on the object behind a
    /// reference: the scripted behavior of the first matching instance
    /// method of the object's class runs against the given arguments.
    /// The pending-exception flag must be polled afterwards; a `Throw`
    /// behavior leaves the exception pending and the nominal result is
    /// not meaningful.
    pub fn call_method(&mut self, this_ref: usize, name: &str, sig: &str, args: &Vec<JvmValue>) -> (res:
        Result<JvmValue, JniError>)
        requires
            old(self).wf(),
        ensures
            final(self).wf(),
            final(self).classes@ == old(self).classes@,
            forall|rr: int|
                0 <= rr < old(self).refs@.len() ==> final(self).refs@[rr] == old(self).refs@[rr],
            final(self).refs@.len() >= old(self).refs@.len(),
            final(self).objects@.len() >= old(self).objects@.len(),
            forall|i: int|
                0 <= i < old(self).objects@.len() && !arg_targets(*old(self), args@, i)
                    ==> final(self).objects@[i] == old(self).objects@[i],
            final(self).live_refs() == old(self).live_refs() + (match res {
                Ok(JvmValue::Object(Some(_))) => 1nat,
                _ => 0nat,
            }),
            res matches Ok(jv) ==> (jv matches JvmValue::Object(oo) ==> (oo matches Some(nr)
                ==> final(self).ref_is_obj(nr) && nr == old(self).refs@.len())),
            !old(self).ref_is_obj(this_ref) ==> res == Err::<JvmValue, JniError>(
                JniError::InvalidReference,
            ) && old(self).unchanged(*final(self)),
            old(self).ref_is_obj(this_ref) ==> {
                let cname = old(self).objects@[old(self).ref_obj(this_ref) as int].class@;
                &&& !class_found(old(self).classes@, cname) ==> res == Err::<JvmValue, JniError>(
                    JniError::MethodNotFound,
                ) && old(self).unchanged(*final(self))
                &&& forall|ci: int|
                    class_first_match(old(self).classes@, cname, ci) ==> {
                        &&& !method_found(
                            (#[trigger] old(self).classes@[ci]).methods@,
                            name@,
                            sig@,
                            false,
                        ) ==> res == Err::<JvmValue, JniError>(JniError::MethodNotFound) && old(
                            self,
                        ).unchanged(*final(self))
                        &&& forall|mi: int|
                            method_first_match(
                                old(self).classes@[ci].methods@,
                                name@,
                                sig@,
                                false,
                                mi,
                            ) ==> behavior_outcome(
                                *old(self),
                                *final(self),
                                Some(old(self).ref_obj(this_ref)),
                                (#[trigger] old(self).classes@[ci].methods@[mi]).behavior,
                                args@,
                                res,
                            )
                    }
            },
    {
        let o_opt = self.resolve_obj(this_ref);
        if let Some(o) = o_opt {
            let cname = self.objects[o].class.clone();
            match self.find_class_idx(cname.as_str()) {
                Some(ci) => match self.find_method_idx(ci, name, sig, false) {
                    Some(mi) => self.exec_behavior(Some(o), ci, mi, args),
                    None => Err(JniError::MethodNotFound),
                },
                None => Err(JniError::MethodNotFound),
            }
        } else {
            Err(JniError::InvalidReference)
        }
    }

    /// Invokes a static method by name and signature on the class behind a
    /// class reference.
    pub fn call_static_method(
        &mut self,
        class_ref: usize,
        name: &str,
        sig: &str,
        args: &Vec<JvmValue>,
    ) -> (res: Result<JvmValue, JniError>)
        requires
            old(self).wf(),
        ensures
            final(self).wf(),
            final(self).classes@ == old(self).classes@,
            forall|rr: int|
                0 <= rr < old(self).refs@.len() ==> final(self).refs@[rr] == old(self).refs@[rr],
            final(self).refs@.len() >= old(self).refs@.len(),
            final(self).objects@.len() >= old(self).objects@.len(),
            forall|i: int|
                0 <= i < old(self).objects@.len() && !arg_targets(*old(self), args@, i)
                    ==> final(self).objects@[i] == old(self).objects@[i],
            final(self).live_refs() == old(self).live_refs() + (match res {
                Ok(JvmValue::Object(Some(_))) => 1nat,
                _ => 0nat,
            }),
            res matches Ok(jv) ==> (jv matches JvmValue::Object(oo) ==> (oo matches Some(nr)
                ==> final(self).ref_is_obj(nr) && nr == old(self).refs@.len())),
            !old(self).ref_is_class(class_ref) ==> res == Err::<JvmValue, JniError>(
                JniError::InvalidReference,
            ) && old(self).unchanged(*final(self)),
            old(self).ref_is_class(class_ref) ==> {
                let ci = old(self).ref_class(class_ref) as int;
                &&& !method_found(old(self).classes@[ci].methods@, name@, sig@, true) ==> res
                    == Err::<JvmValue, JniError>(JniError::MethodNotFound) && old(self).unchanged(
                    *final(self),
                )
                &&& forall|mi: int|
                    method_first_match(old(self).classes@[ci].methods@, name@, sig@, true, mi)
                        ==> behavior_outcome(
                        *old(self),
                        *final(self),
                        None,
                        (#[trigger] old(self).classes@[ci].methods@[mi]).behavior,
                        args@,
                        res,
                    )
            },
    {
        let ci_opt: Option<usize> = if class_ref < self.refs.len() {
            let e = self.refs[class_ref];
            if e.live {
                match e.target {
                    RefTarget::Class(ci) => Some(ci),
                    _ => None,
                }
            } else {
                None
            }
        } else {
            None
        };
        if let Some(ci) = ci_opt {
            match self.find_method_idx(ci, name, sig, true) {
                Some(mi) => self.exec_behavior(None, ci, mi, args),
                None => Err(JniError::MethodNotFound),
            }
        } else {
            Err(JniError::InvalidReference)
        }
    }

    /// Allocates a new instance of the class behind a class reference,
    /// provided the class lists a constructor of the given signature, and
    /// returns a fresh reference to it.  Constructor bodies are outside the
    /// model: the new object starts with no fields.
    pub fn new_object(&mut self, class_ref: usize, sig: &str, args: &Vec<JvmValue>) -> (res: Result<
        usize,
        JniError,
    >)
        requires
            old(self).wf(),
        ensures
            final(self).wf(),
            !old(self).ref_is_class(class_ref) ==> res == Err::<usize, JniError>(
                JniError::InvalidReference,
            ) && old(self).unchanged(*final(self)),
            old(self).ref_is_class(class_ref) ==> {
                let ci = old(self).ref_class(class_ref) as int;
                &&& !ctor_listed(old(self).classes@[ci].ctor_sigs@, sig@) ==> res == Err::<
                    usize,
                    JniError,
                >(JniError::MethodNotFound) && old(self).unchanged(*final(self))
                &&& ctor_listed(old(self).classes@[ci].ctor_sigs@, sig@) ==> res is Ok
            },
            res matches Ok(r) ==> {
                let ci = old(self).ref_class(class_ref) as int;
                &&& r == old(self).refs@.len()
                &&& final(self).objects@.len() == old(self).objects@.len() + 1
                &&& final(self).objects@.last().class == old(self).classes@[ci].name
                &&& final(self).objects@.last().payload matches Payload::Plain(fs) && fs@.len()
                    == 0
                &&& forall|i: int|
                    0 <= i < old(self).objects@.len() ==> final(self).objects@[i] == old(
                        self,
                    ).objects@[i]
                &&& final(self).refs@ == old(self).refs@.push(
                    RefEntry {
                        target: RefTarget::Obj(old(self).objects@.len() as usize),
                        live: true,
                    },
                )
                &&& final(self).ref_is_obj(r)
                &&& final(self).ref_obj(r) == old(self).objects@.len()
                &&& final(self).classes@ == old(self).classes@
                &&& final(self).pending == old(self).pending
                &&& final(self).live_refs() == old(self).live_refs() + 1
            },
    {
        let ci_opt: Option<usize> = if class_ref < self.refs.len() {
            let e = self.refs[class_ref];
            if e.live {
                match e.target {
                    RefTarget::Class(ci) => Some(ci),
                    _ => None,
                }
            } else {
                None
            }
        } else {
            None
        };
        if let Some(ci) = ci_opt {
            let listed = sig_listed(&self.classes[ci].ctor_sigs, sig);
            if listed {
                let cls = self.classes[ci].name.clone();
                let r = self.alloc_object(
                    ObjectData { class: cls, payload: Payload::Plain(Vec::new()) },
                );
                Ok(r)
            } else {
                Err(JniError::MethodNotFound)
            }
        } else {
            Err(JniError::InvalidReference)
        }
    }

    /// Reads a field of the object behind a reference by name and
    /// signature; an object-valued field comes back as a fresh reference.
    pub fn get_field(&mut self, obj_ref: usize, name: &str, sig: &str) -> (res: Result<
        JvmValue,
        JniError,
    >)
        requires
            old(self).wf(),
        ensures
            final(self).wf(),
            !old(self).ref_is_obj(obj_ref) ==> res == Err::<JvmValue, JniError>(
                JniError::InvalidReference,
            ) && old(self).unchanged(*final(self)),
            old(self).ref_is_obj(obj_ref) ==> match old(self).objects@[old(self).ref_obj(
                obj_ref,
            ) as int].payload {
                Payload::Plain(fs) => {
                    &&& !field_found(fs@, name@, sig@) ==> res == Err::<JvmValue, JniError>(
                        JniError::FieldNotFound,
                    ) && old(self).unchanged(*final(self))
                    &&& forall|fi: int|
                        field_first_match(fs@, name@, sig@, fi) ==> match (#[trigger] fs@[fi]).value {
                            JvmValue::Object(Some(tid)) => {
                                &&& res matches Ok(jv)
                                &&& jv matches JvmValue::Object(oo)
                                &&& oo matches Some(nr)
                                &&& nr == old(self).refs@.len()
                                &&& final(self).ref_is_obj(nr)
                                &&& final(self).ref_obj(nr) == tid
                                &&& final(self).refs@ == old(self).refs@.push(
                                    RefEntry { target: RefTarget::Obj(tid), live: true },
                                )
                                &&& final(self).objects@ == old(self).objects@
                                &&& final(self).classes@ == old(self).classes@
                                &&& final(self).pending == old(self).pending
                                &&& final(self).live_refs() == old(self).live_refs() + 1
                            },
                            v => res == Ok::<JvmValue, JniError>(v) && old(self).unchanged(
                                *final(self),
                            ),
                        }
                },
                _ => res == Err::<JvmValue, JniError>(JniError::TypeMismatch) && old(
                    self,
                ).unchanged(*final(self)),
            },
    {
        let o_opt = self.resolve_obj(obj_ref);
        if let Some(o) = o_opt {
            let v: JvmValue;
            match &self.objects[o].payload {
                Payload::Plain(fs) => {
                    match find_field_idx(fs, name, sig) {
                        Some(fi) => {
                            v = fs[fi].value;
                        },
                        None => {
                            return Err(JniError::FieldNotFound);
                        },
                    }
                },
                _ => {
                    return Err(JniError::TypeMismatch);
                },
            }
            match v {
                JvmValue::Object(Some(tid)) => {
                    let nr = self.push_obj_ref(tid);
                    Ok(JvmValue::Object(Some(nr)))
                },
                other => Ok(other),
            }
        } else {
            Err(JniError::InvalidReference)
        }
    }

    /// Writes a field of the object behind a reference by name and
    /// signature.  An object-valued new value is given as a reference and
    /// stored resolved.
    pub fn set_field(&mut self, obj_ref: usize, name: &str, sig: &str, v: JvmValue) -> (res: Result<
        (),
        JniError,
    >)
        requires
            old(self).wf(),
        ensures
            final(self).wf(),
            !old(self).ref_is_obj(obj_ref) ==> res == Err::<(), JniError>(
                JniError::InvalidReference,
            ) && old(self).unchanged(*final(self)),
            old(self).ref_is_obj(obj_ref) ==> match old(self).objects@[old(self).ref_obj(
                obj_ref,
            ) as int].payload {
                Payload::Plain(fs) => {
                    &&& old(self).resolve_spec(v) is None ==> res == Err::<(), JniError>(
                        JniError::InvalidReference,
                    ) && old(self).unchanged(*final(self))
                    &&& old(self).resolve_spec(v) matches Some(rv) ==> {
                        &&& !field_found(fs@, name@, sig@) ==> res == Err::<(), JniError>(
                            JniError::FieldNotFound,
                        ) && old(self).unchanged(*final(self))
                        &&& forall|fi: int|
                            #[trigger] field_first_match(fs@, name@, sig@, fi) ==> {
                                let oid = old(self).ref_obj(obj_ref) as int;
                                &&& res is Ok
                                &&& final(self).objects@.len() == old(self).objects@.len()
                                &&& final(self).objects@[oid].class == old(
                                    self,
                                ).objects@[oid].class
                                &&& final(self).objects@[oid].payload matches Payload::Plain(fs2)
                                    && fs2@ == update_field_vec(fs@, fi, rv)
                                &&& forall|i: int|
                                    0 <= i < old(self).objects@.len() && i != oid
                                        ==> final(self).objects@[i] == old(self).objects@[i]
                                &&& final(self).refs@ == old(self).refs@
                                &&& final(self).classes@ == old(self).classes@
                                &&& final(self).pending == old(self).pending
                            }
                    }
                },
                _ => res == Err::<(), JniError>(JniError::TypeMismatch) && old(self).unchanged(
                    *final(self),
                ),
            },
    {
        let o_opt = self.resolve_obj(obj_ref);
        if let Some(o) = o_opt {
            let rv: JvmValue;
            match self.resolve_value(v) {
                Some(x) => {
                    rv = x;
                },
                None => {
                    match &self.objects[o].payload {
                        Payload::Plain(_) => {
                            return Err(JniError::InvalidReference);
                        },
                        _ => {
                            return Err(JniError::TypeMismatch);
                        },
                    }
                },
            }
            let fs2: Vec<FieldSlot>;
            match &self.objects[o].payload {
                Payload::Plain(fs) => {
                    match find_field_idx(fs, name, sig) {
                        Some(k) => {
                            let mut tmp = clone_fields(fs);
                            let nm = fs[k].name.clone();
                            let sg = fs[k].sig.clone();
                            tmp.set(k, FieldSlot { name: nm, sig: sg, value: rv });
                            fs2 = tmp;
                        },
                        None => {
                            return Err(JniError::FieldNotFound);
                        },
                    }
                },
                _ => {
                    return Err(JniError::TypeMismatch);
                },
            }
            let cls = self.objects[o].class.clone();
            self.objects.set(o, ObjectData { class: cls, payload: Payload::Plain(fs2) });
            proof {
                assert forall|oo: int| 0 <= oo < self.objects@.len() implies payload_wf(
                    (#[trigger] self.objects@[oo]).payload,
                    self.objects@.len(),
                ) by {}
            }
            Ok(())
        } else {
            Err(JniError::InvalidReference)
        }
    }
}

/// The field list with the slot at `fi` holding the new value, name and
/// signature kept.
pub open spec fn update_field_vec(fs: Seq<FieldSlot>, fi: int, rv: JvmValue) -> Seq<FieldSlot>
    recommends
        0 <= fi < fs.len(),
{
    fs.update(fi, FieldSlot { name: fs[fi].name, sig: fs[fi].sig, value: rv })
}

/// Copies a field list slot by slot.
fn clone_fields(v: &Vec<FieldSlot>) -> (r: Vec<FieldSlot>)
    ensures
        r@ == v@,
{
    let mut r: Vec<FieldSlot> = Vec::new();
    let mut i: usize = 0;
    while i < v.len()
        invariant
            i <= v@.len(),
            r@ == v@.take(i as int),
        decreases v@.len() - i,
    {
        let s = &v[i];
        r.push(FieldSlot { name: s.name.clone(), sig: s.sig.clone(), value: s.value });
        proof {
            assert(FieldSlot { name: s.name, sig: s.sig, value: s.value } == v@[i as int]);
            assert(v@.take(i + 1) =~= v@.take(i as int).push(v@[i as int]));
        }
        i = i + 1;
    }
    proof {
        assert(v@.take(v@.len() as int) =~= v@);
    }
    r
}

} // verus!
