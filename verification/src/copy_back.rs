//! Array copy-back guards: scoped staging of a mutable native buffer as a
//! JVM array.
//!
//! A guard is created before a call, copying the native buffer into a
//! freshly allocated array object whose one local reference the guard
//! owns.  During the call the guard is exposed as a borrowed call argument
//! and must not be touched otherwise.  Releasing the guard ends the scope:
//! it reads the (possibly mutated) array contents back, releases the
//! reference, and hands the contents to the caller — on every exit path,
//! the error path included.  Release is an explicit operation here: it is
//! the scope-exit obligation that a destructor performs in settings with
//! implicit destruction, and each guard must be released exactly once.

use vstd::prelude::*;

use crate::error::JniError;
use crate::marshal::all_units_scalar;
use crate::marshal::chars_of_units;
use crate::marshal::copy_bool_array_to_jbooleanarray;
use crate::marshal::copy_char_array_to_jchararray;
use crate::marshal::take_array;
use crate::marshal::units_of_chars;
use crate::runtime::ArrData;
use crate::runtime::JvmSim;
use crate::runtime::Payload;
use crate::runtime::RefEntry;
use crate::runtime::RefTarget;
use crate::values::JvmValue;

verus! {

/// Copy-back guard for a native boolean buffer.
pub struct ArrayCopyBackBool {
    /// The owned local reference to the staged array object.
    pub array: usize,
}

impl ArrayCopyBackBool {
    /// The guard owns a live reference to a boolean array object.
    pub open spec fn wf(self, s: JvmSim) -> bool {
        s.ref_is_obj(self.array) && s.objects@[s.ref_obj(self.array) as int].payload matches
            Payload::Arr(ArrData::Bools(_))
    }

    /// The staged array's current contents.
    pub open spec fn contents(self, s: JvmSim) -> Seq<bool> {
        s.objects@[s.ref_obj(self.array) as int].payload->Arr_0->Bools_0@
    }

    /// Stages the buffer as a fresh boolean array object.
    pub fn new(src: &Vec<bool>, env: &mut JvmSim) -> (g: ArrayCopyBackBool)
        requires
            old(env).wf(),
        ensures
            final(env).wf(),
            g.wf(*final(env)),
            g.contents(*final(env)) == src@,
            g.array == old(env).refs@.len(),
            final(env).objects@.len() == old(env).objects@.len() + 1,
            forall|i: int|
                0 <= i < old(env).objects@.len() ==> final(env).objects@[i] == old(
                    env,
                ).objects@[i],
            final(env).refs@ == old(env).refs@.push(
                RefEntry {
                    target: RefTarget::Obj(old(env).objects@.len() as usize),
                    live: true,
                },
            ),
            final(env).classes@ == old(env).classes@,
            final(env).pending == old(env).pending,
            final(env).live_refs() == old(env).live_refs() + 1,
    {
        let array = copy_bool_array_to_jbooleanarray(env, src);
        ArrayCopyBackBool { array }
    }

    /// The borrowed call-argument view of the staged array; the guard
    /// keeps ownership of the reference.
    pub fn as_jvalue(&self) -> (r: JvmValue)
        ensures
            r == JvmValue::Object(Some(self.array)),
    {
        JvmValue::Object(Some(self.array))
    }

    /// Ends the guard's scope: reads the array contents back into a
    /// native buffer and releases the reference.
    pub fn release(self, env: &mut JvmSim) -> (r: Vec<bool>)
        requires
            old(env).wf(),
            self.wf(*old(env)),
        ensures
            final(env).wf(),
            r@ == self.contents(*old(env)),
            final(env).objects@ == old(env).objects@,
            final(env).classes@ == old(env).classes@,
            final(env).pending == old(env).pending,
            final(env).refs@ == old(env).refs@.update(
                self.array as int,
                RefEntry { target: old(env).refs@[self.array as int].target, live: false },
            ),
            final(env).live_refs() + 1 == old(env).live_refs(),
    {
        match take_array(env, self.array) {
            Ok(a) => match a {
                ArrData::Bools(v) => v,
                _ => Vec::new(),
            },
            Err(_) => Vec::new(),
        }
    }
}

/// Copy-back guard for a native character buffer, staged as UTF-16 code
/// units.
pub struct ArrayCopyBackChar {
    /// The owned local reference to the staged array object.
    pub array: usize,
}

impl ArrayCopyBackChar {
    /// The guard owns a live reference to a UTF-16 array object.
    pub open spec fn wf(self, s: JvmSim) -> bool {
        s.ref_is_obj(self.array) && s.objects@[s.ref_obj(self.array) as int].payload matches
            Payload::Arr(ArrData::Chars(_))
    }

    /// The staged array's current code units.
    pub open spec fn contents(self, s: JvmSim) -> Seq<u16> {
        s.objects@[s.ref_obj(self.array) as int].payload->Arr_0->Chars_0@
    }

    /// Stages the buffer as a fresh UTF-16 array object.
    pub fn new(src: &Vec<char>, env: &mut JvmSim) -> (g: ArrayCopyBackChar)
        requires
            old(env).wf(),
        ensures
            final(env).wf(),
            g.wf(*final(env)),
            g.contents(*final(env)) == units_of_chars(src@),
            g.array == old(env).refs@.len(),
            final(env).objects@.len() == old(env).objects@.len() + 1,
            forall|i: int|
                0 <= i < old(env).objects@.len() ==> final(env).objects@[i] == old(
                    env,
                ).objects@[i],
            final(env).refs@ == old(env).refs@.push(
                RefEntry {
                    target: RefTarget::Obj(old(env).objects@.len() as usize),
                    live: true,
                },
            ),
            final(env).classes@ == old(env).classes@,
            final(env).pending == old(env).pending,
            final(env).live_refs() == old(env).live_refs() + 1,
    {
        let array = copy_char_array_to_jchararray(env, src);
        ArrayCopyBackChar { array }
    }

    /// The borrowed call-argument view of the staged array.
    pub fn as_jvalue(&self) -> (r: JvmValue)
        ensures
            r == JvmValue::Object(Some(self.array)),
    {
        JvmValue::Object(Some(self.array))
    }

    /// Ends the guard's scope: reads the code units back, decodes them,
    /// and releases the reference.  The reference is released even when a
    /// code unit is not a valid Unicode scalar and the decoding fails.
    pub fn release(self, env: &mut JvmSim) -> (r: Result<Vec<char>, JniError>)
        requires
            old(env).wf(),
            self.wf(*old(env)),
        ensures
            final(env).wf(),
            all_units_scalar(self.contents(*old(env))) ==> (r matches Ok(v) && v@
                == chars_of_units(self.contents(*old(env)))),
            !all_units_scalar(self.contents(*old(env))) ==> r == Err::<Vec<char>, JniError>(
                JniError::InvalidCodePoint,
            ),
            final(env).objects@ == old(env).objects@,
            final(env).classes@ == old(env).classes@,
            final(env).pending == old(env).pending,
            final(env).refs@ == old(env).refs@.update(
                self.array as int,
                RefEntry { target: old(env).refs@[self.array as int].target, live: false },
            ),
            final(env).live_refs() + 1 == old(env).live_refs(),
    {
        crate::marshal::move_jchararray_to_char_array(env, self.array)
    }
}

/// Copy-back guard for a native 16-bit integer buffer.
pub struct ArrayCopyBackShort {
    /// The owned local reference to the staged array object.
    pub array: usize,
}

impl ArrayCopyBackShort {
    /// The guard owns a live reference to a 16-bit array object.
    pub open spec fn wf(self, s: JvmSim) -> bool {
        s.ref_is_obj(self.array) && s.objects@[s.ref_obj(self.array) as int].payload matches
            Payload::Arr(ArrData::Shorts(_))
    }

    /// The staged array's current contents.
    pub open spec fn contents(self, s: JvmSim) -> Seq<i16> {
        s.objects@[s.ref_obj(self.array) as int].payload->Arr_0->Shorts_0@
    }

    /// Stages the buffer as a fresh 16-bit array object.
    pub fn new(src: &Vec<i16>, env: &mut JvmSim) -> (g: ArrayCopyBackShort)
        requires
            old(env).wf(),
        ensures
            final(env).wf(),
            g.wf(*final(env)),
            g.contents(*final(env)) == src@,
            g.array == old(env).refs@.len(),
            final(env).objects@.len() == old(env).objects@.len() + 1,
            forall|i: int|
                0 <= i < old(env).objects@.len() ==> final(env).objects@[i] == old(
                    env,
                ).objects@[i],
            final(env).refs@ == old(env).refs@.push(
                RefEntry {
                    target: RefTarget::Obj(old(env).objects@.len() as usize),
                    live: true,
                },
            ),
            final(env).classes@ == old(env).classes@,
            final(env).pending == old(env).pending,
            final(env).live_refs() == old(env).live_refs() + 1,
    {
        let array = env.new_array("[S", ArrData::Shorts(crate::runtime::copy_vec(src)));
        ArrayCopyBackShort { array }
    }

    /// The borrowed call-argument view of the staged array.
    pub fn as_jvalue(&self) -> (r: JvmValue)
        ensures
            r == JvmValue::Object(Some(self.array)),
    {
        JvmValue::Object(Some(self.array))
    }

    /// Ends the guard's scope: reads the array contents back and releases
    /// the reference.
    pub fn release(self, env: &mut JvmSim) -> (r: Vec<i16>)
        requires
            old(env).wf(),
            self.wf(*old(env)),
        ensures
            final(env).wf(),
            r@ == self.contents(*old(env)),
            final(env).objects@ == old(env).objects@,
            final(env).classes@ == old(env).classes@,
            final(env).pending == old(env).pending,
            final(env).refs@ == old(env).refs@.update(
                self.array as int,
                RefEntry { target: old(env).refs@[self.array as int].target, live: false },
            ),
            final(env).live_refs() + 1 == old(env).live_refs(),
    {
        match take_array(env, self.array) {
            Ok(a) => match a {
                ArrData::Shorts(v) => v,
                _ => Vec::new(),
            },
            Err(_) => Vec::new(),
        }
    }
}

/// Copy-back guard for a native signed byte buffer.
pub struct ArrayCopyBackByte {
    /// The owned local reference to the staged array object.
    pub array: usize,
}

impl ArrayCopyBackByte {
    /// The guard owns a live reference to a byte array object.
    pub open spec fn wf(self, s: JvmSim) -> bool {
        s.ref_is_obj(self.array) && s.objects@[s.ref_obj(self.array) as int].payload matches
            Payload::Arr(ArrData::Bytes(_))
    }

    /// The staged array's current contents.
    pub open spec fn contents(self, s: JvmSim) -> Seq<i8> {
        s.objects@[s.ref_obj(self.array) as int].payload->Arr_0->Bytes_0@
    }

    /// Stages the buffer as a fresh byte array object.
    pub fn new(src: &Vec<i8>, env: &mut JvmSim) -> (g: ArrayCopyBackByte)
        requires
            old(env).wf(),
        ensures
            final(env).wf(),
            g.wf(*final(env)),
            g.contents(*final(env)) == src@,
            g.array == old(env).refs@.len(),
            final(env).objects@.len() == old(env).objects@.len() + 1,
            forall|i: int|
                0 <= i < old(env).objects@.len() ==> final(env).objects@[i] == old(
                    env,
                ).objects@[i],
            final(env).refs@ == old(env).refs@.push(
                RefEntry {
                    target: RefTarget::Obj(old(env).objects@.len() as usize),
                    live: true,
                },
            ),
            final(env).classes@ == old(env).classes@,
            final(env).pending == old(env).pending,
            final(env).live_refs() == old(env).live_refs() + 1,
    {
        let array = env.new_array("[B", ArrData::Bytes(crate::runtime::copy_vec(src)));
        ArrayCopyBackByte { array }
    }

    /// The borrowed call-argument view of the staged array.
    pub fn as_jvalue(&self) -> (r: JvmValue)
        ensures
            r == JvmValue::Object(Some(self.array)),
    {
        JvmValue::Object(Some(self.array))
    }

    /// Ends the guard's scope: reads the array contents back and releases
    /// the reference.
    pub fn release(self, env: &mut JvmSim) -> (r: Vec<i8>)
        requires
            old(env).wf(),
            self.wf(*old(env)),
        ensures
            final(env).wf(),
            r@ == self.contents(*old(env)),
            final(env).objects@ == old(env).objects@,
            final(env).classes@ == old(env).classes@,
            final(env).pending == old(env).pending,
            final(env).refs@ == old(env).refs@.update(
                self.array as int,
                RefEntry { target: old(env).refs@[self.array as int].target, live: false },
            ),
            final(env).live_refs() + 1 == old(env).live_refs(),
    {
        match take_array(env, self.array) {
            Ok(a) => match a {
                ArrData::Bytes(v) => v,
                _ => Vec::new(),
            },
            Err(_) => Vec::new(),
        }
    }
}

/// Copy-back guard for a native 32-bit integer buffer.
pub struct ArrayCopyBackInt {
    /// The owned local reference to the staged array object.
    pub array: usize,
}

impl ArrayCopyBackInt {
    /// The guard owns a live reference to a 32-bit array object.
    pub open spec fn wf(self, s: JvmSim) -> bool {
        s.ref_is_obj(self.array) && s.objects@[s.ref_obj(self.array) as int].payload matches
            Payload::Arr(ArrData::Ints(_))
    }

    /// The staged array's current contents.
    pub open spec fn contents(self, s: JvmSim) -> Seq<i32> {
        s.objects@[s.ref_obj(self.array) as int].payload->Arr_0->Ints_0@
    }

    /// Stages the buffer as a fresh 32-bit array object.
    pub fn new(src: &Vec<i32>, env: &mut JvmSim) -> (g: ArrayCopyBackInt)
        requires
            old(env).wf(),
        ensures
            final(env).wf(),
            g.wf(*final(env)),
            g.contents(*final(env)) == src@,
            g.array == old(env).refs@.len(),
            final(env).objects@.len() == old(env).objects@.len() + 1,
            forall|i: int|
                0 <= i < old(env).objects@.len() ==> final(env).objects@[i] == old(
                    env,
                ).objects@[i],
            final(env).refs@ == old(env).refs@.push(
                RefEntry {
                    target: RefTarget::Obj(old(env).objects@.len() as usize),
                    live: true,
                },
            ),
            final(env).classes@ == old(env).classes@,
            final(env).pending == old(env).pending,
            final(env).live_refs() == old(env).live_refs() + 1,
    {
        let array = env.new_array("[I", ArrData::Ints(crate::runtime::copy_vec(src)));
        ArrayCopyBackInt { array }
    }

    /// The borrowed call-argument view of the staged array.
    pub fn as_jvalue(&self) -> (r: JvmValue)
        ensures
            r == JvmValue::Object(Some(self.array)),
    {
        JvmValue::Object(Some(self.array))
    }

    /// Ends the guard's scope: reads the array contents back and releases
    /// the reference.  What comes back is exactly what the JVM side left
    /// in the array, mutations included.
    pub fn release(self, env: &mut JvmSim) -> (r: Vec<i32>)
        requires
            old(env).wf(),
            self.wf(*old(env)),
        ensures
            final(env).wf(),
            r@ == self.contents(*old(env)),
            final(env).objects@ == old(env).objects@,
            final(env).classes@ == old(env).classes@,
            final(env).pending == old(env).pending,
            final(env).refs@ == old(env).refs@.update(
                self.array as int,
                RefEntry { target: old(env).refs@[self.array as int].target, live: false },
            ),
            final(env).live_refs() + 1 == old(env).live_refs(),
    {
        match take_array(env, self.array) {
            Ok(a) => match a {
                ArrData::Ints(v) => v,
                _ => Vec::new(),
            },
            Err(_) => Vec::new(),
        }
    }
}

/// Copy-back guard for a native 64-bit integer buffer.
pub struct ArrayCopyBackLong {
    /// The owned local reference to the staged array object.
    pub array: usize,
}

impl ArrayCopyBackLong {
    /// The guard owns a live reference to a 64-bit array object.
    pub open spec fn wf(self, s: JvmSim) -> bool {
        s.ref_is_obj(self.array) && s.objects@[s.ref_obj(self.array) as int].payload matches
            Payload::Arr(ArrData::Longs(_))
    }

    /// The staged array's current contents.
    pub open spec fn contents(self, s: JvmSim) -> Seq<i64> {
        s.objects@[s.ref_obj(self.array) as int].payload->Arr_0->Longs_0@
    }

    /// Stages the buffer as a fresh 64-bit array object.
    pub fn new(src: &Vec<i64>, env: &mut JvmSim) -> (g: ArrayCopyBackLong)
        requires
            old(env).wf(),
        ensures
            final(env).wf(),
            g.wf(*final(env)),
            g.contents(*final(env)) == src@,
            g.array == old(env).refs@.len(),
            final(env).objects@.len() == old(env).objects@.len() + 1,
            forall|i: int|
                0 <= i < old(env).objects@.len() ==> final(env).objects@[i] == old(
                    env,
                ).objects@[i],
            final(env).refs@ == old(env).refs@.push(
                RefEntry {
                    target: RefTarget::Obj(old(env).objects@.len() as usize),
                    live: true,
                },
            ),
            final(env).classes@ == old(env).classes@,
            final(env).pending == old(env).pending,
            final(env).live_refs() == old(env).live_refs() + 1,
    {
        let array = env.new_array("[J", ArrData::Longs(crate::runtime::copy_vec(src)));
        ArrayCopyBackLong { array }
    }

    /// The borrowed call-argument view of the staged array.
    pub fn as_jvalue(&self) -> (r: JvmValue)
        ensures
            r == JvmValue::Object(Some(self.array)),
    {
        JvmValue::Object(Some(self.array))
    }

    /// Ends the guard's scope: reads the array contents back and releases
    /// the reference.
    pub fn release(self, env: &mut JvmSim) -> (r: Vec<i64>)
        requires
            old(env).wf(),
            self.wf(*old(env)),
        ensures
            final(env).wf(),
            r@ == self.contents(*old(env)),
            final(env).objects@ == old(env).objects@,
            final(env).classes@ == old(env).classes@,
            final(env).pending == old(env).pending,
            final(env).refs@ == old(env).refs@.update(
                self.array as int,
                RefEntry { target: old(env).refs@[self.array as int].target, live: false },
            ),
            final(env).live_refs() + 1 == old(env).live_refs(),
    {
        match take_array(env, self.array) {
            Ok(a) => match a {
                ArrData::Longs(v) => v,
                _ => Vec::new(),
            },
            Err(_) => Vec::new(),
        }
    }
}

} // verus!
