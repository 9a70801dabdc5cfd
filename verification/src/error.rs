//! The unified error kind for the native-to-JVM call boundary.

use vstd::prelude::*;

verus! {

/// Everything that can go wrong while marshalling values or performing a
/// call through the host runtime.
#[derive(Clone, Copy, PartialEq, Eq, Structural, Debug)]
pub enum JniError {
    /// A class lookup by slash-separated name found no such class.
    ClassNotFound,
    /// A method lookup by name and signature found no such method.
    MethodNotFound,
    /// A field lookup by name and signature found no such field.
    FieldNotFound,
    /// The host runtime has an exception pending; the nominal result of the
    /// operation that raised it must not be used.
    PendingException,
    /// A UTF-16 code unit coming back from the host runtime is not a valid
    /// Unicode scalar value.
    InvalidCodePoint,
    /// A computed descriptor contains a `.`: a class name was given in
    /// dotted form instead of slash form.
    BadDescriptor,
    /// A reference handle is out of range or was already released.
    InvalidReference,
    /// A value did not have the representation the conversion expected.
    TypeMismatch,
    /// The requested conversion is outside the supported native type set.
    UnsupportedType,
}

} // verus!
