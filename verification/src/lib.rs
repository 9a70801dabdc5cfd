//! Type-directed marshalling for calls across a native-to-JVM boundary.
//!
//! The crate encodes JVM type descriptors and method signatures, converts
//! native values to and from the JVM's boxed call-argument representation,
//! stages mutable native buffers as JVM arrays with guaranteed copy-back,
//! and orchestrates instance, static and constructor calls against a host
//! runtime, checking for pending exceptions and releasing every local
//! reference it creates.  The host runtime itself is modelled explicitly by
//! [`runtime::JvmSim`], a state machine over plain values; an adapter for a
//! real JVM binding lives outside the verified library.

pub mod calls;
pub mod copy_back;
pub mod error;
pub mod marshal;
pub mod runtime;
pub mod signature;
pub mod values;
pub mod wrappers;
