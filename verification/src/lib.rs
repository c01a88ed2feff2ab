//! A verified model of CPython's capsule boundary.
//!
//! Capsules are CPython's way of passing C-level API pointers between
//! extension modules: an opaque pointer paired with a dotted name, looked up
//! through the interpreter's module registry and handed out only when the
//! requested name matches the capsule's own name exactly.
//!
//! This crate verifies the marshalling decisions a binding layer makes at
//! that boundary: validating capsule names before they cross into C (no
//! interior NUL byte), building and splitting the dotted lookup names,
//! enforcing identity-by-name when capsule data is retrieved, and turning a
//! NULL result of an interpreter call into an error value. The interpreter
//! calls themselves are foreign, unsafe code and live outside this library.

pub mod capsule;
pub mod name;
