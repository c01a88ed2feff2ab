//! A model of a CPython capsule: an opaque data pointer paired with a name.
//!
//! The interpreter object is foreign; what this module verifies is the rule
//! the binding layer must uphold around it: a capsule is created under a
//! NUL-free name and a non-NULL pointer, and it hands its pointer back only
//! for exactly that name (identity-by-name).

use vstd::prelude::*;

use crate::name::{nul_free, CapsuleError, CapsuleName};

verus! {

/// What a capsule is, mathematically: the bytes of its name and the address
/// of the enclosed pointer.
pub ghost struct CapsuleView {
    pub name: Seq<u8>,
    pub data: usize,
}

/// A Python capsule, modeled by the two things the C API reads of it: its
/// name and the address of the pointer it encloses.
pub struct PyCapsule {
    name: CapsuleName,
    data: usize,
}

impl View for PyCapsule {
    type V = CapsuleView;

    closed spec fn view(&self) -> CapsuleView {
        CapsuleView { name: self.name@, data: self.data }
    }
}

impl PyCapsule {
    /// Every capsule satisfies this: the name is NUL-free and the enclosed
    /// pointer is not NULL.
    pub open spec fn wf(&self) -> bool {
        nul_free(self@.name) && self@.data != 0
    }

    /// Creates a capsule enclosing the pointer at address `data` under
    /// `name`. Succeeds exactly when the name holds no NUL byte; the C side
    /// refuses a NULL pointer outright, so a zero address is not accepted
    /// here at all.
    pub fn new(data: usize, name: Vec<u8>) -> (r: Result<PyCapsule, CapsuleError>)
        requires
            data != 0,
        ensures
            r is Ok <==> nul_free(name@),
            r matches Ok(c) ==> c@.name == name@ && c@.data == data && c.wf(),
            r matches Err(e) ==> (e matches CapsuleError::InteriorNul(p)
                && 0 <= p < name@.len()
                && name@[p as int] == 0u8
                && (forall|j: int| 0 <= j < p ==> name@[j] != 0u8)),
    {
        match CapsuleName::new(name) {
            Ok(n) => Ok(PyCapsule { name: n, data }),
            Err(e) => Err(e),
        }
    }

    /// Creates a capsule for some addressable datum: the same contract as
    /// `new`, with the address standing for the reference taken in C.
    pub fn new_data(data: usize, name: Vec<u8>) -> (r: Result<PyCapsule, CapsuleError>)
        requires
            data != 0,
        ensures
            r is Ok <==> nul_free(name@),
            r matches Ok(c) ==> c@.name == name@ && c@.data == data && c.wf(),
            r matches Err(e) ==> (e matches CapsuleError::InteriorNul(p)
                && 0 <= p < name@.len()
                && name@[p as int] == 0u8
                && (forall|j: int| 0 <= j < p ==> name@[j] != 0u8)),
    {
        Self::new(data, name)
    }

    /// The identity-by-name rule of capsule data access: the enclosed
    /// address is handed out for exactly the capsule's own name, and for no
    /// other.
    pub fn data_ref_cstr(&self, name: &CapsuleName) -> (r: Option<usize>)
        ensures
            name@ == self@.name ==> r == Some(self@.data),
            name@ != self@.name ==> r is None,
    {
        if self.name.eq_name(name) {
            Some(self.data)
        } else {
            None
        }
    }

    /// Data access with an unvalidated name: the name is first validated as
    /// `CapsuleName::new` does, then matched against the capsule's own name.
    /// Succeeds with the enclosed address exactly when the name is NUL-free
    /// and equal to the capsule's name.
    pub fn data_ref(&self, name: Vec<u8>) -> (r: Result<usize, CapsuleError>)
        ensures
            r is Ok <==> nul_free(name@) && name@ == self@.name,
            r matches Ok(a) ==> a == self@.data,
            r == Err::<usize, CapsuleError>(CapsuleError::WrongName) <==> nul_free(name@)
                && name@ != self@.name,
            r matches Err(e) ==> (e matches CapsuleError::InteriorNul(p) ==> (0 <= p < name@.len()
                && name@[p as int] == 0u8
                && (forall|j: int| 0 <= j < p ==> name@[j] != 0u8))),
            !nul_free(name@) ==> (r matches Err(e) && e matches CapsuleError::InteriorNul(_)),
    {
        match CapsuleName::new(name) {
            Err(e) => Err(e),
            Ok(n) => match self.data_ref_cstr(&n) {
                Some(a) => Ok(a),
                None => Err(CapsuleError::WrongName),
            },
        }
    }

    /// The address of the enclosed pointer.
    pub fn data(&self) -> (r: usize)
        ensures
            r == self@.data,
    {
        self.data
    }

    /// The capsule's name.
    pub fn name(&self) -> (r: &CapsuleName)
        ensures
            r@ == self@.name,
    {
        &self.name
    }
}

/// Marks a failed interpreter call: the C function returned NULL and a
/// Python exception is pending in the interpreter's thread-local state,
/// where the caller must fetch it.
#[derive(Clone, Copy, Debug, PartialEq, Eq, Structural)]
pub struct PendingException;

/// The decision every capsule import shares: the raw pointer that
/// `PyCapsule_Import` returned is the capsule's data exactly when it is not
/// NULL; a NULL return means the lookup failed and an exception is pending.
pub fn import_outcome(raw: usize) -> (r: Result<usize, PendingException>)
    ensures
        raw != 0 ==> r == Ok::<usize, PendingException>(raw),
        raw == 0 ==> r == Err::<usize, PendingException>(PendingException),
{
    if raw == 0 {
        Err(PendingException)
    } else {
        Ok(raw)
    }
}

} // verus!
