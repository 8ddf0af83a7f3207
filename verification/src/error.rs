//! What can go wrong between a use case and its backend.
//!
//! A lookup that finds nothing is no error: it is an empty `Option`. The two
//! errors here are failures of the backend itself.

use vstd::prelude::*;

verus! {

/// A call to the backend failed: the connection dropped, a constraint was
/// violated, a stored value could not be read back. `message` is the
/// backend's own account, passed on unchanged.
#[derive(Debug)]
pub struct PersistenceError {
    pub message: String,
}

/// The connection to the backend could not be established. `message` is the
/// backend's own account, passed on unchanged.
#[derive(Debug)]
pub struct ConstructionError {
    pub message: String,
}

impl PartialEq for PersistenceError {
    fn eq(&self, other: &Self) -> (same: bool) {
        self.message == other.message
    }
}

impl vstd::std_specs::cmp::PartialEqSpecImpl for PersistenceError {
    open spec fn obeys_eq_spec() -> bool {
        true
    }

    open spec fn eq_spec(&self, other: &Self) -> bool {
        self.message@ == other.message@
    }
}

impl PartialEq for ConstructionError {
    fn eq(&self, other: &Self) -> (same: bool) {
        self.message == other.message
    }
}

impl vstd::std_specs::cmp::PartialEqSpecImpl for ConstructionError {
    open spec fn obeys_eq_spec() -> bool {
        true
    }

    open spec fn eq_spec(&self, other: &Self) -> bool {
        self.message@ == other.message@
    }
}

} // verus!
