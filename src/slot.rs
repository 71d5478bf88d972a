use std::sync::Arc;
use vstd::prelude::*;

verus! {

/// The state of one name in a container. A name with no slot at all is
/// absent: nothing has been built or set for it yet.
#[derive(Debug)]
pub enum Slot<S> {
    /// A builder for this name is running; asking for the name again now is a
    /// circular dependency.
    InProgress,
    /// The shared instance stored for this name.
    Ready(Arc<S>),
}

impl<S> Slot<S> {
    /// A copy of the slot that shares the same instance.
    pub fn share(&self) -> (r: Slot<S>)
        ensures
            r == *self,
    {
        match self {
            Slot::InProgress => Slot::InProgress,
            Slot::Ready(a) => Slot::Ready(a.clone()),
        }
    }
}

/// Why a request for a service failed.
#[derive(Debug, PartialEq, Eq)]
pub enum ContainerError {
    /// The named service was requested again while its own builder was running.
    CircularDependency(String),
    /// The instance stored under the name is not of the kind the caller expects.
    KindMismatch(String),
}

/// `e` reports a circular dependency on `name`.
pub open spec fn is_cycle_error(e: ContainerError, name: Seq<char>) -> bool {
    e matches ContainerError::CircularDependency(n) && n@ == name
}

/// `e` reports that the instance under `name` is of an unexpected kind.
pub open spec fn is_mismatch_error(e: ContainerError, name: Seq<char>) -> bool {
    e matches ContainerError::KindMismatch(n) && n@ == name
}

impl ContainerError {
    /// The name of the service the error is about.
    pub fn name(&self) -> (r: &str)
        ensures
            match self {
                ContainerError::CircularDependency(n) => r@ == n@,
                ContainerError::KindMismatch(n) => r@ == n@,
            },
    {
        match self {
            ContainerError::CircularDependency(n) => n.as_str(),
            ContainerError::KindMismatch(n) => n.as_str(),
        }
    }

    /// A human-readable description of the error.
    pub fn message(&self) -> (r: String)
        ensures
            match self {
                ContainerError::CircularDependency(n) => r@ == "circular dependency detected for "@ + n@,
                ContainerError::KindMismatch(n) => r@ == "unexpected kind of service stored for "@ + n@,
            },
    {
        match self {
            ContainerError::CircularDependency(n) => {
                String::from_str("circular dependency detected for ").concat(n.as_str())
            },
            ContainerError::KindMismatch(n) => {
                String::from_str("unexpected kind of service stored for ").concat(n.as_str())
            },
        }
    }
}

} // verus!
