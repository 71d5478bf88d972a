//! A service container: named services are constructed lazily on first
//! request, memoized for the life of the container, can be overridden with
//! `set`, and circular construction is reported instead of recursing forever.

pub mod container;
pub mod lemmas;
pub mod slot;
pub mod storage;

pub use container::Container;
pub use slot::{ContainerError, Slot};
pub use storage::ContainerTrait;
