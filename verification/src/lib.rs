//! Core of a small real-time rendering engine: the handle-indexed drawable
//! table with visibility partitioning, the growable GPU buffer state, the
//! per-frame synchronization protocol, and the strict resource-teardown order.
//!
//! Everything here is plain data and decisions. The actual graphics-API calls
//! (buffer creation, memory mapping, queue submission, presentation) are made
//! by the surrounding application, which drives these types and obeys their
//! contracts.
use vstd::prelude::*;

pub mod buffer;
pub mod frame;
pub mod light;
pub mod model;
pub mod teardown;

verus! {

/// A handle-keyed operation referenced a handle that is not currently present
/// in the drawable table (never issued, or already removed).
#[derive(Clone, Copy, Debug, PartialEq, Eq, Structural)]
pub struct InvalidHandle;

/// GPU memory or buffer-object creation failed. Fatal to the operation that
/// attempted it; never retried.
#[derive(Clone, Copy, Debug, PartialEq, Eq, Structural)]
pub struct AllocationError;

/// A fence or semaphore wait failed, or the presentation surface became
/// stale. Fatal in this design: no recreation path is modeled.
#[derive(Clone, Copy, Debug, PartialEq, Eq, Structural)]
pub struct SynchronizationError;

} // verus!
