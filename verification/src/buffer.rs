//! State of one growable GPU buffer: its capacity in bytes, its intended
//! usage, and its memory placement class.
//!
//! A buffer owns one device buffer object and one backing allocation. `fill`
//! may replace both with larger ones when the incoming payload exceeds the
//! current capacity; this module tracks that decision and the resulting
//! capacity, while the application performs the actual allocation and the
//! byte-for-byte copy into mapped memory.
use vstd::prelude::*;

verus! {

/// What the buffer backs: one of the usage classes this engine needs.
#[derive(Clone, Copy, Debug, PartialEq, Eq, Structural)]
pub enum BufferUsage {
    Vertex,
    Index,
    Uniform,
    Storage,
}

/// Memory placement class: CPU-writable and GPU-visible, or GPU-only.
#[derive(Clone, Copy, Debug, PartialEq, Eq, Structural)]
pub enum MemoryLocation {
    CpuToGpu,
    GpuOnly,
}

/// Whether a payload of `bytes_needed` bytes forces the buffer to be
/// replaced by a larger one.
pub open spec fn fill_grows(capacity: u64, bytes_needed: u64) -> bool {
    bytes_needed > capacity
}

/// Capacity after filling a buffer of capacity `capacity` with
/// `bytes_needed` bytes: grown to exactly `bytes_needed` when the payload
/// does not fit, unchanged otherwise.
pub open spec fn fill_capacity(capacity: u64, bytes_needed: u64) -> u64 {
    if fill_grows(capacity, bytes_needed) {
        bytes_needed
    } else {
        capacity
    }
}

/// What a table-level buffer refresh asks of the owner of the real GPU
/// objects: whether a buffer object must be created or replaced, and how
/// many payload bytes are to be copied into its mapping.
#[derive(Clone, Copy, Debug, PartialEq, Eq, Structural)]
pub struct BufferUpdate {
    /// A buffer was created where none existed before.
    pub created: bool,
    /// An existing buffer's object and allocation were replaced by larger
    /// ones; the superseded allocation must be released.
    pub reallocated: bool,
    /// The exact number of payload bytes to copy into the mapping.
    pub bytes: u64,
}

/// The state of one GPU buffer: one buffer object plus one exclusively
/// owned backing allocation, of `size_in_bytes` capacity.
pub struct Buffer {
    pub size_in_bytes: u64,
    pub usage: BufferUsage,
    pub memory_usage: MemoryLocation,
}

impl Buffer {
    /// A buffer freshly created with an initial capacity, usage and
    /// placement class.
    pub fn new(size_in_bytes: u64, usage: BufferUsage, memory_usage: MemoryLocation) -> (b: Buffer)
        ensures
            b.size_in_bytes == size_in_bytes,
            b.usage == usage,
            b.memory_usage == memory_usage,
    {
        Buffer { size_in_bytes, usage, memory_usage }
    }

    /// Fill the buffer with `data`. Computes the bytes needed; when they
    /// exceed the current capacity the buffer object and its allocation are
    /// replaced by ones of exactly that size (same usage and placement), and
    /// the replacement takes over this buffer's identity. Returns whether
    /// that replacement happened, so the owner can release the superseded
    /// allocation and copy the payload into the (possibly new) mapping.
    pub fn fill<T>(&mut self, data: &[T]) -> (grew: bool)
        requires
            data@.len() * vstd::layout::size_of::<T>() <= u64::MAX,
        ensures
            grew == fill_grows(
                old(self).size_in_bytes,
                (data@.len() * vstd::layout::size_of::<T>()) as u64,
            ),
            final(self).size_in_bytes == fill_capacity(
                old(self).size_in_bytes,
                (data@.len() * vstd::layout::size_of::<T>()) as u64,
            ),
            final(self).usage == old(self).usage,
            final(self).memory_usage == old(self).memory_usage,
    {
        let bytes_to_write: u64 = (data.len() as u64) * (core::mem::size_of::<T>() as u64);
        if bytes_to_write > self.size_in_bytes {
            self.size_in_bytes = bytes_to_write;
            true
        } else {
            false
        }
    }
}

/// Law: for a given buffer, capacity never decreases across a fill, and a
/// fill that grew the buffer leaves it large enough that a subsequent fill
/// with the same or fewer bytes does not reallocate.
pub proof fn law_fill_capacity_monotone(capacity: u64, first: u64, second: u64)
    ensures
        fill_capacity(capacity, first) >= capacity,
        second <= fill_capacity(capacity, first) ==> !fill_grows(
            fill_capacity(capacity, first),
            second,
        ),
        second <= first ==> !fill_grows(fill_capacity(capacity, first), second),
{
}

} // verus!
