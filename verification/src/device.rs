//! What the host knows of device memory, and what it asks a device to do.

use crate::segmented_kv::SegmentedKvSpec;
use vstd::prelude::*;

verus! {

/// A buffer on the device: a handle under which the driver finds it, and its length.
#[derive(Clone, Copy, Debug, PartialEq, Eq, Structural)]
pub struct DeviceBuffer {
    pub id: usize,
    pub len_bytes: usize,
}

/// What a buffer is for.
#[derive(Clone, Copy, Debug, PartialEq, Eq, Structural)]
pub enum BufferUsage {
    KvCache,
    Staging,
    Readback,
    Activations,
}

/// An allocation to be made by the driver.
#[derive(Clone, Copy, Debug, PartialEq, Eq, Structural)]
pub enum AllocRequest {
    /// A buffer of a fixed length.
    Fixed { bytes: usize, usage: BufferUsage },
    /// A plane that is reserved whole and committed segment by segment.
    Segmented { spec: SegmentedKvSpec },
}

/// Something to be done on the device, in the order of the list it stands in.
#[derive(Clone, Copy, Debug, PartialEq, Eq, Structural)]
pub enum DeviceOp {
    /// Copy the first `bytes` bytes of `src` over those of `dst`.
    Copy { src: DeviceBuffer, dst: DeviceBuffer, bytes: usize },
    /// Write `bytes` zero bytes to the beginning of a buffer.
    Zero { buffer: DeviceBuffer, bytes: usize },
    /// Clear the committed part of a segmented plane.
    Clear { buffer: DeviceBuffer },
    /// Give the physical memory of a segmented plane back.
    Release { buffer: DeviceBuffer },
}

/// A length that an allocator accepts: at least one byte.
pub open spec fn nonzero(bytes: usize) -> usize {
    if bytes >= 1 {
        bytes
    } else {
        1
    }
}

/// See [`nonzero`].
pub fn at_least_one(bytes: usize) -> (n: usize)
    ensures
        n == nonzero(bytes),
{
    if bytes >= 1 {
        bytes
    } else {
        1
    }
}

/// The copy of a whole buffer onto another.
pub open spec fn whole_copy(src: DeviceBuffer, dst: DeviceBuffer) -> DeviceOp {
    DeviceOp::Copy { src, dst, bytes: src.len_bytes }
}

} // verus!
