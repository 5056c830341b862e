//! Guest-physical memory layout of the confidential-computing kernel.
//!
//! The guest heap is split in a private part and a part shared with the host;
//! an I/O heap follows the shared heap, and the file-map area holds the pages
//! the host maps files into.
use vstd::prelude::*;

verus! {

/// One mebibyte.
pub const ONE_MB: u64 = 0x10_0000;

/// Two mebibytes: the large-page size in which memory ranges are converted.
pub const TWO_MB: u64 = 0x20_0000;

/// One gibibyte.
pub const ONE_GB: u64 = 0x4000_0000;

/// Lowest guest-physical address of kernel memory (256 GiB).
pub const PHY_LOWER_ADDR: u64 = 0x40_0000_0000;

/// Start of the private guest heap.
pub const GUEST_PRIVATE_INIT_HEAP_OFFSET: u64 = 0x40_0000_0000;

/// Size of the private guest heap (5 GiB).
pub const GUEST_PRIVATE_HEAP_SIZE: u64 = 0x1_4000_0000;

/// Start of the heap shared between guest and host (right after the private heap).
pub const GUEST_HOST_SHARED_HEAP_OFFSET: u64 = 0x41_4000_0000;

/// Size of the shared heap (5 GiB).
pub const GUEST_HOST_SHARED_HEAP_SIZE: u64 = 0x1_4000_0000;

/// End of the shared heap.
pub const GUEST_HOST_SHARED_HEAP_END: u64 = 0x42_8000_0000;

/// Size of the I/O heap, which follows the shared heap (1 GiB).
pub const IO_HEAP_SIZE: u64 = 0x4000_0000;

/// Start of the file-map area.
pub const FILE_MAP_OFFSET: u64 = 0x43_0000_0000;

/// Size of the file-map area (11736 MiB): five full file-map buckets and
/// twelve ranges of the sixth.
pub const FILE_MAP_SIZE: u64 = 0x2_DD80_0000;

} // verus!
