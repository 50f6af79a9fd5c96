//! Disk usage from the figures `statvfs` reports for the root file system.
use vstd::prelude::*;

verus! {

/// The figures of a `statvfs` call that the usage is computed from.
pub struct DiskStat {
    /// Fragment size in bytes.
    pub frsize: u64,
    /// Size of the file system in fragments.
    pub blocks: u64,
    /// Free fragments.
    pub bfree: u64,
    /// Fragments free to unprivileged users.
    pub bavail: u64,
}

/// Disk usage in bytes.
pub struct DiskBytes {
    pub total: u64,
    pub available: u64,
    pub used: u64,
}

/// Total, available and used bytes: blocks, available blocks, and blocks
/// minus free blocks, each times the fragment size.
pub open spec fn disk_bytes_spec(s: DiskStat) -> (int, int, int) {
    (
        s.blocks * s.frsize,
        s.bavail * s.frsize,
        s.blocks * s.frsize - s.bfree * s.frsize,
    )
}

/// Computes the disk usage in bytes; `None` when a figure leaves the range
/// of `u64` (more free than total blocks, or a product too large).
pub fn disk_bytes(s: &DiskStat) -> (r: Option<DiskBytes>)
    ensures
        r is Some <==> ({
            let b = disk_bytes_spec(*s);
            &&& b.0 <= u64::MAX
            &&& b.1 <= u64::MAX
            &&& s.bfree * s.frsize <= u64::MAX
            &&& 0 <= b.2
        }),
        r matches Some(d) ==> (d.total as int, d.available as int, d.used as int)
            == disk_bytes_spec(*s),
{
    let total = match s.blocks.checked_mul(s.frsize) {
        Some(t) => t,
        None => return None,
    };
    let available = match s.bavail.checked_mul(s.frsize) {
        Some(a) => a,
        None => return None,
    };
    let free = match s.bfree.checked_mul(s.frsize) {
        Some(f) => f,
        None => return None,
    };
    if free > total {
        return None;
    }
    Some(DiskBytes { total, available, used: total - free })
}

} // verus!
