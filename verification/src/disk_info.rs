//! Disk capacity figures, computed from raw filesystem statistics.

use vstd::prelude::*;

verus! {

/// Capacity of one mounted filesystem, in bytes.
pub struct DiskInfo {
    pub total: u64,
    pub available: u64,
    pub used: u64,
}

impl DiskInfo {
    /// Build the figures from raw filesystem statistics: block
    /// counts scaled by the fragment size, with used space as the
    /// difference. Returns nothing when the products would not fit.
    pub fn from_statvfs(blocks: u64, bavail: u64, frsize: u64) -> (r: Option<DiskInfo>)
        ensures
            match r {
                Some(d) => {
                    &&& d.total == blocks * frsize
                    &&& d.available == bavail * frsize
                    &&& d.used == if d.total >= d.available {
                        (d.total - d.available) as u64
                    } else {
                        0u64
                    }
                },
                None => blocks * frsize > u64::MAX || bavail * frsize > u64::MAX,
            },
    {
        if frsize == 0 {
            let d = DiskInfo { total: 0, available: 0, used: 0 };
            return Some(d);
        }
        if blocks > u64::MAX / frsize || bavail > u64::MAX / frsize {
            proof {
                if blocks > u64::MAX / frsize {
                    assert(blocks * frsize > u64::MAX) by (nonlinear_arith)
                        requires
                            frsize > 0,
                            blocks > u64::MAX / frsize,
                    ;
                } else {
                    assert(bavail * frsize > u64::MAX) by (nonlinear_arith)
                        requires
                            frsize > 0,
                            bavail > u64::MAX / frsize,
                    ;
                }
            }
            return None;
        }
        proof {
            assert(blocks * frsize <= u64::MAX) by (nonlinear_arith)
                requires
                    frsize > 0,
                    blocks <= u64::MAX / frsize,
            ;
            assert(bavail * frsize <= u64::MAX) by (nonlinear_arith)
                requires
                    frsize > 0,
                    bavail <= u64::MAX / frsize,
            ;
        }
        let total = blocks * frsize;
        let available = bavail * frsize;
        let used = if total >= available {
            total - available
        } else {
            0
        };
        Some(DiskInfo { total, available, used })
    }
}

} // verus!
