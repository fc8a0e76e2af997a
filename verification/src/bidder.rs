//! The integer capacity checks that a reverse bid passes before it is scored.
use vstd::prelude::*;

verus! {

/// Whether a node can take a request at all: the request asks for at least one CPU and
/// no negative memory or disk, fits in the memory and disk available, and the node
/// reports its CPU cores. A request that fails any of these is bid `-1`.
pub fn admits_request(
    cpu_request: i32,
    memory_request_bytes: i64,
    disk_request_bytes: i64,
    mem_available: u64,
    disk_available: u64,
    cpu_cores: u32,
) -> (r: bool)
    ensures
        r == (cpu_request > 0 && memory_request_bytes >= 0 && disk_request_bytes >= 0
            && memory_request_bytes <= mem_available && disk_request_bytes <= disk_available
            && cpu_cores != 0),
{
    if cpu_request <= 0 || memory_request_bytes < 0 || disk_request_bytes < 0 {
        return false;
    }
    if memory_request_bytes as u64 > mem_available {
        return false;
    }
    if disk_request_bytes as u64 > disk_available {
        return false;
    }
    cpu_cores != 0
}

} // verus!
