//! Per-physical-CPU context.

use vstd::prelude::*;

verus! {

/// State kept per physical CPU.
#[derive(Clone, Copy, Debug)]
pub struct PerCpuContext {
    /// vCPU this physical CPU runs.
    pub vcpu_id: usize,
    pub exception_count: u32,
}

impl PerCpuContext {
    pub fn new() -> (r: Self)
        ensures
            r.vcpu_id == 0 && r.exception_count == 0,
    {
        PerCpuContext { vcpu_id: 0, exception_count: 0 }
    }
}

/// The physical CPU number: Aff0 of MPIDR_EL1.
pub fn current_cpu_id(mpidr: u64) -> (r: usize)
    ensures
        r == mpidr & 0xFF,
{
    let aff0 = mpidr & 0xFF;
    assert(aff0 <= 0xFF) by (bit_vector) requires aff0 == mpidr & 0xFF;
    aff0 as usize
}

} // verus!
