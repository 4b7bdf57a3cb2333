//! The check of a configuration against the machine, made before any worker
//! starts.
use vstd::prelude::*;

verus! {

/// The least free memory a run needs at all, in KiB.
pub const MIN_FREE_MEMORY_KB: u64 = 512000;

/// The memory that one worker is reckoned to need, in KiB.
pub const MEMORY_PER_WORKER_KB: u64 = 51200;

/// How many workers each CPU core may carry.
pub const WORKERS_PER_CORE: u64 = 3;

/// Why the machine cannot carry a run.
#[derive(Debug, Clone, Copy, PartialEq, Eq, Structural)]
pub enum ResourceError {
    /// Less free memory than any run needs.
    LowFreeMemory,
    /// More workers than the CPU cores can carry.
    TooManyWorkersForCpu,
    /// More workers than the free memory can hold.
    TooManyWorkersForMemory,
}

/// The verdict on a concurrency, given the cores and the free memory in KiB.
pub open spec fn preflight(concurrency: int, cpu_cores: int, free_mem_kb: int) -> Result<
    (),
    ResourceError,
> {
    if free_mem_kb < MIN_FREE_MEMORY_KB {
        Err(ResourceError::LowFreeMemory)
    } else if concurrency > cpu_cores * WORKERS_PER_CORE {
        Err(ResourceError::TooManyWorkersForCpu)
    } else if concurrency * MEMORY_PER_WORKER_KB > free_mem_kb {
        Err(ResourceError::TooManyWorkersForMemory)
    } else {
        Ok(())
    }
}

/// Decides whether a run of `concurrency` workers may start on a machine with
/// `cpu_cores` cores and `free_mem_kb` KiB of free memory. A concurrency whose
/// memory would exceed the free memory is always refused.
pub fn check_resources(concurrency: u64, cpu_cores: u64, free_mem_kb: u64) -> (r: Result<
    (),
    ResourceError,
>)
    ensures
        r == preflight(concurrency as int, cpu_cores as int, free_mem_kb as int),
        concurrency * MEMORY_PER_WORKER_KB > free_mem_kb ==> r is Err,
{
    proof {
        assert(cpu_cores as u128 * WORKERS_PER_CORE as u128 <= u64::MAX as u128 * 3)
            by (nonlinear_arith);
        assert(concurrency as u128 * MEMORY_PER_WORKER_KB as u128 <= u64::MAX as u128 * 51200)
            by (nonlinear_arith);
    }
    if free_mem_kb < MIN_FREE_MEMORY_KB {
        Err(ResourceError::LowFreeMemory)
    } else if concurrency as u128 > cpu_cores as u128 * WORKERS_PER_CORE as u128 {
        Err(ResourceError::TooManyWorkersForCpu)
    } else if concurrency as u128 * MEMORY_PER_WORKER_KB as u128 > free_mem_kb as u128 {
        Err(ResourceError::TooManyWorkersForMemory)
    } else {
        Ok(())
    }
}

} // verus!
