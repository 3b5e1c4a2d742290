//! The process-wide worker budget: how many parallel workers the batch
//! dispatcher targets when the caller does not override the count.

use vstd::prelude::*;

verus! {

/// Relies on `rayon::current_num_threads`: the number of threads in rayon's
/// global pool, which is built once per process and sized by the host's
/// logical CPU count (or an explicit configuration), never less than one.
#[verifier::external_body]
fn rayon_thread_count() -> (r: usize)
    ensures
        r >= 1,
{
    rayon::current_num_threads()
}

/// The default worker budget: the size of the process-wide worker pool,
/// computed once per process and fixed thereafter. Always at least one.
pub fn default_worker_budget() -> (r: usize)
    ensures
        r >= 1,
{
    rayon_thread_count()
}

} // verus!
