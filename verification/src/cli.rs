//! The configuration record that drives a search run, and the resolution of
//! the requested worker count against the machine's parallelism.
use vstd::prelude::*;

verus! {

/// Configuration for one search run.
///
/// `workers` is the requested degree of parallelism; `0` means "use all
/// available hardware parallelism minus one".  At most one of `input`
/// (path to a dictionary file), `prefix` and `suffix` is honoured, in that
/// order of precedence.
pub struct Cli {
    pub workers: usize,
    pub input: Option<String>,
    pub prefix: Option<String>,
    pub suffix: Option<String>,
}

/// Resolves a requested worker count against the machine's CPU count:
/// an explicit request of one or more workers is honoured as-is, while a
/// request of zero falls back to all available parallelism minus one —
/// clamped to at least one worker, since the pool needs one to make any
/// progress.
pub fn effective_workers(requested: usize, cpus: usize) -> (w: usize)
    requires
        cpus >= 1,
    ensures
        requested >= 1 ==> w == requested,
        requested == 0 ==> w == if cpus >= 2 {
            (cpus - 1) as int
        } else {
            1int
        },
        w >= 1,
{
    if requested >= 1 {
        requested
    } else if cpus >= 2 {
        cpus - 1
    } else {
        1
    }
}

/// Relies on `num_cpus::get`, documented to always return at least 1.
#[verifier::external_body]
fn cpu_count() -> (n: usize)
    ensures
        n >= 1,
{
    num_cpus::get()
}

/// The worker count a configuration record asks for, with the zero default
/// resolved against this machine's CPU count; always at least one.
pub fn resolve_workers(args: &Cli) -> (w: usize)
    ensures
        args.workers >= 1 ==> w == args.workers,
        w >= 1,
{
    let cpus = cpu_count();
    effective_workers(args.workers, cpus)
}

} // verus!
