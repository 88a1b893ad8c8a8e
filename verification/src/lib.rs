//! The core of a smart-contract test orchestration engine: it selects which
//! compiled contracts are test suites, links their library dependencies,
//! deploys each suite into an isolated EVM session, runs its `setUp` routine,
//! dispatches every matching test function as a standard or fuzz test, and
//! aggregates the per-suite results deterministically.

pub mod artifact;
pub mod codec;
pub mod evm;
pub mod filter;
pub mod fuzz;
pub mod hash;
pub mod laws;
pub mod linker;
pub mod multi;
pub mod omap;
pub mod outcome;
pub mod result;
pub mod rlp;
pub mod runner;
pub mod strutil;

use vstd::prelude::*;

verus! {

/// The verdict rule for a single executed test call: a test that is expected
/// to revert passes iff the call reverted; any other test passes iff the
/// call did not revert and the DSTest failed flag was not set.
pub open spec fn spec_verdict(expected_revert: bool, reverted: bool, ds_failed: bool) -> bool {
    if expected_revert {
        reverted
    } else {
        !reverted && !ds_failed
    }
}

/// Computes the pass/fail verdict of one executed test call.
pub fn test_verdict(expected_revert: bool, reverted: bool, ds_failed: bool) -> (success: bool)
    ensures
        success == spec_verdict(expected_revert, reverted, ds_failed),
{
    if expected_revert {
        reverted
    } else {
        !reverted && !ds_failed
    }
}

} // verus!
