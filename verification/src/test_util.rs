//! Helpers for exercising the library.

use vstd::prelude::*;

verus! {

/// How many times a repeated check runs.
pub const TEST_ITERS: usize = 100000;

/// Runs a check many times over, for checks that draw fresh inputs on each
/// run.
pub fn repeated_test<F: Fn()>(test: F)
    requires
        test.requires(()),
{
    let mut i: usize = 0;
    while i < TEST_ITERS
        invariant
            test.requires(()),
        decreases TEST_ITERS - i,
    {
        test();
        i = i + 1;
    }
}

} // verus!
