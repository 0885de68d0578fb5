//! A retry allowance shared between policies.

use std::sync::atomic::AtomicU32;
use std::sync::atomic::Ordering;
use std::sync::Arc;
use vstd::prelude::*;

verus! {

/// A shared retry allowance. Cloning a budget shares the allowance, so the
/// number it holds changes under the feet of every holder: no contract here
/// states it.
#[derive(Clone)]
pub struct RetryBudget(Arc<AtomicU32>);

/// One less than `v`, or `None` at zero.
fn one_less(v: u32) -> (r: Option<u32>)
    ensures
        v == 0 ==> r is None,
        v > 0 ==> r == Some((v - 1) as u32),
{
    v.checked_sub(1)
}

/// Takes one from the counter unless it is zero, atomically, with
/// `AtomicU32::fetch_update`; true when one was taken. Which happened depends
/// on the other holders of the counter, so nothing is promised of the result.
#[verifier::external_body]
fn take_one(counter: &AtomicU32) -> bool {
    counter.fetch_update(Ordering::AcqRel, Ordering::Acquire, |v| one_less(v)).is_ok()
}

impl RetryBudget {
    /// A budget of `retries` retries.
    pub fn new(retries: u32) -> RetryBudget {
        RetryBudget(Arc::new(AtomicU32::new(retries)))
    }

    /// The retries left at the time of the call.
    pub fn remaining(&self) -> u32 {
        self.0.load(Ordering::Acquire)
    }

    /// Takes one retry from the budget; false when it was empty.
    pub fn consume(&self) -> bool {
        take_one(&self.0)
    }
}

} // verus!
