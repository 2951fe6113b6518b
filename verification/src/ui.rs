//! How an overlay session ends, and the one-overlay-at-a-time gate.

use vstd::prelude::*;
use std::sync::Arc;
use std::sync::atomic::AtomicBool;
use std::sync::atomic::Ordering;
use crate::overlay::Finish;

verus! {

/// The outcome an overlay reports back to whoever asked for it.
#[derive(Debug, Clone, Copy, PartialEq, Eq, Structural)]
pub enum UiResult {
    Done,
    Cancelled,
}

/// An exported overlay is done, a dismissed one cancelled.
pub fn result_of(f: Finish) -> (r: UiResult)
    ensures
        r == (if f == Finish::Cancel {
            UiResult::Cancelled
        } else {
            UiResult::Done
        }),
{
    match f {
        Finish::Cancel => UiResult::Cancelled,
        Finish::Export { .. } => UiResult::Done,
    }
}

/// Holds the "an overlay is active" flag while it lives, and clears it when
/// dropped, so repeated capture requests do not queue overlays behind the
/// current one.
pub struct BusyGuard {
    flag: Arc<AtomicBool>,
}

impl BusyGuard {
    /// The flag this guard holds.
    pub closed spec fn flag(self) -> Arc<AtomicBool> {
        self.flag
    }

    /// Try to take the flag: `Some` guard if it was clear (it is set now and
    /// this guard owns it), `None` if another overlay holds it. Which of the
    /// two comes back depends on the flag at the moment of the call.
    pub fn acquire(flag: &Arc<AtomicBool>) -> (r: Option<BusyGuard>)
        ensures
            r matches Some(g) ==> g.flag() == *flag,
    {
        let claimed = flag.compare_exchange(false, true, Ordering::AcqRel, Ordering::Acquire).is_ok();
        BusyGuard::after_claim(claimed, flag)
    }

    /// The guard for a claim attempt on `flag` whose outcome was `claimed`.
    pub fn after_claim(claimed: bool, flag: &Arc<AtomicBool>) -> (r: Option<BusyGuard>)
        ensures
            r is Some <==> claimed,
            r matches Some(g) ==> g.flag() == *flag,
    {
        if claimed {
            Some(BusyGuard { flag: share_flag(flag) })
        } else {
            None
        }
    }
}

/// Another handle on the same flag (`Arc::clone`): it points to the very
/// same atomic.
#[verifier::external_body]
fn share_flag(flag: &Arc<AtomicBool>) -> (r: Arc<AtomicBool>)
    ensures
        r == *flag,
{
    Arc::clone(flag)
}

/// Clear the flag (`AtomicBool::store(false, Release)`), which cannot fail.
#[verifier::external_body]
fn clear_flag(flag: &AtomicBool)
    opens_invariants none
    no_unwind
{
    flag.store(false, Ordering::Release);
}

impl Drop for BusyGuard {
    fn drop(&mut self)
        opens_invariants none
        no_unwind
    {
        clear_flag(&self.flag);
    }
}

} // verus!
