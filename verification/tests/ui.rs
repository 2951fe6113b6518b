use std::sync::atomic::{AtomicBool, Ordering};
use std::sync::Arc;

use rustshot_wayland::overlay::Finish;
use rustshot_wayland::ui::{result_of, BusyGuard, UiResult};

#[test]
fn one_overlay_at_a_time() {
    let flag = Arc::new(AtomicBool::new(false));
    let first = BusyGuard::acquire(&flag);
    assert!(first.is_some());
    assert!(flag.load(Ordering::Acquire));
    assert!(BusyGuard::acquire(&flag).is_none());
    drop(first);
    assert!(!flag.load(Ordering::Acquire));
    let again = BusyGuard::acquire(&flag);
    assert!(again.is_some());
}

#[test]
fn guard_shares_the_flag() {
    let flag = Arc::new(AtomicBool::new(true));
    let g = BusyGuard::after_claim(true, &flag);
    assert!(g.is_some());
    assert_eq!(Arc::strong_count(&flag), 2);
    drop(g);
    assert_eq!(Arc::strong_count(&flag), 1);
    assert!(!flag.load(Ordering::Acquire));
    assert!(BusyGuard::after_claim(false, &flag).is_none());
}

#[test]
fn finish_results() {
    assert_eq!(result_of(Finish::Cancel), UiResult::Cancelled);
    assert_eq!(result_of(Finish::Export { force_copy: false }), UiResult::Done);
}
