use compositor_core::state::State;
use compositor_core::window::{BlockerState, CommitBarrier, WindowBlocker};

#[test]
fn balanced_sequence_drains_in_submission_order() {
    // Two pending resize requests; commits arriving meanwhile are queued and
    // applied in their original submission order once the counter hits zero.
    let mut b = CommitBarrier::new();
    assert_eq!(b.count(), 0);
    b.acquire();
    b.acquire();
    assert_eq!(b.count(), 2);

    assert!(!b.submit(7)); // queued
    assert!(!b.submit(8)); // queued
    assert!(!b.submit(9)); // queued

    let first = b.release();
    assert_eq!(b.count(), 1);
    assert_eq!(first, vec![]); // still barred

    let drained = b.release();
    assert_eq!(b.count(), 0);
    assert_eq!(drained, vec![7, 8, 9]); // original submission order
}

#[test]
fn commits_apply_immediately_when_barrier_down() {
    let mut b = CommitBarrier::new();
    assert!(b.submit(42)); // nothing pending: apply at once
    assert_eq!(b.count(), 0);
    let mut st = State::new();
    assert!(st.handle_commit(42));
    st.blocker.acquire();
    assert!(!st.handle_commit(43)); // queued behind the barrier
    let drained = st.blocker.release();
    assert_eq!(drained, vec![43]);
}

#[test]
fn release_with_empty_queue_applies_nothing() {
    let mut b = CommitBarrier::new();
    b.acquire();
    let drained = b.release();
    assert_eq!(drained, vec![]);
    assert_eq!(b.count(), 0);
}

#[test]
fn blocker_reports_pending_while_counter_positive() {
    let mut b = CommitBarrier::new();
    let blocker = WindowBlocker;
    assert_eq!(blocker.state(&b), BlockerState::Released);
    b.acquire();
    assert_eq!(blocker.state(&b), BlockerState::Pending);
    b.acquire();
    assert_eq!(blocker.state(&b), BlockerState::Pending);
    let _ = b.release();
    assert_eq!(blocker.state(&b), BlockerState::Pending);
    let _ = b.release();
    assert_eq!(blocker.state(&b), BlockerState::Released);
}

#[test]
fn interleaved_commits_keep_order_across_the_gate() {
    // A commit applied before the barrier went up, two queued under it, one
    // after it came down: the observable apply order is submission order.
    let mut b = CommitBarrier::new();
    let mut applied: Vec<u64> = Vec::new();
    if b.submit(1) {
        applied.push(1);
    }
    b.acquire();
    if b.submit(2) {
        applied.push(2);
    }
    if b.submit(3) {
        applied.push(3);
    }
    applied.extend(b.release());
    if b.submit(4) {
        applied.push(4);
    }
    assert_eq!(applied, vec![1, 2, 3, 4]);
}
