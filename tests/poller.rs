use ena::board::Board;
use ena::poller::{classify, BoardPoller, Thread, ThreadUpdate};

fn t(no: u64, last_modified: u64, bump_index: usize) -> Thread {
    Thread { no, last_modified, bump_index }
}

#[test]
fn fresh_thread_appears() {
    let previous = vec![];
    let current = vec![t(100, 10, 0)];
    assert_eq!(classify(&previous, &current), Some(vec![ThreadUpdate::New(100)]));
}

#[test]
fn modification_bumps_thread() {
    let previous = vec![t(1, 5, 1), t(2, 7, 0)];
    let current = vec![t(1, 8, 0), t(2, 7, 1)];
    assert_eq!(classify(&previous, &current), Some(vec![ThreadUpdate::Modified(1)]));
}

#[test]
fn deletion_with_anchor_is_bumped_off() {
    let previous = vec![t(5, 3, 2), t(9, 4, 1), t(7, 8, 0)];
    let current = vec![t(9, 4, 1), t(7, 8, 0)];
    assert_eq!(classify(&previous, &current), Some(vec![ThreadUpdate::BumpedOff(5)]));
}

#[test]
fn deletion_before_anchor_is_deleted() {
    let previous = vec![t(5, 3, 0), t(9, 4, 1), t(7, 8, 2)];
    let current = vec![t(9, 4, 1), t(7, 8, 0)];
    assert_eq!(classify(&previous, &current), Some(vec![ThreadUpdate::Deleted(5)]));
}

#[test]
fn same_pair_gives_same_updates() {
    let previous = vec![t(5, 3, 0), t(9, 4, 1), t(7, 8, 2), t(3, 1, 3)];
    let current = vec![t(11, 9, 0), t(9, 6, 1), t(7, 8, 2)];
    let first = classify(&previous, &current);
    let second = classify(&previous, &current);
    assert_eq!(first, second);
    assert!(first.is_some());
}

#[test]
fn empty_previous_gives_all_new() {
    let current = vec![t(30, 1, 0), t(10, 1, 1), t(20, 1, 2)];
    let updates = classify(&vec![], &current).unwrap();
    assert_eq!(
        updates,
        vec![ThreadUpdate::New(10), ThreadUpdate::New(20), ThreadUpdate::New(30)]
    );
}

#[test]
fn empty_current_gives_all_deleted() {
    let previous = vec![t(30, 1, 0), t(10, 1, 1), t(20, 1, 2)];
    let updates = classify(&previous, &vec![]).unwrap();
    assert_eq!(
        updates,
        vec![ThreadUpdate::Deleted(10), ThreadUpdate::Deleted(20), ThreadUpdate::Deleted(30)]
    );
}

#[test]
fn anchor_splits_removals() {
    // The anchor, 7, stood at bump index 2: 5 stood before it, 3 after it.
    let previous = vec![t(5, 3, 0), t(9, 4, 1), t(7, 8, 2), t(3, 1, 3)];
    let current = vec![t(9, 4, 0), t(7, 8, 1)];
    assert_eq!(
        classify(&previous, &current),
        Some(vec![ThreadUpdate::BumpedOff(3), ThreadUpdate::Deleted(5)])
    );
}

#[test]
fn no_anchor_all_bumped_off() {
    // The last current thread, 7, was modified: it is no anchor.
    let previous = vec![t(5, 3, 0), t(9, 4, 1), t(7, 8, 2), t(3, 1, 3)];
    let current = vec![t(9, 4, 0), t(7, 9, 1)];
    assert_eq!(
        classify(&previous, &current),
        Some(vec![
            ThreadUpdate::Modified(7),
            ThreadUpdate::BumpedOff(3),
            ThreadUpdate::BumpedOff(5)
        ])
    );
}

#[test]
fn each_change_reported_once() {
    let previous = vec![t(1, 1, 0), t(2, 2, 1), t(3, 3, 2), t(4, 4, 3)];
    let current = vec![t(5, 9, 0), t(2, 5, 1), t(3, 3, 2)];
    let updates = classify(&previous, &current).unwrap();
    let mut nos: Vec<u64> = updates.iter().map(|u| u.no()).collect();
    nos.sort();
    assert_eq!(nos, vec![1, 2, 4, 5]);
}

#[test]
fn going_back_in_time_discards_poll() {
    let previous = vec![t(1, 5, 0)];
    let current = vec![t(1, 4, 0)];
    assert_eq!(classify(&previous, &current), None);
}

#[test]
fn reappearing_old_thread_discards_poll() {
    let previous = vec![t(5, 1, 0), t(9, 1, 1)];
    let current = vec![t(7, 1, 0), t(9, 1, 1)];
    assert_eq!(classify(&previous, &current), None);
}

#[test]
fn repeated_thread_discards_poll() {
    let previous = vec![t(5, 1, 0)];
    let current = vec![t(5, 1, 0), t(5, 1, 1)];
    assert_eq!(classify(&previous, &current), None);
}

#[test]
fn poller_keeps_accepted_index_only() {
    let mut poller = BoardPoller::new();
    assert_eq!(
        poller.update_threads(Board::G, vec![t(100, 10, 0)]),
        Some(vec![ThreadUpdate::New(100)])
    );
    // A poll that goes back in time is discarded and the index is kept.
    assert_eq!(poller.update_threads(Board::G, vec![t(100, 9, 0)]), None);
    assert_eq!(
        poller.update_threads(Board::G, vec![t(100, 11, 0)]),
        Some(vec![ThreadUpdate::Modified(100)])
    );
    // Other boards are independent.
    assert_eq!(
        poller.update_threads(Board::A, vec![t(100, 1, 0)]),
        Some(vec![ThreadUpdate::New(100)])
    );
}
