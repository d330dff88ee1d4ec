use partape::runtime::lockset::{current_lockset, lockset_check, LockHistory};
use partape::runtime::vector_clock::{
    join_in, leq, tick, time_at, vector_clock_acquire, vector_clock_fork, vector_clock_join,
    vector_clock_notify, vector_clock_post_wait, vector_clock_pre_wait, vector_clock_read,
    vector_clock_release, vector_clock_write, RaceDetector,
};
use partape::runtime::{
    report_if_both_race, tsan_acquire, tsan_fork, tsan_join, tsan_read, tsan_release,
    tsan_write, Sanitizer, State, TsanError, TAPE_LEN,
};
use std::collections::HashMap;

fn at(cell: i64) -> State {
    State { ptr_index: cell, lock_stack: vec![] }
}

fn holding(cell: i64, held: &[i64]) -> State {
    State { ptr_index: cell, lock_stack: held.to_vec() }
}

fn clock(entries: &[(u64, u64)]) -> HashMap<u64, u64> {
    entries.iter().copied().collect()
}

fn race(cell: i64, is_write: bool) -> TsanError {
    TsanError::Race { cell, is_write }
}

// --- reports ---------------------------------------------------------------

#[test]
fn a_report_is_one_stable_line() {
    assert_eq!(race(0, true).message(), "[TSAN] race(write) cell=0");
    assert_eq!(race(0, false).message(), "[TSAN] race(read) cell=0");
    assert_eq!(race(29999, true).message(), "[TSAN] race(write) cell=29999");
    assert_eq!(race(-5, false).message(), "[TSAN] race(read) cell=-5");
}

#[test]
fn a_race_is_reported_only_when_both_detectors_see_it() {
    assert_eq!(report_if_both_race(Ok(()), Ok(())), None);
    assert_eq!(report_if_both_race(Err(race(3, true)), Ok(())), None);
    assert_eq!(report_if_both_race(Ok(()), Err(race(3, true))), None);
    assert_eq!(
        report_if_both_race(Err(race(3, true)), Err(race(3, true))),
        Some(race(3, true))
    );
}

#[test]
fn a_race_is_reported_only_for_the_same_cell() {
    assert_eq!(report_if_both_race(Err(race(3, true)), Err(race(4, true))), None);
}

#[test]
fn the_reported_kind_is_a_write_if_either_saw_one() {
    assert_eq!(
        report_if_both_race(Err(race(7, false)), Err(race(7, true))),
        Some(race(7, true))
    );
    assert_eq!(
        report_if_both_race(Err(race(7, true)), Err(race(7, false))),
        Some(race(7, true))
    );
    assert_eq!(
        report_if_both_race(Err(race(7, false)), Err(race(7, false))),
        Some(race(7, false))
    );
}

// --- clocks ----------------------------------------------------------------

#[test]
fn tick_advances_one_entry_by_one() {
    let mut c = HashMap::new();
    tick(&mut c, 5);
    assert_eq!(c, clock(&[(5, 1)]));
    tick(&mut c, 5);
    tick(&mut c, 9);
    assert_eq!(c, clock(&[(5, 2), (9, 1)]));
    assert_eq!(time_at(&c, 5), 2);
    assert_eq!(time_at(&c, 6), 0);
}

#[test]
fn leq_compares_pointwise_with_missing_entries_as_zero() {
    assert!(leq(&clock(&[]), &clock(&[])));
    assert!(leq(&clock(&[]), &clock(&[(1, 4)])));
    assert!(leq(&clock(&[(1, 4)]), &clock(&[(1, 4)])));
    assert!(leq(&clock(&[(1, 3)]), &clock(&[(1, 4), (2, 1)])));
    assert!(leq(&clock(&[(1, 0)]), &clock(&[])));
    assert!(!leq(&clock(&[(1, 5)]), &clock(&[(1, 4)])));
    assert!(!leq(&clock(&[(2, 1)]), &clock(&[(1, 4)])));
    assert!(!leq(&clock(&[(1, 1), (2, 9)]), &clock(&[(1, 4), (2, 8)])));
}

#[test]
fn join_in_takes_the_later_time_of_each_thread() {
    let mut a = clock(&[(1, 4), (2, 1)]);
    join_in(&mut a, &clock(&[(2, 7), (3, 2), (1, 3)]));
    assert_eq!(a, clock(&[(1, 4), (2, 7), (3, 2)]));
    let mut b = clock(&[]);
    join_in(&mut b, &clock(&[(8, 0)]));
    assert_eq!(b, clock(&[(8, 0)]));
    let mut c = clock(&[(1, 1)]);
    join_in(&mut c, &clock(&[]));
    assert_eq!(c, clock(&[(1, 1)]));
}

// --- the vector-clock detector ----------------------------------------------

#[test]
fn a_fresh_detector_knows_no_time() {
    let d = RaceDetector::new();
    assert_eq!(d.time_of(1, 1), 0);
    assert_eq!(d.time_of(1, 2), 0);
    assert_eq!(TAPE_LEN, 30000);
}

#[test]
fn one_thread_never_races_with_itself() {
    let mut d = RaceDetector::new();
    assert_eq!(d.wr(1, 0), Ok(()));
    assert_eq!(d.rd(1, 0), Ok(()));
    assert_eq!(d.wr(1, 0), Ok(()));
    assert_eq!(d.rd(1, 29999), Ok(()));
}

#[test]
fn unordered_writes_race() {
    let mut d = RaceDetector::new();
    d.fork(1, 2);
    d.fork(1, 3);
    assert_eq!(d.wr(2, 0), Ok(()));
    assert_eq!(d.wr(3, 0), Err(race(0, true)));
    assert_eq!(d.rd(3, 0), Err(race(0, true)));
    // Another cell is untouched.
    assert_eq!(d.wr(3, 1), Ok(()));
}

#[test]
fn a_write_after_an_unordered_read_races_as_a_read() {
    let mut d = RaceDetector::new();
    d.fork(1, 2);
    d.fork(1, 3);
    assert_eq!(d.rd(2, 4), Ok(()));
    assert_eq!(d.rd(3, 4), Ok(()));
    assert_eq!(d.wr(3, 4), Err(race(4, false)));
}

#[test]
fn a_fork_orders_the_parent_before_the_child() {
    let mut d = RaceDetector::new();
    assert_eq!(d.wr(1, 0), Ok(()));
    d.fork(1, 2);
    assert_eq!(d.wr(2, 0), Ok(()));
    assert_eq!(d.time_of(1, 1), 1);
    assert_eq!(d.time_of(2, 2), 1);
    assert_eq!(d.time_of(2, 1), 1);
}

#[test]
fn a_join_orders_the_child_before_the_parent() {
    let mut d = RaceDetector::new();
    d.fork(1, 2);
    assert_eq!(d.wr(2, 0), Ok(()));
    let mut unjoined = RaceDetector::new();
    unjoined.fork(1, 2);
    assert_eq!(unjoined.wr(2, 0), Ok(()));
    assert_eq!(unjoined.wr(1, 0), Err(race(0, true)));
    d.join(1, 2);
    assert_eq!(d.wr(1, 0), Ok(()));
    assert_eq!(d.time_of(1, 1), 2);
    assert_eq!(d.time_of(1, 2), 1);
}

#[test]
fn release_and_acquire_of_one_mutex_order_two_threads() {
    let mut d = RaceDetector::new();
    d.fork(1, 2);
    d.fork(1, 3);
    d.acq(2, 0);
    assert_eq!(d.wr(2, 0), Ok(()));
    d.rel(2, 0);
    d.acq(3, 0);
    assert_eq!(d.wr(3, 0), Ok(()));
    d.rel(3, 0);
    assert_eq!(d.time_of(3, 2), 2);
}

#[test]
fn another_mutex_orders_nothing() {
    let mut d = RaceDetector::new();
    d.fork(1, 2);
    d.fork(1, 3);
    d.acq(2, 0);
    assert_eq!(d.wr(2, 0), Ok(()));
    d.rel(2, 0);
    d.acq(3, 1);
    assert_eq!(d.wr(3, 0), Err(race(0, true)));
}

#[test]
fn a_notification_orders_the_notifier_before_the_waiter() {
    let mut d = RaceDetector::new();
    d.fork(1, 2);
    d.fork(1, 3);
    d.pre_wait(2, 5);
    assert_eq!(d.wr(3, 5), Ok(()));
    d.notify(3, 5);
    d.post_wait(2, 5);
    assert_eq!(d.rd(2, 5), Ok(()));
    assert_eq!(d.time_of(2, 3), 2);
    assert_eq!(d.time_of(2, 2), 3);
}

#[test]
fn a_wait_without_a_new_notification_orders_nothing() {
    let mut d = RaceDetector::new();
    d.fork(1, 2);
    d.fork(1, 3);
    assert_eq!(d.wr(3, 5), Ok(()));
    d.notify(3, 5);
    // The waiter starts to wait only after the notification.
    d.pre_wait(2, 5);
    d.post_wait(2, 5);
    assert_eq!(d.rd(2, 5), Err(race(5, true)));
    assert_eq!(d.time_of(2, 3), 0);
}

#[test]
fn a_wait_on_another_cell_orders_nothing() {
    let mut d = RaceDetector::new();
    d.fork(1, 2);
    d.fork(1, 3);
    d.pre_wait(2, 6);
    assert_eq!(d.wr(3, 5), Ok(()));
    d.notify(3, 5);
    d.post_wait(2, 5);
    assert_eq!(d.rd(2, 5), Err(race(5, true)));
    // The mark is gone, so a second return takes nothing over either.
    d.notify(3, 6);
    d.post_wait(2, 6);
    assert_eq!(d.time_of(2, 3), 0);
}

#[test]
fn a_threads_own_time_only_grows() {
    let mut d = RaceDetector::new();
    let mut last = d.time_of(1, 1);
    d.fork(1, 2);
    assert!(d.time_of(1, 1) > last);
    last = d.time_of(1, 1);
    d.rel(1, 3);
    assert!(d.time_of(1, 1) > last);
    last = d.time_of(1, 1);
    d.acq(1, 3);
    assert_eq!(d.time_of(1, 1), last);
    assert_eq!(d.wr(1, 3), Ok(()));
    assert_eq!(d.rd(1, 3), Ok(()));
    assert_eq!(d.time_of(1, 1), last);
    d.pre_wait(1, 3);
    assert!(d.time_of(1, 1) > last);
    last = d.time_of(1, 1);
    d.post_wait(1, 3);
    assert!(d.time_of(1, 1) > last);
    last = d.time_of(1, 1);
    d.notify(1, 3);
    assert!(d.time_of(1, 1) > last);
    last = d.time_of(1, 1);
    d.join(1, 2);
    assert!(d.time_of(1, 1) > last);
    assert_eq!(d.time_of(1, 1), 6);
    assert_eq!(d.time_of(2, 2), 1);
}

#[test]
fn a_fork_restarts_the_clock_of_a_thread_that_had_one() {
    let mut d = RaceDetector::new();
    d.fork(1, 2);
    d.rel(2, 0);
    d.rel(2, 0);
    assert_eq!(d.time_of(2, 2), 3);
    d.fork(1, 2);
    assert_eq!(d.time_of(2, 2), 1);
    assert_eq!(d.time_of(2, 1), 2);
}

#[test]
fn the_free_functions_work_on_the_current_cell() {
    let mut d = RaceDetector::new();
    vector_clock_fork(&mut d, 1, 2);
    vector_clock_fork(&mut d, 1, 3);
    vector_clock_acquire(&mut d, 2, 8);
    assert_eq!(vector_clock_write(&mut d, 2, &at(8)), Ok(()));
    vector_clock_release(&mut d, 2, 8);
    assert_eq!(vector_clock_read(&mut d, 3, &at(8)), Err(race(8, true)));
    vector_clock_acquire(&mut d, 3, 8);
    assert_eq!(vector_clock_read(&mut d, 3, &at(8)), Ok(()));
    vector_clock_pre_wait(&mut d, 2, &at(9));
    vector_clock_notify(&mut d, 3, &at(9));
    vector_clock_post_wait(&mut d, 2, &at(9));
    assert_eq!(vector_clock_write(&mut d, 2, &at(8)), Ok(()));
    vector_clock_join(&mut d, 1, 2);
    vector_clock_join(&mut d, 1, 3);
    assert_eq!(vector_clock_write(&mut d, 1, &at(8)), Ok(()));
}

// --- the lock-set detector ---------------------------------------------------

#[test]
fn the_lockset_is_the_set_of_the_stack() {
    let held = current_lockset(&holding(0, &[4, 2, 4]));
    assert_eq!(held.len(), 2);
    assert!(held.contains(&4) && held.contains(&2));
    assert!(current_lockset(&at(3)).is_empty());
}

#[test]
fn the_first_access_of_a_cell_is_no_race() {
    let mut h = LockHistory::new();
    assert_eq!(lockset_check(&mut h, 1, &at(0), true), Ok(()));
    assert_eq!(lockset_check(&mut h, 2, &at(1), true), Ok(()));
}

#[test]
fn two_threads_without_a_common_lock_race_if_one_writes() {
    let mut h = LockHistory::new();
    assert_eq!(lockset_check(&mut h, 1, &at(0), true), Ok(()));
    assert_eq!(lockset_check(&mut h, 2, &at(0), false), Err(race(0, true)));
    let mut g = LockHistory::new();
    assert_eq!(lockset_check(&mut g, 1, &at(0), false), Ok(()));
    assert_eq!(lockset_check(&mut g, 2, &at(0), true), Err(race(0, true)));
}

#[test]
fn two_reads_do_not_race() {
    let mut h = LockHistory::new();
    assert_eq!(lockset_check(&mut h, 1, &at(0), false), Ok(()));
    assert_eq!(lockset_check(&mut h, 2, &at(0), false), Ok(()));
}

#[test]
fn a_common_lock_on_another_cell_protects() {
    let mut h = LockHistory::new();
    assert_eq!(lockset_check(&mut h, 1, &holding(0, &[7, 9]), true), Ok(()));
    assert_eq!(lockset_check(&mut h, 2, &holding(0, &[9]), true), Ok(()));
    assert_eq!(lockset_check(&mut h, 3, &holding(0, &[7]), true), Err(race(0, true)));
}

#[test]
fn an_access_under_the_cells_own_lock_is_never_reported() {
    let mut h = LockHistory::new();
    assert_eq!(lockset_check(&mut h, 1, &at(0), true), Ok(()));
    assert_eq!(lockset_check(&mut h, 2, &holding(0, &[0]), true), Ok(()));
    assert_eq!(lockset_check(&mut h, 3, &holding(0, &[5, 0, 6]), true), Ok(()));
}

#[test]
fn an_access_under_the_cells_own_lock_is_not_recorded() {
    let mut h = LockHistory::new();
    assert_eq!(lockset_check(&mut h, 1, &at(0), false), Ok(()));
    assert_eq!(lockset_check(&mut h, 2, &holding(0, &[0]), true), Ok(()));
    // The record is still the read of thread 1, so a read does not race.
    assert_eq!(lockset_check(&mut h, 3, &at(0), false), Ok(()));
}

#[test]
fn a_racing_access_is_recorded_too() {
    let mut h = LockHistory::new();
    assert_eq!(lockset_check(&mut h, 1, &at(0), true), Ok(()));
    assert_eq!(lockset_check(&mut h, 2, &at(0), false), Err(race(0, true)));
    // The record is now the read of thread 2: its own next access is fine,
    // and a read by a third thread does not race with a read.
    assert_eq!(lockset_check(&mut h, 2, &at(0), false), Ok(()));
    assert_eq!(lockset_check(&mut h, 3, &at(0), false), Ok(()));
}

// --- both together -----------------------------------------------------------

/// Two branches, each adding to cell 0: the hooks that the emitted program
/// calls, one branch after the other.
fn two_adders(locked: bool) -> Vec<TsanError> {
    let mut rt = Sanitizer::new();
    let mut reports = Vec::new();
    for child in [2u64, 3u64] {
        tsan_fork(&mut rt, 1, child);
        let mut s = at(0);
        if locked {
            tsan_acquire(&mut rt, child, &s, 0);
            s.lock_stack.push(0);
        }
        reports.extend(tsan_read(&mut rt, child, &s));
        reports.extend(tsan_write(&mut rt, child, &s));
        if locked {
            s.lock_stack.pop();
            tsan_release(&mut rt, child, &s, 0);
        }
    }
    tsan_join(&mut rt, 1, 2);
    tsan_join(&mut rt, 1, 3);
    reports.extend(tsan_read(&mut rt, 1, &at(0)));
    reports
}

#[test]
fn unlocked_branches_expose_a_race_on_cell_zero() {
    let reports = two_adders(false);
    assert_eq!(reports, vec![race(0, true)]);
    assert!(reports[0].message().contains("cell=0"));
}

#[test]
fn locked_branches_report_nothing() {
    assert_eq!(two_adders(true), vec![]);
}

#[test]
fn a_race_that_only_the_clocks_see_is_not_reported() {
    let mut rt = Sanitizer::new();
    tsan_fork(&mut rt, 1, 2);
    tsan_fork(&mut rt, 1, 3);
    // Both hold the lock of cell 9, but nothing tells the clocks.
    assert_eq!(tsan_write(&mut rt, 2, &holding(0, &[9])), None);
    assert_eq!(tsan_write(&mut rt, 3, &holding(0, &[9])), None);
}

#[test]
fn a_race_that_only_the_locksets_see_is_not_reported() {
    let mut rt = Sanitizer::new();
    assert_eq!(tsan_write(&mut rt, 1, &at(0)), None);
    tsan_fork(&mut rt, 1, 2);
    // The fork orders the two writes; the lock sets are both empty.
    assert_eq!(tsan_write(&mut rt, 2, &at(0)), None);
}
