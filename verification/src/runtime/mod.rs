//! The race-detection runtime.
//!
//! Two detectors watch every access to the tape: one compares the locks that
//! the two threads held, the other orders the accesses by vector clocks. A
//! race is reported only where both see one on the same cell.

use crate::runtime::lockset::{
    lockset_after, lockset_check, lockset_verdict, LockHistory,
};
use crate::runtime::vector_clock::{
    vector_clock_acquire, vector_clock_fork, vector_clock_join, vector_clock_read,
    vector_clock_release, vector_clock_write, Event, RaceDetector,
};
use crate::text::{decimal, fmt_i64};
use vstd::prelude::*;
use vstd::string::StringExecFns;

pub mod lockset;
pub mod vector_clock;

verus! {

/// Cells on the tape that the detectors watch.
pub const TAPE_LEN: usize = 30000;

/// What the detectors report.
#[derive(Debug, Clone, Copy, PartialEq, Eq, Structural)]
pub enum TsanError {
    /// Two accesses to `cell` that nothing orders; `is_write` tells the
    /// kind.
    Race { cell: i64, is_write: bool },
}

/// What a hook reads of a thread's state block: the index of the current
/// cell, and the indices of the cells whose mutexes the thread holds,
/// oldest first.
#[derive(Debug)]
pub struct State {
    pub ptr_index: i64,
    pub lock_stack: Vec<i64>,
}

impl State {
    /// The cells whose mutexes the thread holds.
    pub open spec fn held(&self) -> Set<i64> {
        self.lock_stack@.to_set()
    }
}

/// The line that reports `e`.
pub open spec fn report_text(e: TsanError) -> Seq<char> {
    match e {
        TsanError::Race { cell, is_write } => "[TSAN] race("@ + (if is_write {
            "write"@
        } else {
            "read"@
        }) + ") cell="@ + decimal(cell as int),
    }
}

impl TsanError {
    /// The line that reports this race, without a newline.
    pub fn message(&self) -> (text: String)
        ensures
            text@ == report_text(*self),
    {
        match self {
            TsanError::Race { cell, is_write } => {
                let kind = if *is_write {
                    "write"
                } else {
                    "read"
                };
                String::from_str("[TSAN] race(").concat(kind).concat(") cell=").concat(
                    fmt_i64(*cell).as_str(),
                )
            },
        }
    }
}

/// What is reported when the lock-set detector says `lockset_res` and the
/// vector-clock detector says `vc_res` of one access: a race only where both
/// report one on the same cell, a write where either saw a write.
pub open spec fn both_race(
    lockset_res: Result<(), TsanError>,
    vc_res: Result<(), TsanError>,
) -> Option<TsanError> {
    match (lockset_res, vc_res) {
        (
            Err(TsanError::Race { cell: c1, is_write: w1 }),
            Err(TsanError::Race { cell: c2, is_write: w2 }),
        ) => if c1 == c2 {
            Some(TsanError::Race { cell: c1, is_write: w1 || w2 })
        } else {
            None
        },
        _ => None,
    }
}

/// Combines the verdicts of the two detectors on one access.
pub fn report_if_both_race(
    lockset_res: Result<(), TsanError>,
    vc_res: Result<(), TsanError>,
) -> (report: Option<TsanError>)
    ensures
        report == both_race(lockset_res, vc_res),
        report is Some ==> lockset_res is Err && vc_res is Err,
        report matches Some(TsanError::Race { cell, is_write }) ==> {
            &&& lockset_res matches Err(TsanError::Race { cell: c1, is_write: w1 })
            &&& vc_res matches Err(TsanError::Race { cell: c2, is_write: w2 })
            &&& cell == c1
            &&& cell == c2
            &&& is_write == (w1 || w2)
        },
{
    match (lockset_res, vc_res) {
        (
            Err(TsanError::Race { cell: c1, is_write: w1 }),
            Err(TsanError::Race { cell: c2, is_write: w2 }),
        ) => {
            if c1 == c2 {
                Some(TsanError::Race { cell: c1, is_write: w1 || w2 })
            } else {
                None
            }
        },
        _ => None,
    }
}

/// The two detectors, owned together. Whoever calls the hooks from several
/// threads puts this behind one lock.
pub struct Sanitizer {
    pub locks: LockHistory,
    pub clocks: RaceDetector,
}

impl Sanitizer {
    /// Two detectors that have seen nothing.
    pub fn new() -> (rt: Sanitizer)
        ensures
            rt.locks@ == Map::<i64, lockset::AccessView>::empty(),
            rt.clocks@ == vector_clock::Clocks::initial(),
            rt.clocks@.wf(),
    {
        Sanitizer { locks: LockHistory::new(), clocks: RaceDetector::new() }
    }
}

/// Thread `tid` writes the current cell of `s`. Gives the race to report,
/// if both detectors see one.
pub fn tsan_write(rt: &mut Sanitizer, tid: u64, s: &State) -> (report: Option<TsanError>)
    requires
        old(rt).clocks@.wf(),
        old(rt).clocks@.allows(Event::Write { t: tid, x: s.ptr_index }),
    ensures
        report == both_race(
            lockset_verdict(old(rt).locks@, tid, s.ptr_index, s.held(), true),
            old(rt).clocks@.write_verdict(tid, s.ptr_index),
        ),
        final(rt).locks@ == lockset_after(old(rt).locks@, tid, s.ptr_index, s.held(), true),
        final(rt).clocks@ == old(rt).clocks@.written(tid, s.ptr_index as int),
        final(rt).clocks@.wf(),
        s.held().contains(s.ptr_index) ==> report is None,
{
    let lockset_res = lockset_check(&mut rt.locks, tid, s, true);
    let vc_res = vector_clock_write(&mut rt.clocks, tid, s);
    report_if_both_race(lockset_res, vc_res)
}

/// Thread `tid` reads the current cell of `s`. Gives the race to report, if
/// both detectors see one.
pub fn tsan_read(rt: &mut Sanitizer, tid: u64, s: &State) -> (report: Option<TsanError>)
    requires
        old(rt).clocks@.wf(),
        old(rt).clocks@.allows(Event::Read { t: tid, x: s.ptr_index }),
    ensures
        report == both_race(
            lockset_verdict(old(rt).locks@, tid, s.ptr_index, s.held(), false),
            old(rt).clocks@.read_verdict(tid, s.ptr_index),
        ),
        final(rt).locks@ == lockset_after(old(rt).locks@, tid, s.ptr_index, s.held(), false),
        final(rt).clocks@ == old(rt).clocks@.read(tid, s.ptr_index as int),
        final(rt).clocks@.wf(),
        s.held().contains(s.ptr_index) ==> report is None,
{
    let lockset_res = lockset_check(&mut rt.locks, tid, s, false);
    let vc_res = vector_clock_read(&mut rt.clocks, tid, s);
    report_if_both_race(lockset_res, vc_res)
}

/// Thread `tid` has acquired the mutex of cell `idx`. The state is passed as
/// to every hook of a lock; nothing of it is read.
pub fn tsan_acquire(rt: &mut Sanitizer, tid: u64, _s: &State, idx: i64)
    requires
        old(rt).clocks@.wf(),
        old(rt).clocks@.allows(Event::Acquire { t: tid, m: idx }),
    ensures
        final(rt).clocks@ == old(rt).clocks@.acquired(tid, idx as int),
        final(rt).clocks@.wf(),
        final(rt).locks == old(rt).locks,
{
    vector_clock_acquire(&mut rt.clocks, tid, idx);
}

/// Thread `tid` is about to release the mutex of cell `idx`.
pub fn tsan_release(rt: &mut Sanitizer, tid: u64, _s: &State, idx: i64)
    requires
        old(rt).clocks@.wf(),
        old(rt).clocks@.allows(Event::Release { t: tid, m: idx }),
    ensures
        final(rt).clocks@ == old(rt).clocks@.released(tid, idx as int),
        final(rt).clocks@.wf(),
        final(rt).locks == old(rt).locks,
{
    vector_clock_release(&mut rt.clocks, tid, idx);
}

/// Thread `child_tid` reports that thread `parent_tid` forked it.
pub fn tsan_fork(rt: &mut Sanitizer, parent_tid: u64, child_tid: u64)
    requires
        old(rt).clocks@.wf(),
        old(rt).clocks@.allows(Event::Fork { t: parent_tid, u: child_tid }),
    ensures
        final(rt).clocks@ == old(rt).clocks@.forked(parent_tid, child_tid),
        final(rt).clocks@.wf(),
        final(rt).locks == old(rt).locks,
{
    vector_clock_fork(&mut rt.clocks, parent_tid, child_tid);
}

/// Thread `parent_tid` reports that it joined thread `child_tid`.
pub fn tsan_join(rt: &mut Sanitizer, parent_tid: u64, child_tid: u64)
    requires
        old(rt).clocks@.wf(),
        old(rt).clocks@.allows(Event::Join { t: parent_tid, u: child_tid }),
    ensures
        final(rt).clocks@ == old(rt).clocks@.joined(parent_tid, child_tid),
        final(rt).clocks@.wf(),
        final(rt).locks == old(rt).locks,
{
    vector_clock_join(&mut rt.clocks, parent_tid, child_tid);
}

} // verus!
