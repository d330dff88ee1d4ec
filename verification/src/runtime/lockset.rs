//! The lock-set race detector.
//!
//! For each cell it keeps the last access that was not protected by the
//! cell's own mutex: who made it, whether it wrote, and which mutexes the
//! thread held. An access races with the one before it when another thread
//! made that one, the two held no mutex in common, and one of them wrote.

use super::{State, TsanError};
use std::collections::{HashMap, HashSet};
use vstd::prelude::*;

verus! {

broadcast use vstd::std_specs::hash::group_hash_axioms;

/// One recorded access.
pub struct Access {
    pub tid: u64,
    pub is_write: bool,
    pub lockset: HashSet<i64>,
}

/// One recorded access, as plain values.
pub struct AccessView {
    pub tid: u64,
    pub is_write: bool,
    pub lockset: Set<i64>,
}

impl View for Access {
    type V = AccessView;

    open spec fn view(&self) -> AccessView {
        AccessView { tid: self.tid, is_write: self.is_write, lockset: self.lockset@ }
    }
}

/// The last recorded access of each cell.
pub struct LockHistory {
    hist: HashMap<i64, Access>,
}

impl View for LockHistory {
    type V = Map<i64, AccessView>;

    closed spec fn view(&self) -> Map<i64, AccessView> {
        Map::new(|cell: i64| self.hist@.contains_key(cell), |cell: i64| self.hist@[cell]@)
    }
}

/// Whether an access by thread `tid`, holding `held`, races with the
/// recorded access `prev`.
pub open spec fn conflicts(prev: AccessView, tid: u64, held: Set<i64>, is_write: bool) -> bool {
    &&& prev.tid != tid
    &&& prev.lockset.disjoint(held)
    &&& (is_write || prev.is_write)
}

/// What the detector says of an access to `cell` by thread `tid` that holds
/// `held`. An access made while holding the cell's own mutex is never
/// reported.
pub open spec fn lockset_verdict(
    history: Map<i64, AccessView>,
    tid: u64,
    cell: i64,
    held: Set<i64>,
    is_write: bool,
) -> Result<(), TsanError> {
    if !held.contains(cell) && history.contains_key(cell) && conflicts(
        history[cell],
        tid,
        held,
        is_write,
    ) {
        Err(TsanError::Race { cell, is_write: is_write || history[cell].is_write })
    } else {
        Ok(())
    }
}

/// The history after that access: unchanged where the thread held the
/// cell's own mutex, and with the access recorded for the cell otherwise,
/// whether or not it raced.
pub open spec fn lockset_after(
    history: Map<i64, AccessView>,
    tid: u64,
    cell: i64,
    held: Set<i64>,
    is_write: bool,
) -> Map<i64, AccessView> {
    if held.contains(cell) {
        history
    } else {
        history.insert(cell, AccessView { tid, is_write, lockset: held })
    }
}

impl LockHistory {
    /// A history without any access.
    pub fn new() -> (h: LockHistory)
        ensures
            h@ == Map::<i64, AccessView>::empty(),
    {
        let h = LockHistory { hist: HashMap::new() };
        assert(h@ =~= Map::<i64, AccessView>::empty());
        h
    }
}

/// The set of cells whose mutexes the thread of `s` holds.
pub fn current_lockset(s: &State) -> (held: HashSet<i64>)
    ensures
        held@ == s.held(),
{
    let mut held: HashSet<i64> = HashSet::new();
    let mut i: usize = 0;
    assert(held@ =~= s.lock_stack@.take(0).to_set());
    while i < s.lock_stack.len()
        invariant
            i <= s.lock_stack.len(),
            held@ == s.lock_stack@.take(i as int).to_set(),
        decreases s.lock_stack.len() - i,
    {
        held.insert(s.lock_stack[i]);
        proof {
            let before = s.lock_stack@.take(i as int);
            let next = s.lock_stack@.take(i + 1);
            assert(next =~= before.push(s.lock_stack@[i as int]));
            assert forall|x: i64| next.to_set().contains(x) <==> before.to_set().insert(
                s.lock_stack@[i as int],
            ).contains(x) by {
                if next.contains(x) {
                    let j = choose|j: int| 0 <= j < next.len() && next[j] == x;
                    if j < i {
                        assert(before[j] == x);
                    }
                }
                if before.contains(x) {
                    let j = choose|j: int| 0 <= j < before.len() && before[j] == x;
                    assert(next[j] == x);
                }
                assert(next[i as int] == s.lock_stack@[i as int]);
            }
            assert(held@ =~= next.to_set());
        }
        i = i + 1;
    }
    assert(s.lock_stack@.take(i as int) =~= s.lock_stack@);
    held
}

/// Whether none of `stack` is in `other`.
fn disjoint_from(other: &HashSet<i64>, stack: &Vec<i64>) -> (r: bool)
    ensures
        r == other@.disjoint(stack@.to_set()),
{
    let mut i: usize = 0;
    while i < stack.len()
        invariant
            i <= stack.len(),
            forall|j: int| 0 <= j < i ==> !other@.contains(stack@[j]),
        decreases stack.len() - i,
    {
        if other.contains(&stack[i]) {
            assert(stack@.to_set().contains(stack@[i as int]));
            return false;
        }
        i = i + 1;
    }
    assert forall|x: i64| !(other@.contains(x) && stack@.to_set().contains(x)) by {
        if stack@.contains(x) {
            let j = choose|j: int| 0 <= j < stack@.len() && stack@[j] == x;
        }
    }
    true
}

/// Checks an access to the current cell of `s` by thread `tid` against the
/// last recorded access of that cell, and records it.
pub fn lockset_check(h: &mut LockHistory, tid: u64, s: &State, is_write: bool) -> (r: Result<
    (),
    TsanError,
>)
    ensures
        r == lockset_verdict(old(h)@, tid, s.ptr_index, s.held(), is_write),
        final(h)@ == lockset_after(old(h)@, tid, s.ptr_index, s.held(), is_write),
        s.held().contains(s.ptr_index) ==> r is Ok,
{
    let idx = s.ptr_index;
    let cur_locks = current_lockset(s);
    if cur_locks.contains(&idx) {
        return Ok(());
    }
    let verdict = match h.hist.get(&idx) {
        Some(prev) => {
            if prev.tid != tid && disjoint_from(&prev.lockset, &s.lock_stack) && (is_write
                || prev.is_write) {
                Err(TsanError::Race { cell: idx, is_write: is_write || prev.is_write })
            } else {
                Ok(())
            }
        },
        None => Ok(()),
    };
    h.hist.insert(idx, Access { tid, is_write, lockset: cur_locks });
    assert(h@ =~= old(h)@.insert(
        idx,
        AccessView { tid, is_write, lockset: s.held() },
    ));
    verdict
}

} // verus!
