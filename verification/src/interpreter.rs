//! The reference interpreter, as far as it works on plain values.
//!
//! A thread of the interpreter owns a pointer and a stack of the cells that
//! it has locked. For each instruction it decides what to do to the shared
//! tape; doing it (atomic cells, input and output, threads, sleeping) is
//! left to the caller, who runs the loop.

use crate::parser::{tree_of, Node, Tree};
use vstd::prelude::*;

verus! {

/// Cells on the interpreter's tape.
pub const MEMORY_SIZE: usize = 30000;

/// Milliseconds in one tick of a sleep.
pub const TICK_MILLIS: u64 = 100;

/// What a thread owns: the index of its current cell, and the cells that it
/// has locked, oldest first.
pub struct ThreadState {
    ptr: usize,
    lock_stack: Vec<usize>,
}

/// What the caller is to do for one instruction.
#[derive(Debug, Clone, Copy, PartialEq, Eq, Structural)]
pub enum Action {
    /// Nothing: the pointer has moved.
    Moved,
    /// Add one to the cell, wrapping.
    Increment { cell: usize },
    /// Take one from the cell, wrapping.
    Decrement { cell: usize },
    /// Write the cell's byte and flush.
    Output { cell: usize },
    /// Read one byte into the cell; leave the cell at end of input.
    Input { cell: usize },
    /// Run the body while the cell is not zero.
    Loop { cell: usize },
    /// Run each branch on a thread of its own that starts at the cell, and
    /// join them all.
    Parallel { cell: usize },
    /// Spin until the cell's lock is taken.
    Acquire { cell: usize },
    /// Give the cell's lock back.
    Release { cell: usize },
    /// Sleep for that long.
    Sleep { millis: u64 },
    /// Wait that many times for a notification of the cell.
    Wait { cell: usize, times: usize },
    /// Wake all who wait for the cell.
    Notify { cell: usize },
}

/// The cell that an action works on, if it works on one.
pub open spec fn cell_of(a: Action) -> Option<usize> {
    match a {
        Action::Moved => None,
        Action::Increment { cell } => Some(cell),
        Action::Decrement { cell } => Some(cell),
        Action::Output { cell } => Some(cell),
        Action::Input { cell } => Some(cell),
        Action::Loop { cell } => Some(cell),
        Action::Parallel { cell } => Some(cell),
        Action::Acquire { cell } => Some(cell),
        Action::Release { cell } => Some(cell),
        Action::Sleep { .. } => None,
        Action::Wait { cell, .. } => Some(cell),
        Action::Notify { cell } => Some(cell),
    }
}

/// The pointer after a move to the right: it wraps to the first cell behind
/// the last.
pub open spec fn ptr_after_inc(ptr: int) -> int {
    (ptr + 1) % (MEMORY_SIZE as int)
}

/// The pointer after a move to the left: it wraps to the last cell before
/// the first.
pub open spec fn ptr_after_dec(ptr: int) -> int {
    (ptr - 1) % (MEMORY_SIZE as int)
}

/// Whether a thread that holds `locks` can take the instruction: a release
/// needs a lock to give back, and a sleep must last no longer than a machine
/// word of milliseconds.
pub open spec fn can_step(locks: Seq<usize>, n: Tree) -> bool {
    match n {
        Tree::LockRelease => locks.len() > 0,
        Tree::Sleep(ticks) => ticks * TICK_MILLIS <= u64::MAX,
        _ => true,
    }
}

/// What the instruction asks of the caller, for a thread at `ptr` that
/// holds `locks`.
pub open spec fn action_of(ptr: usize, locks: Seq<usize>, n: Tree) -> Action {
    match n {
        Tree::IncPtr => Action::Moved,
        Tree::DecPtr => Action::Moved,
        Tree::IncCell => Action::Increment { cell: ptr },
        Tree::DecCell => Action::Decrement { cell: ptr },
        Tree::Output => Action::Output { cell: ptr },
        Tree::Input => Action::Input { cell: ptr },
        Tree::Loop(_) => Action::Loop { cell: ptr },
        Tree::Parallel(_) => Action::Parallel { cell: ptr },
        Tree::LockAcquire => Action::Acquire { cell: ptr },
        Tree::LockRelease => Action::Release { cell: locks.last() },
        Tree::Sleep(ticks) => Action::Sleep { millis: (ticks * TICK_MILLIS) as u64 },
        Tree::Wait(times) => Action::Wait { cell: ptr, times: times as usize },
        Tree::Notify => Action::Notify { cell: ptr },
    }
}

/// The pointer after the instruction.
pub open spec fn ptr_after(ptr: usize, n: Tree) -> int {
    match n {
        Tree::IncPtr => ptr_after_inc(ptr as int),
        Tree::DecPtr => ptr_after_dec(ptr as int),
        _ => ptr as int,
    }
}

/// The locked cells after the instruction: an acquire pushes the current
/// cell, a release pops.
pub open spec fn locks_after(ptr: usize, locks: Seq<usize>, n: Tree) -> Seq<usize> {
    match n {
        Tree::LockAcquire => locks.push(ptr),
        Tree::LockRelease => locks.drop_last(),
        _ => locks,
    }
}

/// The pointer after a move to the right.
pub fn next_ptr(ptr: usize) -> (r: usize)
    requires
        ptr < MEMORY_SIZE,
    ensures
        r == ptr_after_inc(ptr as int),
        r < MEMORY_SIZE,
{
    if ptr + 1 == MEMORY_SIZE {
        0
    } else {
        ptr + 1
    }
}

/// The pointer after a move to the left.
pub fn prev_ptr(ptr: usize) -> (r: usize)
    requires
        ptr < MEMORY_SIZE,
    ensures
        r == ptr_after_dec(ptr as int),
        r < MEMORY_SIZE,
{
    if ptr == 0 {
        MEMORY_SIZE - 1
    } else {
        ptr - 1
    }
}

/// The milliseconds that a sleep of `ticks` ticks lasts.
pub fn sleep_millis(ticks: usize) -> (ms: u64)
    requires
        ticks * TICK_MILLIS <= u64::MAX,
    ensures
        ms == ticks * TICK_MILLIS,
{
    TICK_MILLIS * (ticks as u64)
}

impl ThreadState {
    /// The pointer and every locked cell are on the tape. Every state that
    /// this module hands out is so.
    pub closed spec fn wf(&self) -> bool {
        &&& self.ptr < MEMORY_SIZE
        &&& forall|i: int| 0 <= i < self.lock_stack@.len() ==> self.lock_stack@[i] < MEMORY_SIZE
    }

    /// The index of the current cell.
    pub closed spec fn at(&self) -> usize {
        self.ptr
    }

    /// The cells that the thread has locked, oldest first.
    pub closed spec fn locks(&self) -> Seq<usize> {
        self.lock_stack@
    }

    /// The thread that runs a program: at the first cell, holding no lock.
    pub fn new() -> (t: ThreadState)
        ensures
            t.wf(),
            t.at() == 0,
            t.locks() == Seq::<usize>::empty(),
    {
        ThreadState { ptr: 0, lock_stack: Vec::new() }
    }

    /// The thread that runs a branch: at its parent's cell, holding no lock.
    pub fn child(&self) -> (t: ThreadState)
        requires
            self.wf(),
        ensures
            t.wf(),
            t.at() == self.at(),
            t.locks() == Seq::<usize>::empty(),
    {
        ThreadState { ptr: self.ptr, lock_stack: Vec::new() }
    }

    /// The index of the current cell, which is on the tape.
    pub fn ptr(&self) -> (cell: usize)
        requires
            self.wf(),
        ensures
            cell == self.at(),
            cell < MEMORY_SIZE,
    {
        self.ptr
    }

    /// The number of cells that the thread has locked.
    pub fn held(&self) -> (count: usize)
        ensures
            count == self.locks().len(),
    {
        self.lock_stack.len()
    }

    /// Whether the thread can take the instruction.
    pub fn ready(&self, node: &Node) -> (r: bool)
        ensures
            r == can_step(self.locks(), tree_of(*node)),
    {
        match node {
            Node::LockRelease => self.lock_stack.len() > 0,
            Node::Sleep(ticks) => (*ticks as u64) <= u64::MAX / TICK_MILLIS,
            _ => true,
        }
    }

    /// Takes one instruction: moves the pointer or the lock stack as the
    /// instruction says, and tells the caller what to do to the tape. Every
    /// cell that the action names is on the tape.
    pub fn step(&mut self, node: &Node) -> (action: Action)
        requires
            old(self).wf(),
            can_step(old(self).locks(), tree_of(*node)),
        ensures
            final(self).wf(),
            action == action_of(old(self).at(), old(self).locks(), tree_of(*node)),
            final(self).at() == ptr_after(old(self).at(), tree_of(*node)),
            final(self).locks() == locks_after(old(self).at(), old(self).locks(), tree_of(*node)),
            cell_of(action) matches Some(cell) ==> cell < MEMORY_SIZE,
    {
        match node {
            Node::IncPtr => {
                self.ptr = next_ptr(self.ptr);
                Action::Moved
            },
            Node::DecPtr => {
                self.ptr = prev_ptr(self.ptr);
                Action::Moved
            },
            Node::IncCell => Action::Increment { cell: self.ptr },
            Node::DecCell => Action::Decrement { cell: self.ptr },
            Node::Output => Action::Output { cell: self.ptr },
            Node::Input => Action::Input { cell: self.ptr },
            Node::Loop(_) => Action::Loop { cell: self.ptr },
            Node::Parallel(_) => Action::Parallel { cell: self.ptr },
            Node::LockAcquire => {
                self.lock_stack.push(self.ptr);
                Action::Acquire { cell: self.ptr }
            },
            Node::LockRelease => {
                let cell = self.lock_stack.pop().unwrap();
                Action::Release { cell }
            },
            Node::Sleep(ticks) => Action::Sleep { millis: sleep_millis(*ticks) },
            Node::Wait(times) => Action::Wait { cell: self.ptr, times: *times },
            Node::Notify => Action::Notify { cell: self.ptr },
        }
    }
}

} // verus!
