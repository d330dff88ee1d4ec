//! Vector clocks and the happens-before race detector built on them.

use super::{State, TsanError, TAPE_LEN};
use std::collections::HashMap;
use vstd::prelude::*;

verus! {

broadcast use vstd::std_specs::hash::group_hash_axioms;

/// The time that a clock holds for a thread; zero where it holds none.
pub open spec fn clock_at(c: Map<u64, u64>, t: u64) -> u64 {
    if c.contains_key(t) {
        c[t]
    } else {
        0
    }
}

/// `a` is at or before `b` for every thread, a missing entry counting as
/// zero.
pub open spec fn clock_leq(a: Map<u64, u64>, b: Map<u64, u64>) -> bool {
    forall|t: u64| clock_at(a, t) <= clock_at(b, t)
}

/// The clock that holds, for every thread that `a` or `b` has an entry for,
/// the later of the two times.
pub open spec fn clock_join(a: Map<u64, u64>, b: Map<u64, u64>) -> Map<u64, u64> {
    Map::new(
        |t: u64| a.contains_key(t) || b.contains_key(t),
        |t: u64|
            if clock_at(a, t) >= clock_at(b, t) {
                clock_at(a, t)
            } else {
                clock_at(b, t)
            },
    )
}

/// The clock `c` with the time of `t` advanced by one.
pub open spec fn clock_tick(c: Map<u64, u64>, t: u64) -> Map<u64, u64> {
    c.insert(t, (clock_at(c, t) + 1) as u64)
}

/// The time that clock `c` holds for thread `t`.
pub fn time_at(c: &HashMap<u64, u64>, t: u64) -> (time: u64)
    ensures
        time == clock_at(c@, t),
{
    match c.get(&t) {
        Some(v) => *v,
        None => 0,
    }
}

/// Advances the time of `t` in `c` by one.
pub fn tick(c: &mut HashMap<u64, u64>, t: u64)
    requires
        clock_at(old(c)@, t) < u64::MAX,
    ensures
        final(c)@ == clock_tick(old(c)@, t),
{
    let now = time_at(c, t);
    c.insert(t, now + 1);
}

/// Whether `a` is at or before `b` for every thread.
pub fn leq(a: &HashMap<u64, u64>, b: &HashMap<u64, u64>) -> (r: bool)
    ensures
        r == clock_leq(a@, b@),
{
    for entry in it: a.iter()
        invariant
            forall|i: int|
                0 <= i < it.index() ==> clock_at(a@, *it.seq()[i].0) <= clock_at(
                    b@,
                    *it.seq()[i].0,
                ),
    {
        let (k, av) = entry;
        if *av > time_at(b, *k) {
            assert(clock_at(a@, *k) > clock_at(b@, *k));
            return false;
        }
    }
    true
}

/// Being at or before is reflexive and transitive.
pub proof fn lemma_leq_is_a_preorder(a: Map<u64, u64>, b: Map<u64, u64>, c: Map<u64, u64>)
    ensures
        clock_leq(a, a),
        clock_leq(a, b) && clock_leq(b, c) ==> clock_leq(a, c),
{
    if clock_leq(a, b) && clock_leq(b, c) {
        assert forall|t: u64| clock_at(a, t) <= clock_at(c, t) by {
            assert(clock_at(a, t) <= clock_at(b, t));
            assert(clock_at(b, t) <= clock_at(c, t));
        }
    }
}

/// The join of two clocks is the earliest clock that neither is after.
pub proof fn lemma_join_is_least_upper_bound(a: Map<u64, u64>, b: Map<u64, u64>, c: Map<u64, u64>)
    ensures
        clock_leq(a, clock_join(a, b)),
        clock_leq(b, clock_join(a, b)),
        clock_leq(a, c) && clock_leq(b, c) ==> clock_leq(clock_join(a, b), c),
{
    if clock_leq(a, c) && clock_leq(b, c) {
        assert forall|t: u64| clock_at(clock_join(a, b), t) <= clock_at(c, t) by {
            assert(clock_at(a, t) <= clock_at(c, t));
            assert(clock_at(b, t) <= clock_at(c, t));
        }
    }
}

/// The clock `start` joined with `b` on the threads in `done` only.
pub open spec fn clock_join_on(start: Map<u64, u64>, b: Map<u64, u64>, done: Set<u64>) -> Map<
    u64,
    u64,
> {
    Map::new(
        |t: u64| start.contains_key(t) || done.contains(t),
        |t: u64|
            if done.contains(t) && clock_at(b, t) > clock_at(start, t) {
                clock_at(b, t)
            } else {
                clock_at(start, t)
            },
    )
}

/// Raises every entry of `a` to that of `b` where `b` is later, adding the
/// entries that `a` lacks.
#[verifier::rlimit(40)]
pub fn join_in(a: &mut HashMap<u64, u64>, b: &HashMap<u64, u64>)
    ensures
        final(a)@ == clock_join(old(a)@, b@),
{
    let ghost start = a@;
    let ghost mut done: Set<u64> = Set::empty();
    assert(a@ =~= clock_join_on(start, b@, done));
    for entry in it: b.iter()
        invariant
            forall|i: int| 0 <= i < it.index() ==> done.contains(*it.seq()[i].0),
            forall|t: u64| done.contains(t) ==> b@.contains_key(t),
            a@ == clock_join_on(start, b@, done),
            start == old(a)@,
    {
        let (k, bv) = entry;
        assert(b@.contains_key(*k) && b@[*k] == *bv);
        let have = time_at(a, *k);
        let later = if have < *bv {
            *bv
        } else {
            have
        };
        a.insert(*k, later);
        proof {
            done = done.insert(*k);
            assert(a@ =~= clock_join_on(start, b@, done));
        }
    }
    assert(a@ =~= clock_join(start, b@));
}

/// What a thread remembers when it starts to wait: the cell it waits on and
/// the notifications of that cell that it had seen by then.
pub struct WaitMark {
    pub id: i64,
    pub seen: HashMap<u64, u64>,
}

/// The clocks of the detector, as plain maps and sequences.
pub struct Clocks {
    /// For each thread that has one, its clock.
    pub threads: Map<u64, Map<u64, u64>>,
    /// For each cell, when each thread last read it.
    pub reads: Seq<Map<u64, u64>>,
    /// For each cell, when each thread last wrote it.
    pub writes: Seq<Map<u64, u64>>,
    /// For each cell's mutex, the clock of the thread that last released it,
    /// as it was then.
    pub releases: Seq<Map<u64, u64>>,
    /// For each cell's condition, the join of the clocks of all who notified
    /// it.
    pub notifies: Seq<Map<u64, u64>>,
    /// For each thread that started to wait, the cell and what it had seen.
    pub waits: Map<u64, (i64, Map<u64, u64>)>,
}

impl Clocks {
    /// One clock for each cell in each of the four tables.
    pub open spec fn wf(self) -> bool {
        &&& self.reads.len() == TAPE_LEN
        &&& self.writes.len() == TAPE_LEN
        &&& self.releases.len() == TAPE_LEN
        &&& self.notifies.len() == TAPE_LEN
    }

    /// The clocks before anything has happened: all empty.
    pub open spec fn initial() -> Clocks {
        Clocks {
            threads: Map::empty(),
            reads: Seq::new(TAPE_LEN as nat, |i: int| Map::empty()),
            writes: Seq::new(TAPE_LEN as nat, |i: int| Map::empty()),
            releases: Seq::new(TAPE_LEN as nat, |i: int| Map::empty()),
            notifies: Seq::new(TAPE_LEN as nat, |i: int| Map::empty()),
            waits: Map::empty(),
        }
    }

    /// The clock of thread `t`; empty where it has none yet.
    pub open spec fn clock(self, t: u64) -> Map<u64, u64> {
        if self.threads.contains_key(t) {
            self.threads[t]
        } else {
            Map::empty()
        }
    }

    /// The time that thread `t` holds for itself.
    pub open spec fn own_time(self, t: u64) -> u64 {
        clock_at(self.clock(t), t)
    }

    /// No thread's own time is earlier in `after` than in `self`.
    pub open spec fn not_after(self, after: Clocks) -> bool {
        forall|w: u64| self.own_time(w) <= #[trigger] after.own_time(w)
    }

    /// Thread `t` releases the mutex of cell `m`: it ticks, and the mutex
    /// keeps its clock.
    pub open spec fn released(self, t: u64, m: int) -> Clocks {
        let c = clock_tick(self.clock(t), t);
        Clocks { threads: self.threads.insert(t, c), releases: self.releases.update(m, c), ..self }
    }

    /// Thread `t` acquires the mutex of cell `m`: it joins the clock that
    /// the mutex keeps.
    pub open spec fn acquired(self, t: u64, m: int) -> Clocks {
        Clocks {
            threads: self.threads.insert(t, clock_join(self.clock(t), self.releases[m])),
            ..self
        }
    }

    /// Whether a read of cell `x` by thread `t` races: some write of the
    /// cell is not before the thread's clock.
    pub open spec fn read_races(self, t: u64, x: int) -> bool {
        !clock_leq(self.writes[x], self.clock(t))
    }

    /// What the detector says of a read of cell `x` by thread `t`.
    pub open spec fn read_verdict(self, t: u64, x: i64) -> Result<(), TsanError> {
        if self.read_races(t, x as int) {
            Err(TsanError::Race { cell: x, is_write: true })
        } else {
            Ok(())
        }
    }

    /// What the detector says of a write of cell `x` by thread `t`: the kind
    /// of the race tells whether it is with a write or with a read.
    pub open spec fn write_verdict(self, t: u64, x: i64) -> Result<(), TsanError> {
        if self.write_races_write(t, x as int) {
            Err(TsanError::Race { cell: x, is_write: true })
        } else if self.write_races_read(t, x as int) {
            Err(TsanError::Race { cell: x, is_write: false })
        } else {
            Ok(())
        }
    }

    /// Thread `t` reads cell `x`: unless the read races, the cell records
    /// the thread's own time as its last read.
    pub open spec fn read(self, t: u64, x: int) -> Clocks {
        let threads = self.threads.insert(t, self.clock(t));
        if self.read_races(t, x) {
            Clocks { threads, ..self }
        } else {
            Clocks {
                threads,
                reads: self.reads.update(x, self.reads[x].insert(t, self.own_time(t))),
                ..self
            }
        }
    }

    /// Whether a write of cell `x` by thread `t` races with an earlier
    /// write.
    pub open spec fn write_races_write(self, t: u64, x: int) -> bool {
        !clock_leq(self.writes[x], self.clock(t))
    }

    /// Whether a write of cell `x` by thread `t` races with an earlier read.
    pub open spec fn write_races_read(self, t: u64, x: int) -> bool {
        !clock_leq(self.reads[x], self.clock(t))
    }

    /// Thread `t` writes cell `x`: unless the write races, the cell records
    /// the thread's own time as its last write.
    pub open spec fn written(self, t: u64, x: int) -> Clocks {
        let threads = self.threads.insert(t, self.clock(t));
        if self.write_races_write(t, x) || self.write_races_read(t, x) {
            Clocks { threads, ..self }
        } else {
            Clocks {
                threads,
                writes: self.writes.update(x, self.writes[x].insert(t, self.own_time(t))),
                ..self
            }
        }
    }

    /// Thread `t` forks thread `u`: the parent ticks, and the child starts
    /// with the parent's clock, its own entry set to one.
    pub open spec fn forked(self, t: u64, u: u64) -> Clocks {
        let parent = clock_tick(self.clock(t), t);
        let child = parent.remove(u).insert(u, 1);
        Clocks { threads: self.threads.insert(t, parent).insert(u, child), ..self }
    }

    /// Thread `t` joins thread `u`: it joins the child's clock and ticks.
    pub open spec fn joined(self, t: u64, u: u64) -> Clocks {
        Clocks {
            threads: self.threads.insert(
                t,
                clock_tick(clock_join(self.clock(t), self.clock(u)), t),
            ),
            ..self
        }
    }

    /// Thread `t` starts to wait on cell `id`: it ticks and remembers the
    /// notifications that the cell has had so far.
    pub open spec fn waiting(self, t: u64, id: i64) -> Clocks {
        Clocks {
            threads: self.threads.insert(t, clock_tick(self.clock(t), t)),
            waits: self.waits.insert(t, (id, self.notifies[id as int])),
            ..self
        }
    }

    /// Whether thread `t`, coming back from a wait on cell `id`, has a
    /// notification to take over: it had started to wait on that cell, and
    /// the cell has been notified since.
    pub open spec fn was_notified(self, t: u64, id: i64) -> bool {
        &&& self.waits.contains_key(t)
        &&& self.waits[t].0 == id
        &&& !clock_leq(self.notifies[id as int], self.waits[t].1)
    }

    /// Thread `t` comes back from a wait on cell `id`: it forgets what it
    /// remembered, joins the cell's notifications if there were new ones,
    /// and ticks.
    pub open spec fn woken(self, t: u64, id: i64) -> Clocks {
        let base = if self.was_notified(t, id) {
            clock_join(self.clock(t), self.notifies[id as int])
        } else {
            self.clock(t)
        };
        Clocks {
            threads: self.threads.insert(t, clock_tick(base, t)),
            waits: self.waits.remove(t),
            ..self
        }
    }

    /// Thread `t` notifies cell `id`: it ticks, and the cell's notifications
    /// join its clock.
    pub open spec fn notified(self, t: u64, id: int) -> Clocks {
        let c = clock_tick(self.clock(t), t);
        Clocks {
            threads: self.threads.insert(t, c),
            notifies: self.notifies.update(id, clock_join(self.notifies[id], c)),
            ..self
        }
    }
}

/// What the detector is told of: one call of one of its operations.
pub enum Event {
    Release { t: u64, m: i64 },
    Acquire { t: u64, m: i64 },
    Read { t: u64, x: i64 },
    Write { t: u64, x: i64 },
    Fork { t: u64, u: u64 },
    Join { t: u64, u: u64 },
    PreWait { t: u64, id: i64 },
    PostWait { t: u64, id: i64 },
    Notify { t: u64, id: i64 },
}

impl Event {
    /// The thread whose own time the event advances, if it advances one.
    pub open spec fn ticker(self) -> Option<u64> {
        match self {
            Event::Release { t, .. } => Some(t),
            Event::Acquire { .. } => None,
            Event::Read { .. } => None,
            Event::Write { .. } => None,
            Event::Fork { t, .. } => Some(t),
            Event::Join { t, .. } => Some(t),
            Event::PreWait { t, .. } => Some(t),
            Event::PostWait { t, .. } => Some(t),
            Event::Notify { t, .. } => Some(t),
        }
    }
}

impl Clocks {
    /// Whether the detector can take the event: the cell is on the tape,
    /// and no time that the event advances is the last one that a machine
    /// word holds.
    pub open spec fn allows(self, e: Event) -> bool {
        match e {
            Event::Release { t, m } => is_cell(m) && self.own_time(t) < u64::MAX,
            Event::Acquire { t, m } => is_cell(m),
            Event::Read { t, x } => is_cell(x),
            Event::Write { t, x } => is_cell(x),
            Event::Fork { t, u } => self.own_time(t) < u64::MAX,
            Event::Join { t, u } => self.own_time(t) < u64::MAX && clock_at(self.clock(u), t)
                < u64::MAX,
            Event::PreWait { t, id } => is_cell(id) && self.own_time(t) < u64::MAX,
            Event::PostWait { t, id } => self.own_time(t) < u64::MAX && (self.waits.contains_key(
                t,
            ) && self.waits[t].0 == id ==> is_cell(id) && clock_at(self.notifies[id as int], t)
                < u64::MAX),
            Event::Notify { t, id } => is_cell(id) && self.own_time(t) < u64::MAX,
        }
    }

    /// The clocks after the event.
    pub open spec fn after(self, e: Event) -> Clocks {
        match e {
            Event::Release { t, m } => self.released(t, m as int),
            Event::Acquire { t, m } => self.acquired(t, m as int),
            Event::Read { t, x } => self.read(t, x as int),
            Event::Write { t, x } => self.written(t, x as int),
            Event::Fork { t, u } => self.forked(t, u),
            Event::Join { t, u } => self.joined(t, u),
            Event::PreWait { t, id } => self.waiting(t, id),
            Event::PostWait { t, id } => self.woken(t, id),
            Event::Notify { t, id } => self.notified(t, id as int),
        }
    }
}

/// No event sets a thread's own time back, and every event that ticks a
/// thread advances that thread's own time. The one exception is left out: a
/// fork whose child already has a time of its own starts the child anew at
/// one.
#[verifier::rlimit(40)]
pub proof fn lemma_own_times_grow(c: Clocks, e: Event)
    requires
        c.wf(),
        c.allows(e),
        e matches Event::Fork { t, u } ==> c.own_time(u) == 0,
    ensures
        c.after(e).wf(),
        c.not_after(c.after(e)),
        e.ticker() matches Some(t) ==> c.after(e).own_time(t) > c.own_time(t),
{
    let d = c.after(e);
    assert forall|w: u64| c.own_time(w) <= #[trigger] d.own_time(w) by {
        match e {
            Event::PostWait { t, id } => {
                if c.was_notified(t, id) {
                    assert(clock_at(clock_join(c.clock(t), c.notifies[id as int]), t) < u64::MAX);
                }
            },
            _ => {},
        }
    }
}

/// The views of a table of clocks.
pub open spec fn views(table: Seq<HashMap<u64, u64>>) -> Seq<Map<u64, u64>> {
    Seq::new(table.len(), |i: int| table[i]@)
}

/// A table of `n` empty clocks.
fn empty_table(n: usize) -> (table: Vec<HashMap<u64, u64>>)
    ensures
        views(table@) == Seq::new(n as nat, |i: int| Map::<u64, u64>::empty()),
{
    let mut table: Vec<HashMap<u64, u64>> = Vec::new();
    while table.len() < n
        invariant
            table.len() <= n,
            forall|i: int| 0 <= i < table.len() ==> table[i]@ == Map::<u64, u64>::empty(),
        decreases n - table.len(),
    {
        table.push(HashMap::new());
    }
    assert(views(table@) =~= Seq::new(n as nat, |i: int| Map::<u64, u64>::empty()));
    table
}

/// Whether `x` is the index of a cell.
pub open spec fn is_cell(x: i64) -> bool {
    0 <= x < TAPE_LEN
}

/// The happens-before race detector: a clock for each thread, and for each
/// cell the clocks of its last reads and writes, of the last release of its
/// mutex, and of the notifications of its condition.
pub struct RaceDetector {
    ct: HashMap<u64, HashMap<u64, u64>>,
    rx: Vec<HashMap<u64, u64>>,
    wx: Vec<HashMap<u64, u64>>,
    lm: Vec<HashMap<u64, u64>>,
    nclock: Vec<HashMap<u64, u64>>,
    wait_seen: HashMap<u64, WaitMark>,
}

impl View for RaceDetector {
    type V = Clocks;

    closed spec fn view(&self) -> Clocks {
        Clocks {
            threads: Map::new(|t: u64| self.ct@.contains_key(t), |t: u64| self.ct@[t]@),
            reads: views(self.rx@),
            writes: views(self.wx@),
            releases: views(self.lm@),
            notifies: views(self.nclock@),
            waits: Map::new(
                |t: u64| self.wait_seen@.contains_key(t),
                |t: u64| (self.wait_seen@[t].id, self.wait_seen@[t].seen@),
            ),
        }
    }
}

impl RaceDetector {
    /// A detector that has seen nothing.
    pub fn new() -> (d: RaceDetector)
        ensures
            d@ == Clocks::initial(),
            d@.wf(),
    {
        let d = RaceDetector {
            ct: HashMap::new(),
            rx: empty_table(TAPE_LEN),
            wx: empty_table(TAPE_LEN),
            lm: empty_table(TAPE_LEN),
            nclock: empty_table(TAPE_LEN),
            wait_seen: HashMap::new(),
        };
        assert(d@.threads =~= Map::empty());
        assert(d@.waits =~= Map::empty());
        d
    }

    /// The time that the clock of thread `owner` holds for thread `about`.
    pub fn time_of(&self, owner: u64, about: u64) -> (time: u64)
        ensures
            time == clock_at(self@.clock(owner), about),
    {
        match self.ct.get(&owner) {
            Some(c) => time_at(c, about),
            None => 0,
        }
    }

    /// Takes the clock of thread `t` out of the table; an empty clock
    /// where it has none.
    fn take_clock(&mut self, t: u64) -> (c: HashMap<u64, u64>)
        ensures
            c@ == old(self)@.clock(t),
            final(self)@ == (Clocks { threads: old(self)@.threads.remove(t), ..old(self)@ }),
    {
        let c = match self.ct.remove(&t) {
            Some(c) => c,
            None => HashMap::new(),
        };
        assert(self@.threads =~= old(self)@.threads.remove(t));
        assert(self@.waits =~= old(self)@.waits);
        c
    }

    /// Puts the clock of thread `t` into the table.
    fn put_clock(&mut self, t: u64, c: HashMap<u64, u64>)
        ensures
            final(self)@ == (Clocks { threads: old(self)@.threads.insert(t, c@), ..old(self)@ }),
    {
        self.ct.insert(t, c);
        assert(self@.threads =~= old(self)@.threads.insert(t, c@));
        assert(self@.waits =~= old(self)@.waits);
    }

    /// A copy of the clock of thread `t`; an empty clock where it has none.
    fn copy_clock(&self, t: u64) -> (c: HashMap<u64, u64>)
        ensures
            c@ == self@.clock(t),
    {
        match self.ct.get(&t) {
            Some(c) => c.clone(),
            None => HashMap::new(),
        }
    }

    /// Thread `t` releases the mutex of cell `m`.
    pub fn rel(&mut self, t: u64, m: i64)
        requires
            old(self)@.wf(),
            old(self)@.allows(Event::Release { t, m }),
        ensures
            final(self)@ == old(self)@.released(t, m as int),
            final(self)@.wf(),
            final(self)@.own_time(t) == old(self)@.own_time(t) + 1,
            old(self)@.not_after(final(self)@),
    {
        let mut c = self.take_clock(t);
        tick(&mut c, t);
        self.lm.set(m as usize, c.clone());
        assert(self@.releases =~= old(self)@.releases.update(m as int, c@));
        assert(self@.threads == old(self)@.threads.remove(t));
        self.put_clock(t, c);
        assert(self@.threads =~= old(self)@.threads.insert(t, c@));
    }

    /// Thread `t` acquires the mutex of cell `m`.
    pub fn acq(&mut self, t: u64, m: i64)
        requires
            old(self)@.wf(),
            old(self)@.allows(Event::Acquire { t, m }),
        ensures
            final(self)@ == old(self)@.acquired(t, m as int),
            final(self)@.wf(),
            old(self)@.not_after(final(self)@),
    {
        let released = self.lm[m as usize].clone();
        let mut c = self.take_clock(t);
        join_in(&mut c, &released);
        self.put_clock(t, c);
        assert(self@.threads =~= old(self)@.threads.insert(t, c@));
    }

    /// Thread `t` reads cell `x`. Reports a race where a write of the cell
    /// is not before the thread's clock; records the read otherwise.
    pub fn rd(&mut self, t: u64, x: i64) -> (r: Result<(), TsanError>)
        requires
            old(self)@.wf(),
            old(self)@.allows(Event::Read { t, x }),
        ensures
            final(self)@ == old(self)@.read(t, x as int),
            final(self)@.wf(),
            r == old(self)@.read_verdict(t, x),
            old(self)@.not_after(final(self)@),
    {
        let snapshot = self.copy_clock(t);
        let mine = self.take_clock(t);
        self.put_clock(t, mine);
        assert(self@.threads =~= old(self)@.threads.insert(t, old(self)@.clock(t)));
        if !leq(&self.wx[x as usize], &snapshot) {
            return Err(TsanError::Race { cell: x, is_write: true });
        }
        let my_time = time_at(&snapshot, t);
        let mut cell = self.rx[x as usize].clone();
        cell.insert(t, my_time);
        self.rx.set(x as usize, cell);
        assert(self@.reads =~= old(self)@.reads.update(
            x as int,
            old(self)@.reads[x as int].insert(t, old(self)@.own_time(t)),
        ));
        Ok(())
    }

    /// Thread `t` writes cell `x`. Reports a race where a write or a read
    /// of the cell is not before the thread's clock, the kind telling which;
    /// records the write otherwise.
    pub fn wr(&mut self, t: u64, x: i64) -> (r: Result<(), TsanError>)
        requires
            old(self)@.wf(),
            old(self)@.allows(Event::Write { t, x }),
        ensures
            final(self)@ == old(self)@.written(t, x as int),
            final(self)@.wf(),
            r == old(self)@.write_verdict(t, x),
            old(self)@.not_after(final(self)@),
    {
        let snapshot = self.copy_clock(t);
        let mine = self.take_clock(t);
        self.put_clock(t, mine);
        assert(self@.threads =~= old(self)@.threads.insert(t, old(self)@.clock(t)));
        if !leq(&self.wx[x as usize], &snapshot) {
            return Err(TsanError::Race { cell: x, is_write: true });
        }
        if !leq(&self.rx[x as usize], &snapshot) {
            return Err(TsanError::Race { cell: x, is_write: false });
        }
        let my_time = time_at(&snapshot, t);
        let mut cell = self.wx[x as usize].clone();
        cell.insert(t, my_time);
        self.wx.set(x as usize, cell);
        assert(self@.writes =~= old(self)@.writes.update(
            x as int,
            old(self)@.writes[x as int].insert(t, old(self)@.own_time(t)),
        ));
        Ok(())
    }

    /// Thread `t` forks thread `u`. The child's own time starts at one,
    /// whatever clock it had before.
    pub fn fork(&mut self, t: u64, u: u64)
        requires
            old(self)@.wf(),
            old(self)@.allows(Event::Fork { t, u }),
        ensures
            final(self)@ == old(self)@.forked(t, u),
            final(self)@.wf(),
            final(self)@.own_time(u) == 1,
            t != u ==> final(self)@.own_time(t) == old(self)@.own_time(t) + 1,
            forall|w: u64| w != u ==> old(self)@.own_time(w) <= #[trigger] final(self)@.own_time(w),
            old(self)@.own_time(u) == 0 ==> old(self)@.not_after(final(self)@),
    {
        let mut parent = self.take_clock(t);
        tick(&mut parent, t);
        let mut child = parent.clone();
        self.put_clock(t, parent);
        child.remove(&u);
        tick(&mut child, u);
        self.put_clock(u, child);
        assert(self@.threads =~= old(self)@.forked(t, u).threads);
    }

    /// Thread `t` joins thread `u`.
    pub fn join(&mut self, t: u64, u: u64)
        requires
            old(self)@.wf(),
            old(self)@.allows(Event::Join { t, u }),
        ensures
            final(self)@ == old(self)@.joined(t, u),
            final(self)@.wf(),
            final(self)@.own_time(t) > old(self)@.own_time(t),
            old(self)@.not_after(final(self)@),
    {
        let child = self.copy_clock(u);
        let mut c = self.take_clock(t);
        join_in(&mut c, &child);
        tick(&mut c, t);
        self.put_clock(t, c);
        assert(self@.threads =~= old(self)@.joined(t, u).threads);
    }

    /// Thread `t` is about to wait on cell `id`.
    pub fn pre_wait(&mut self, t: u64, id: i64)
        requires
            old(self)@.wf(),
            old(self)@.allows(Event::PreWait { t, id }),
        ensures
            final(self)@ == old(self)@.waiting(t, id),
            final(self)@.wf(),
            final(self)@.own_time(t) == old(self)@.own_time(t) + 1,
            old(self)@.not_after(final(self)@),
    {
        let mut c = self.take_clock(t);
        tick(&mut c, t);
        self.put_clock(t, c);
        let seen = self.nclock[id as usize].clone();
        self.wait_seen.insert(t, WaitMark { id, seen });
        assert(self@.threads =~= old(self)@.waiting(t, id).threads);
        assert(self@.waits =~= old(self)@.waiting(t, id).waits);
    }

    /// Thread `t` has come back from a wait on cell `id`.
    #[verifier::rlimit(40)]
    pub fn post_wait(&mut self, t: u64, id: i64)
        requires
            old(self)@.wf(),
            old(self)@.allows(Event::PostWait { t, id }),
        ensures
            final(self)@ == old(self)@.woken(t, id),
            final(self)@.wf(),
            final(self)@.own_time(t) > old(self)@.own_time(t),
            old(self)@.not_after(final(self)@),
    {
        let mark = self.wait_seen.remove(&t);
        assert(self@.waits =~= old(self)@.waits.remove(t));
        let mut c = self.take_clock(t);
        match mark {
            Some(wm) => {
                if wm.id == id {
                    let now = self.nclock[id as usize].clone();
                    if !leq(&now, &wm.seen) {
                        join_in(&mut c, &now);
                    }
                }
            },
            None => {},
        }
        tick(&mut c, t);
        self.put_clock(t, c);
        assert(self@.threads =~= old(self)@.woken(t, id).threads);
    }

    /// Thread `t` notifies the waiters of cell `id`.
    pub fn notify(&mut self, t: u64, id: i64)
        requires
            old(self)@.wf(),
            old(self)@.allows(Event::Notify { t, id }),
        ensures
            final(self)@ == old(self)@.notified(t, id as int),
            final(self)@.wf(),
            final(self)@.own_time(t) == old(self)@.own_time(t) + 1,
            old(self)@.not_after(final(self)@),
    {
        let mut c = self.take_clock(t);
        tick(&mut c, t);
        let mut cell = self.nclock[id as usize].clone();
        join_in(&mut cell, &c);
        self.nclock.set(id as usize, cell);
        assert(self@.notifies =~= old(self)@.notified(t, id as int).notifies);
        self.put_clock(t, c);
        assert(self@.threads =~= old(self)@.notified(t, id as int).threads);
    }
}

/// A write of the current cell of `s` by thread `tid`.
pub fn vector_clock_write(d: &mut RaceDetector, tid: u64, s: &State) -> (r: Result<(), TsanError>)
    requires
        old(d)@.wf(),
        old(d)@.allows(Event::Write { t: tid, x: s.ptr_index }),
    ensures
        final(d)@ == old(d)@.written(tid, s.ptr_index as int),
        final(d)@.wf(),
        r == old(d)@.write_verdict(tid, s.ptr_index),
{
    d.wr(tid, s.ptr_index)
}

/// A read of the current cell of `s` by thread `tid`.
pub fn vector_clock_read(d: &mut RaceDetector, tid: u64, s: &State) -> (r: Result<(), TsanError>)
    requires
        old(d)@.wf(),
        old(d)@.allows(Event::Read { t: tid, x: s.ptr_index }),
    ensures
        final(d)@ == old(d)@.read(tid, s.ptr_index as int),
        final(d)@.wf(),
        r == old(d)@.read_verdict(tid, s.ptr_index),
{
    d.rd(tid, s.ptr_index)
}

/// Thread `tid` has acquired the mutex of cell `m`.
pub fn vector_clock_acquire(d: &mut RaceDetector, tid: u64, m: i64)
    requires
        old(d)@.wf(),
        old(d)@.allows(Event::Acquire { t: tid, m }),
    ensures
        final(d)@ == old(d)@.acquired(tid, m as int),
        final(d)@.wf(),
{
    d.acq(tid, m);
}

/// Thread `tid` is about to release the mutex of cell `m`.
pub fn vector_clock_release(d: &mut RaceDetector, tid: u64, m: i64)
    requires
        old(d)@.wf(),
        old(d)@.allows(Event::Release { t: tid, m }),
    ensures
        final(d)@ == old(d)@.released(tid, m as int),
        final(d)@.wf(),
{
    d.rel(tid, m);
}

/// Thread `parent_tid` has forked thread `child_tid`.
pub fn vector_clock_fork(d: &mut RaceDetector, parent_tid: u64, child_tid: u64)
    requires
        old(d)@.wf(),
        old(d)@.allows(Event::Fork { t: parent_tid, u: child_tid }),
    ensures
        final(d)@ == old(d)@.forked(parent_tid, child_tid),
        final(d)@.wf(),
{
    d.fork(parent_tid, child_tid);
}

/// Thread `parent_tid` has joined thread `child_tid`.
pub fn vector_clock_join(d: &mut RaceDetector, parent_tid: u64, child_tid: u64)
    requires
        old(d)@.wf(),
        old(d)@.allows(Event::Join { t: parent_tid, u: child_tid }),
    ensures
        final(d)@ == old(d)@.joined(parent_tid, child_tid),
        final(d)@.wf(),
{
    d.join(parent_tid, child_tid);
}

/// Thread `tid` is about to wait on the current cell of `s`.
pub fn vector_clock_pre_wait(d: &mut RaceDetector, tid: u64, s: &State)
    requires
        old(d)@.wf(),
        old(d)@.allows(Event::PreWait { t: tid, id: s.ptr_index }),
    ensures
        final(d)@ == old(d)@.waiting(tid, s.ptr_index),
        final(d)@.wf(),
{
    d.pre_wait(tid, s.ptr_index);
}

/// Thread `tid` has come back from a wait on the current cell of `s`.
pub fn vector_clock_post_wait(d: &mut RaceDetector, tid: u64, s: &State)
    requires
        old(d)@.wf(),
        old(d)@.allows(Event::PostWait { t: tid, id: s.ptr_index }),
    ensures
        final(d)@ == old(d)@.woken(tid, s.ptr_index),
        final(d)@.wf(),
{
    d.post_wait(tid, s.ptr_index);
}

/// Thread `tid` notifies the waiters of the current cell of `s`.
pub fn vector_clock_notify(d: &mut RaceDetector, tid: u64, s: &State)
    requires
        old(d)@.wf(),
        old(d)@.allows(Event::Notify { t: tid, id: s.ptr_index }),
    ensures
        final(d)@ == old(d)@.notified(tid, s.ptr_index as int),
        final(d)@.wf(),
{
    d.notify(tid, s.ptr_index);
}

} // verus!
