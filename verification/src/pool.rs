use vstd::prelude::*;

verus! {

/// A bounded-concurrency gate: a fixed capacity chosen at construction and
/// a count of permits currently handed out. The runtime's semaphore enforces
/// the bound at execution time; this model is what the scheduler reasons
/// about.
#[derive(Debug, Clone, Copy)]
pub struct WorkerPool {
    capacity: usize,
    in_use: usize,
}

impl WorkerPool {
    /// The fixed number of permits.
    pub closed spec fn spec_capacity(self) -> int {
        self.capacity as int
    }

    /// How many permits are currently held.
    pub closed spec fn spec_in_use(self) -> int {
        self.in_use as int
    }

    /// The pool never hands out more permits than its capacity.
    pub closed spec fn wf(self) -> bool {
        self.in_use <= self.capacity
    }

    /// A fresh pool with every permit available.
    pub fn new(capacity: usize) -> (r: WorkerPool)
        ensures
            r.wf(),
            r.spec_capacity() == capacity,
            r.spec_in_use() == 0,
    {
        WorkerPool { capacity, in_use: 0 }
    }

    /// Take a permit when one is free; report whether one was taken.
    pub fn try_acquire(&mut self) -> (r: bool)
        requires
            old(self).wf(),
        ensures
            final(self).wf(),
            final(self).spec_capacity() == old(self).spec_capacity(),
            r == (old(self).spec_in_use() < old(self).spec_capacity()),
            r ==> final(self).spec_in_use() == old(self).spec_in_use() + 1,
            !r ==> final(self).spec_in_use() == old(self).spec_in_use(),
    {
        if self.in_use < self.capacity {
            self.in_use = self.in_use + 1;
            true
        } else {
            false
        }
    }

    /// Hand a permit back.
    pub fn release(&mut self)
        requires
            old(self).wf(),
            old(self).spec_in_use() > 0,
        ensures
            final(self).wf(),
            final(self).spec_capacity() == old(self).spec_capacity(),
            final(self).spec_in_use() == old(self).spec_in_use() - 1,
    {
        self.in_use = self.in_use - 1;
    }
}

/// Why a scan unit definitely failed.
#[derive(Debug, Clone, Copy, PartialEq, Eq, Structural)]
pub enum FailReason {
    /// The clone subprocess exceeded its deadline.
    CloneTimeout,
    /// The clone subprocess exited non-zero or could not be run.
    CloneFailed,
    /// The analyzer subprocess exceeded its deadline.
    AnalyzeTimeout,
    /// The analyzer subprocess exited non-zero or could not be run.
    AnalyzeFailed,
    /// The analyzer's output was not the expected document.
    ParseFailed,
}

/// Where one repository's scan stands: cloning and analyzing are the two
/// phases that hold a pool permit and run a heavyweight subprocess.
#[derive(Debug, Clone, Copy, PartialEq, Eq, Structural)]
pub enum UnitPhase {
    Pending,
    Cloning,
    Analyzing,
    Succeeded,
    Failed(FailReason),
}

/// A unit in this phase holds a pool permit and a running subprocess.
pub open spec fn is_active(p: UnitPhase) -> bool {
    p is Cloning || p is Analyzing
}

/// How many units are in an active phase.
pub open spec fn count_active(s: Seq<UnitPhase>) -> int
    decreases s.len(),
{
    if s.len() == 0 {
        0
    } else {
        count_active(s.drop_last()) + if is_active(s.last()) {
            1int
        } else {
            0int
        }
    }
}

/// Replacing one element changes the active count by exactly the difference
/// the two phases make.
proof fn lemma_count_active_update(s: Seq<UnitPhase>, i: int, v: UnitPhase)
    requires
        0 <= i < s.len(),
    ensures
        count_active(s.update(i, v)) == count_active(s) - (if is_active(s[i]) {
            1int
        } else {
            0int
        }) + (if is_active(v) {
            1int
        } else {
            0int
        }),
    decreases s.len(),
{
    let t = s.update(i, v);
    if i == s.len() - 1 {
        assert(t.drop_last() =~= s.drop_last());
        assert(t.last() == v);
    } else {
        lemma_count_active_update(s.drop_last(), i, v);
        assert(t.drop_last() =~= s.drop_last().update(i, v));
        assert(t.last() == s.last());
    }
}

/// The active count is never negative.
proof fn lemma_count_active_nonneg(s: Seq<UnitPhase>)
    ensures
        count_active(s) >= 0,
    decreases s.len(),
{
    if s.len() > 0 {
        lemma_count_active_nonneg(s.drop_last());
    }
}

/// An active unit makes the active count positive.
proof fn lemma_count_active_pos(s: Seq<UnitPhase>, i: int)
    requires
        0 <= i < s.len(),
        is_active(s[i]),
    ensures
        count_active(s) >= 1,
    decreases s.len(),
{
    lemma_count_active_nonneg(s.drop_last());
    if i < s.len() - 1 {
        lemma_count_active_pos(s.drop_last(), i);
    }
}

/// One batch run's scan units together with the pool that throttles them.
/// The well-formedness invariant ties the two: the number of units in an
/// active phase always equals the number of permits out, so it can never
/// exceed the pool's capacity.
#[derive(Debug)]
pub struct BatchRun {
    pool: WorkerPool,
    units: Vec<UnitPhase>,
}

impl BatchRun {
    /// The phases of the units.
    pub closed spec fn spec_units(self) -> Seq<UnitPhase> {
        self.units@
    }

    /// The pool's capacity.
    pub closed spec fn spec_capacity(self) -> int {
        self.pool.spec_capacity()
    }

    /// Every permit out is one active unit, and the pool is within bounds.
    pub closed spec fn wf(self) -> bool {
        self.pool.wf() && self.pool.spec_in_use() == count_active(self.units@)
    }

    /// A fresh run: `n` pending units and an idle pool of the given
    /// capacity.
    pub fn new(capacity: usize, n: usize) -> (r: BatchRun)
        ensures
            r.wf(),
            r.spec_capacity() == capacity,
            r.spec_units().len() == n,
            forall|i: int| 0 <= i < n ==> r.spec_units()[i] == UnitPhase::Pending,
    {
        let mut units: Vec<UnitPhase> = Vec::new();
        let mut i: usize = 0;
        while i < n
            invariant
                i <= n,
                units@.len() == i,
                forall|j: int| 0 <= j < i ==> units@[j] == UnitPhase::Pending,
                count_active(units@) == 0,
            decreases n - i,
        {
            let ghost old_units = units@;
            units.push(UnitPhase::Pending);
            proof {
                assert(units@.drop_last() =~= old_units);
            }
            i = i + 1;
        }
        BatchRun { pool: WorkerPool::new(capacity), units }
    }

    /// The number of units.
    pub fn len(&self) -> (r: usize)
        ensures
            r == self.spec_units().len(),
    {
        self.units.len()
    }

    /// Try to start unit `i`: it moves to the cloning phase exactly when the
    /// pool still has a free permit.
    pub fn try_start(&mut self, i: usize) -> (r: bool)
        requires
            old(self).wf(),
            i < old(self).spec_units().len(),
            old(self).spec_units()[i as int] == UnitPhase::Pending,
        ensures
            final(self).wf(),
            final(self).spec_capacity() == old(self).spec_capacity(),
            r == (count_active(old(self).spec_units()) < old(self).spec_capacity()),
            r ==> final(self).spec_units() == old(self).spec_units().update(
                i as int,
                UnitPhase::Cloning,
            ),
            !r ==> final(self).spec_units() == old(self).spec_units(),
    {
        if self.pool.try_acquire() {
            proof {
                lemma_count_active_update(self.units@, i as int, UnitPhase::Cloning);
            }
            self.units[i] = UnitPhase::Cloning;
            true
        } else {
            false
        }
    }

    /// Record the clone subprocess's end for unit `i`: on success the unit
    /// moves on to analyzing and keeps its permit; on failure it is done and
    /// the permit goes back.
    pub fn finish_clone(&mut self, i: usize, outcome: Result<(), FailReason>)
        requires
            old(self).wf(),
            i < old(self).spec_units().len(),
            old(self).spec_units()[i as int] == UnitPhase::Cloning,
            outcome matches Err(r) ==> r == FailReason::CloneTimeout || r
                == FailReason::CloneFailed,
        ensures
            final(self).wf(),
            final(self).spec_capacity() == old(self).spec_capacity(),
            final(self).spec_units() == old(self).spec_units().update(
                i as int,
                match outcome {
                    Result::Ok(()) => UnitPhase::Analyzing,
                    Result::Err(r) => UnitPhase::Failed(r),
                },
            ),
    {
        match outcome {
            Ok(()) => {
                proof {
                    lemma_count_active_update(self.units@, i as int, UnitPhase::Analyzing);
                }
                self.units[i] = UnitPhase::Analyzing;
            },
            Err(r) => {
                proof {
                    lemma_count_active_update(self.units@, i as int, UnitPhase::Failed(r));
                    lemma_count_active_pos(self.units@, i as int);
                }
                self.units[i] = UnitPhase::Failed(r);
                self.pool.release();
            },
        }
    }

    /// Record the analyzer's end for unit `i`: it either succeeded or failed
    /// for the given reason; either way the unit is done and its permit goes
    /// back.
    pub fn finish_analyze(&mut self, i: usize, failure: Option<FailReason>)
        requires
            old(self).wf(),
            i < old(self).spec_units().len(),
            old(self).spec_units()[i as int] == UnitPhase::Analyzing,
            failure matches Some(r) ==> r == FailReason::AnalyzeTimeout || r
                == FailReason::AnalyzeFailed || r == FailReason::ParseFailed,
        ensures
            final(self).wf(),
            final(self).spec_capacity() == old(self).spec_capacity(),
            final(self).spec_units() == old(self).spec_units().update(
                i as int,
                match failure {
                    Option::None => UnitPhase::Succeeded,
                    Option::Some(r) => UnitPhase::Failed(r),
                },
            ),
    {
        proof {
            lemma_count_active_pos(self.units@, i as int);
        }
        match failure {
            None => {
                proof {
                    lemma_count_active_update(self.units@, i as int, UnitPhase::Succeeded);
                }
                self.units[i] = UnitPhase::Succeeded;
            },
            Some(r) => {
                proof {
                    lemma_count_active_update(self.units@, i as int, UnitPhase::Failed(r));
                }
                self.units[i] = UnitPhase::Failed(r);
            },
        }
        self.pool.release();
    }
}

/// The pool bound: however many units a run schedules and in whatever
/// order their events arrive, a well-formed run never has more units
/// cloning or analyzing at once than the pool's capacity.
pub proof fn lemma_pool_bound(b: BatchRun)
    requires
        b.wf(),
    ensures
        count_active(b.spec_units()) <= b.spec_capacity(),
{
}

} // verus!
