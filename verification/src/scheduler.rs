use vstd::prelude::*;

use crate::aggregate::DayEntry;
use crate::aggregate::RepoDailyBreakdown;
use crate::aggregate::RepoScanResult;

verus! {

/// What the analyzer reports for one repository: cumulative totals since
/// the scan cutoff, and the per-day breakdown when one was requested.
#[derive(Debug)]
pub struct AnalyzerReport {
    pub total_commits: u64,
    pub ai_commits: u64,
    pub daily_commits: Vec<DayEntry>,
}

/// One repository's fate in a scheduling pass: its slug, and the report
/// when the unit succeeded.
#[derive(Debug)]
pub struct ScanOutcome {
    pub slug: String,
    pub report: Option<AnalyzerReport>,
}

/// A repository that was scanned successfully, with its report.
#[derive(Debug)]
pub struct ScanSuccess {
    pub slug: String,
    pub report: AnalyzerReport,
}

/// The successes of a pass, in order.
pub open spec fn spec_successes(s: Seq<ScanOutcome>) -> Seq<ScanSuccess>
    decreases s.len(),
{
    if s.len() == 0 {
        Seq::empty()
    } else {
        let rest = spec_successes(s.drop_last());
        match s.last().report {
            Option::Some(rep) => rest.push(ScanSuccess { slug: s.last().slug, report: rep }),
            Option::None => rest,
        }
    }
}

/// The slugs that failed a pass, in order.
pub open spec fn spec_failures(s: Seq<ScanOutcome>) -> Seq<String>
    decreases s.len(),
{
    if s.len() == 0 {
        Seq::empty()
    } else {
        let rest = spec_failures(s.drop_last());
        match s.last().report {
            Option::Some(rep) => rest,
            Option::None => rest.push(s.last().slug),
        }
    }
}

/// Split a pass's outcomes into the repositories that yielded a report and
/// the slugs that must be retried, each list keeping the pass's order.
pub fn partition_outcomes(outcomes: Vec<ScanOutcome>) -> (r: (Vec<ScanSuccess>, Vec<String>))
    ensures
        r.0@ == spec_successes(outcomes@),
        r.1@ == spec_failures(outcomes@),
{
    let ghost all = outcomes@;
    let mut rest = outcomes;
    let mut succ: Vec<ScanSuccess> = Vec::new();
    let mut fail: Vec<String> = Vec::new();
    let ghost mut seen: int = 0;
    while rest.len() > 0
        invariant
            0 <= seen <= all.len(),
            rest@ =~= all.skip(seen),
            succ@ == spec_successes(all.take(seen)),
            fail@ == spec_failures(all.take(seen)),
        decreases rest@.len(),
    {
        let o = rest.remove(0);
        proof {
            assert(o == all[seen]);
            assert(all.take(seen + 1).drop_last() =~= all.take(seen));
            assert(all.take(seen + 1).last() == all[seen]);
        }
        match o.report {
            Some(rep) => {
                succ.push(ScanSuccess { slug: o.slug, report: rep });
            },
            None => {
                fail.push(o.slug);
            },
        }
        proof {
            assert(rest@ =~= all.skip(seen + 1));
            seen = seen + 1;
        }
    }
    proof {
        assert(all.take(seen) =~= all);
    }
    (succ, fail)
}

/// Merge the retry pass's recoveries into the first pass's successes: the
/// final set is the first pass's successes followed by everything the
/// retry recovered, and nothing else. Repositories still failing after the
/// retry appear in neither list and are dropped from the run.
pub fn merge_retries(pass1: Vec<ScanSuccess>, retried: Vec<ScanSuccess>) -> (r: Vec<ScanSuccess>)
    ensures
        r@ == pass1@ + retried@,
{
    let mut r = pass1;
    let mut rest = retried;
    r.append(&mut rest);
    r
}

/// The retry policy per unit, as a little state machine: a unit that fails
/// the first pass is retried once; afterwards it has either recovered or
/// failed for good.
#[derive(Debug, Clone, Copy, PartialEq, Eq, Structural)]
pub enum UnitProgress {
    /// No pass has run for this unit yet.
    NotAttempted,
    /// The first pass succeeded; the unit is in the result set.
    Succeeded,
    /// The first pass failed; the unit is eligible for exactly one retry.
    FailedPass1,
    /// The retry succeeded; the unit is in the result set after all.
    Recovered,
    /// Both passes failed; the unit is dropped from this run.
    PermanentlyFailed,
}

/// Whether a unit in this state contributes to the published result set.
pub open spec fn in_final_set(p: UnitProgress) -> bool {
    p is Succeeded || p is Recovered
}

/// Advance a unit's state after the first pass.
pub fn after_pass1(ok: bool) -> (r: UnitProgress)
    ensures
        r == if ok {
            UnitProgress::Succeeded
        } else {
            UnitProgress::FailedPass1
        },
        in_final_set(r) == ok,
{
    if ok {
        UnitProgress::Succeeded
    } else {
        UnitProgress::FailedPass1
    }
}

/// Advance a unit's state after the retry pass; only a unit that failed the
/// first pass is retried.
pub fn after_pass2(p: UnitProgress, ok: bool) -> (r: UnitProgress)
    requires
        p == UnitProgress::FailedPass1,
    ensures
        r == if ok {
            UnitProgress::Recovered
        } else {
            UnitProgress::PermanentlyFailed
        },
        in_final_set(r) == ok,
{
    if ok {
        UnitProgress::Recovered
    } else {
        UnitProgress::PermanentlyFailed
    }
}

/// A unit ends in the final result set exactly when some pass succeeded
/// for it: the first pass, or — only after a first-pass failure — the
/// retry. `ok1` and `ok2` are the unit's outcomes in the two passes.
pub proof fn lemma_two_pass_membership(ok1: bool, ok2: bool)
    ensures
        in_final_set(
            if ok1 {
                UnitProgress::Succeeded
            } else if ok2 {
                UnitProgress::Recovered
            } else {
                UnitProgress::PermanentlyFailed
            },
        ) == (ok1 || ok2),
{
}

/// The clone and analyze deadlines, in seconds, for a pass: the retry pass
/// doubles both.
pub fn pass_timeouts(retry: bool) -> (r: (u64, u64))
    ensures
        !retry ==> r == (120u64, 60u64),
        retry ==> r == (240u64, 120u64),
{
    if retry {
        (240, 120)
    } else {
        (120, 60)
    }
}

/// The single-date result rows: one per scanned repository, in order,
/// carrying the analyzer's already-cumulative totals unchanged.
pub open spec fn spec_direct_results(s: Seq<ScanSuccess>) -> Seq<RepoScanResult>
    decreases s.len(),
{
    if s.len() == 0 {
        Seq::empty()
    } else {
        spec_direct_results(s.drop_last()).push(
            RepoScanResult {
                repo_slug: s.last().slug,
                total_commits: s.last().report.total_commits,
                ai_commits: s.last().report.ai_commits,
            },
        )
    }
}

/// Build the single-date result set from the scanned repositories, using
/// each report's cumulative totals directly: a single-date scan needs no
/// delta summation.
pub fn direct_results(scanned: &Vec<ScanSuccess>) -> (r: Vec<RepoScanResult>)
    ensures
        r@ == spec_direct_results(scanned@),
        r@.len() == scanned@.len(),
{
    let n = scanned.len();
    let mut r: Vec<RepoScanResult> = Vec::new();
    let mut i: usize = 0;
    while i < n
        invariant
            n == scanned@.len(),
            i <= n,
            r@ == spec_direct_results(scanned@.take(i as int)),
            r@.len() == i,
        decreases n - i,
    {
        let s = &scanned[i];
        r.push(
            RepoScanResult {
                repo_slug: s.slug.clone(),
                total_commits: s.report.total_commits,
                ai_commits: s.report.ai_commits,
            },
        );
        proof {
            assert(scanned@.take(i + 1).drop_last() =~= scanned@.take(i as int));
            assert(scanned@.take(i + 1).last() == scanned@[i as int]);
        }
        i = i + 1;
    }
    proof {
        assert(scanned@.take(n as int) =~= scanned@);
    }
    r
}

fn clone_days(days: &Vec<DayEntry>) -> (r: Vec<DayEntry>)
    ensures
        r@ =~= days@,
{
    let n = days.len();
    let mut r: Vec<DayEntry> = Vec::new();
    let mut i: usize = 0;
    while i < n
        invariant
            n == days@.len(),
            i <= n,
            r@ =~= days@.take(i as int),
        decreases n - i,
    {
        let d = &days[i];
        r.push(DayEntry { date: d.date.clone(), total: d.total, ai: d.ai });
        proof {
            assert(days@[i as int] == (DayEntry {
                date: days@[i as int].date,
                total: days@[i as int].total,
                ai: days@[i as int].ai,
            }));
        }
        i = i + 1;
    }
    proof {
        assert(days@.take(n as int) =~= days@);
    }
    r
}

/// Collect each scanned repository's daily breakdown for the Backfill
/// Aggregator.
pub fn breakdowns_of(scanned: &Vec<ScanSuccess>) -> (r: Vec<RepoDailyBreakdown>)
    ensures
        r@.len() == scanned@.len(),
        forall|i: int|
            0 <= i < r@.len() ==> (#[trigger] r@[i]).repo_slug == scanned@[i].slug && r@[i].days@
                == scanned@[i].report.daily_commits@,
{
    let n = scanned.len();
    let mut r: Vec<RepoDailyBreakdown> = Vec::new();
    let mut i: usize = 0;
    while i < n
        invariant
            n == scanned@.len(),
            i <= n,
            r@.len() == i,
            forall|j: int|
                0 <= j < i ==> (#[trigger] r@[j]).repo_slug == scanned@[j].slug && r@[j].days@
                    == scanned@[j].report.daily_commits@,
        decreases n - i,
    {
        let s = &scanned[i];
        let days = clone_days(&s.report.daily_commits);
        r.push(RepoDailyBreakdown { repo_slug: s.slug.clone(), days });
        i = i + 1;
    }
    r
}

} // verus!
