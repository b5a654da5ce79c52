use vstd::prelude::*;

use crate::strings::spec_lex_le;
use crate::strings::str_lex_le;

verus! {

/// One calendar day's non-cumulative commit counts for one repository, as
/// the analyzer's daily breakdown reports them.
#[derive(Debug)]
pub struct DayEntry {
    /// The day, as a `YYYY-MM-DD` string; ISO date strings order the same
    /// way lexicographically as chronologically.
    pub date: String,
    /// Commits made on exactly that day.
    pub total: u64,
    /// Of those, commits attributed to AI assistance.
    pub ai: u64,
}

/// A repository's daily breakdown for one batch run, oldest entry first,
/// possibly sparse: days without commits may be missing.
#[derive(Debug)]
pub struct RepoDailyBreakdown {
    pub repo_slug: String,
    pub days: Vec<DayEntry>,
}

/// The per-repository summary posted to the aggregator for one scan date.
#[derive(Debug)]
pub struct RepoScanResult {
    pub repo_slug: String,
    pub total_commits: u64,
    pub ai_commits: u64,
}

/// The sum of `total` over the entries dated on or before `cutoff`.
pub open spec fn sum_total_through(days: Seq<DayEntry>, cutoff: Seq<char>) -> int
    decreases days.len(),
{
    if days.len() == 0 {
        0
    } else {
        sum_total_through(days.drop_last(), cutoff) + if spec_lex_le(days.last().date@, cutoff) {
            days.last().total as int
        } else {
            0
        }
    }
}

/// The sum of `ai` over the entries dated on or before `cutoff`.
pub open spec fn sum_ai_through(days: Seq<DayEntry>, cutoff: Seq<char>) -> int
    decreases days.len(),
{
    if days.len() == 0 {
        0
    } else {
        sum_ai_through(days.drop_last(), cutoff) + if spec_lex_le(days.last().date@, cutoff) {
            days.last().ai as int
        } else {
            0
        }
    }
}

/// Both through-sums are sums of non-negative terms.
proof fn lemma_sums_nonneg(days: Seq<DayEntry>, cutoff: Seq<char>)
    ensures
        sum_total_through(days, cutoff) >= 0,
        sum_ai_through(days, cutoff) >= 0,
    decreases days.len(),
{
    if days.len() > 0 {
        lemma_sums_nonneg(days.drop_last(), cutoff);
    }
}

/// A prefix never sums to more than the whole sequence.
proof fn lemma_sum_take_le(days: Seq<DayEntry>, cutoff: Seq<char>, i: int)
    requires
        0 <= i <= days.len(),
    ensures
        sum_total_through(days.take(i), cutoff) <= sum_total_through(days, cutoff),
        sum_ai_through(days.take(i), cutoff) <= sum_ai_through(days, cutoff),
    decreases days.len(),
{
    if i == days.len() {
        assert(days.take(i) =~= days);
    } else {
        lemma_sum_take_le(days.drop_last(), cutoff, i);
        assert(days.drop_last().take(i) =~= days.take(i));
    }
}

/// The cumulative totals of one repository as of `cutoff`, reconstructed
/// from its non-cumulative per-day deltas; nothing when a sum would not fit
/// in a 64-bit counter.
pub fn cumulative_counts(days: &Vec<DayEntry>, cutoff: &str) -> (r: Option<(u64, u64)>)
    ensures
        match r {
            Option::Some(p) => p.0 == sum_total_through(days@, cutoff@) && p.1 == sum_ai_through(
                days@,
                cutoff@,
            ),
            Option::None => sum_total_through(days@, cutoff@) > u64::MAX || sum_ai_through(
                days@,
                cutoff@,
            ) > u64::MAX,
        },
{
    let mut total: u64 = 0;
    let mut ai: u64 = 0;
    let n = days.len();
    let mut i: usize = 0;
    while i < n
        invariant
            n == days@.len(),
            i <= n,
            total == sum_total_through(days@.take(i as int), cutoff@),
            ai == sum_ai_through(days@.take(i as int), cutoff@),
        decreases n - i,
    {
        let entry = &days[i];
        proof {
            assert(days@.take(i + 1).drop_last() =~= days@.take(i as int));
            assert(days@.take(i + 1).last() == days@[i as int]);
        }
        if str_lex_le(entry.date.as_str(), cutoff) {
            if total > u64::MAX - entry.total {
                proof {
                    lemma_sum_take_le(days@, cutoff@, i + 1);
                    lemma_sums_nonneg(days@.take(i + 1).drop_last(), cutoff@);
                }
                return None;
            }
            total = total + entry.total;
            if ai > u64::MAX - entry.ai {
                proof {
                    lemma_sum_take_le(days@, cutoff@, i + 1);
                    lemma_sums_nonneg(days@.take(i + 1).drop_last(), cutoff@);
                }
                return None;
            }
            ai = ai + entry.ai;
        }
        i = i + 1;
    }
    proof {
        assert(days@.take(n as int) =~= days@);
    }
    Some((total, ai))
}

/// One scan date's result set: for each repository, in input order, its
/// cumulative `(slug, total, ai)` as of the cutoff — kept only when the
/// cumulative total is positive.
pub open spec fn spec_aggregate(bs: Seq<RepoDailyBreakdown>, cutoff: Seq<char>) -> Seq<
    (Seq<char>, int, int),
>
    decreases bs.len(),
{
    if bs.len() == 0 {
        Seq::empty()
    } else {
        let rest = spec_aggregate(bs.drop_last(), cutoff);
        let b = bs.last();
        if sum_total_through(b.days@, cutoff) > 0 {
            rest.push((b.repo_slug@, sum_total_through(b.days@, cutoff), sum_ai_through(
                b.days@,
                cutoff,
            )))
        } else {
            rest
        }
    }
}

/// The view of a result row as the triple the specification speaks of.
pub open spec fn result_view(r: RepoScanResult) -> (Seq<char>, int, int) {
    (r.repo_slug@, r.total_commits as int, r.ai_commits as int)
}

/// Build one scan date's result set from every repository's daily
/// breakdown: cumulative counts as of `date`, repositories with nothing to
/// report dropped. Nothing when a repository's counts overflow a 64-bit
/// counter.
pub fn aggregate_for_date(bs: &Vec<RepoDailyBreakdown>, date: &str) -> (r: Option<
    Vec<RepoScanResult>,
>)
    ensures
        match r {
            Option::Some(v) => {
                &&& v@.map(|i: int, x: RepoScanResult| result_view(x)) == spec_aggregate(
                    bs@,
                    date@,
                )
                &&& forall|j: int| 0 <= j < v@.len() ==> (#[trigger] v@[j]).total_commits > 0
            },
            Option::None => exists|j: int|
                0 <= j < bs@.len() && (sum_total_through(#[trigger] bs@[j].days@, date@)
                    > u64::MAX || sum_ai_through(bs@[j].days@, date@) > u64::MAX),
        },
{
    let n = bs.len();
    let mut v: Vec<RepoScanResult> = Vec::new();
    let mut i: usize = 0;
    while i < n
        invariant
            n == bs@.len(),
            i <= n,
            v@.map(|t: int, x: RepoScanResult| result_view(x)) == spec_aggregate(
                bs@.take(i as int),
                date@,
            ),
            forall|j: int| 0 <= j < v@.len() ==> (#[trigger] v@[j]).total_commits > 0,
        decreases n - i,
    {
        let b = &bs[i];
        proof {
            assert(bs@.take(i + 1).drop_last() =~= bs@.take(i as int));
            assert(bs@.take(i + 1).last() == bs@[i as int]);
        }
        match cumulative_counts(&b.days, date) {
            Some(p) => {
                let (total, ai) = p;
                if total > 0 {
                    let ghost old_view = v@.map(|t: int, x: RepoScanResult| result_view(x));
                    v.push(
                        RepoScanResult {
                            repo_slug: b.repo_slug.clone(),
                            total_commits: total,
                            ai_commits: ai,
                        },
                    );
                    proof {
                        assert(v@.map(|t: int, x: RepoScanResult| result_view(x)) =~= old_view.push(
                            (bs@[i as int].repo_slug@, sum_total_through(
                                bs@[i as int].days@,
                                date@,
                            ), sum_ai_through(bs@[i as int].days@, date@)),
                        ));
                    }
                }
            },
            None => {
                return None;
            },
        }
        i = i + 1;
    }
    proof {
        assert(bs@.take(n as int) =~= bs@);
    }
    Some(v)
}

/// One result set per target date, each paired with its date, dates in
/// request order: the whole backfill publication plan. Nothing when some
/// date's counts overflow a 64-bit counter.
pub fn plan_publications(bs: &Vec<RepoDailyBreakdown>, dates: &Vec<String>) -> (r: Option<
    Vec<(String, Vec<RepoScanResult>)>,
>)
    ensures
        match r {
            Option::Some(v) => {
                &&& v@.len() == dates@.len()
                &&& forall|i: int|
                    0 <= i < v@.len() ==> {
                        &&& (#[trigger] v@[i]).0@ == dates@[i]@
                        &&& v@[i].1@.map(|t: int, x: RepoScanResult| result_view(x))
                            == spec_aggregate(bs@, dates@[i]@)
                    }
            },
            Option::None => exists|i: int, j: int|
                0 <= i < dates@.len() && 0 <= j < bs@.len() && (sum_total_through(
                    #[trigger] bs@[j].days@,
                    #[trigger] dates@[i]@,
                ) > u64::MAX || sum_ai_through(bs@[j].days@, dates@[i]@) > u64::MAX),
        },
{
    let n = dates.len();
    let mut v: Vec<(String, Vec<RepoScanResult>)> = Vec::new();
    let mut i: usize = 0;
    while i < n
        invariant
            n == dates@.len(),
            i <= n,
            v@.len() == i,
            forall|k: int|
                0 <= k < i ==> {
                    &&& (#[trigger] v@[k]).0@ == dates@[k]@
                    &&& v@[k].1@.map(|t: int, x: RepoScanResult| result_view(x)) == spec_aggregate(
                        bs@,
                        dates@[k]@,
                    )
                },
        decreases n - i,
    {
        let date = &dates[i];
        match aggregate_for_date(bs, date.as_str()) {
            Some(rows) => {
                v.push((date.clone(), rows));
            },
            None => {
                return None;
            },
        }
        i = i + 1;
    }
    Some(v)
}

/// The aggregation is a function of its input alone: two runs of the
/// Backfill Aggregator over the same daily breakdowns and the same target
/// date yield identical result sets.
pub proof fn lemma_aggregate_idempotent(
    bs: Seq<RepoDailyBreakdown>,
    cutoff: Seq<char>,
    r1: Seq<(Seq<char>, int, int)>,
    r2: Seq<(Seq<char>, int, int)>,
)
    requires
        r1 == spec_aggregate(bs, cutoff),
        r2 == spec_aggregate(bs, cutoff),
    ensures
        r1 == r2,
{
}

/// A repository whose entries sum to nothing by the cutoff never appears in
/// that date's result set: every row of the aggregate carries a positive
/// cumulative total.
pub proof fn lemma_zero_total_excluded(bs: Seq<RepoDailyBreakdown>, cutoff: Seq<char>)
    ensures
        forall|t: int|
            0 <= t < spec_aggregate(bs, cutoff).len() ==> (#[trigger] spec_aggregate(
                bs,
                cutoff,
            )[t]).1 > 0,
    decreases bs.len(),
{
    if bs.len() > 0 {
        lemma_zero_total_excluded(bs.drop_last(), cutoff);
        let agg = spec_aggregate(bs, cutoff);
        let rest = spec_aggregate(bs.drop_last(), cutoff);
        assert forall|t: int| 0 <= t < agg.len() implies agg[t].1 > 0 by {
            if t < rest.len() {
                assert(agg[t] == rest[t]);
            }
        }
    }
}

/// Every row of the aggregate comes from some input repository: its slug,
/// and its sums as of the cutoff.
pub proof fn lemma_rows_from_input(bs: Seq<RepoDailyBreakdown>, cutoff: Seq<char>)
    ensures
        forall|t: int|
            0 <= t < spec_aggregate(bs, cutoff).len() ==> exists|j: int|
                0 <= j < bs.len() && (#[trigger] spec_aggregate(bs, cutoff)[t]) == (bs[j].repo_slug@,
                sum_total_through(bs[j].days@, cutoff), sum_ai_through(bs[j].days@, cutoff)),
    decreases bs.len(),
{
    if bs.len() > 0 {
        lemma_rows_from_input(bs.drop_last(), cutoff);
        assert forall|t: int| 0 <= t < spec_aggregate(bs, cutoff).len() implies exists|j: int|
            0 <= j < bs.len() && (#[trigger] spec_aggregate(bs, cutoff)[t]) == (bs[j].repo_slug@,
            sum_total_through(bs[j].days@, cutoff), sum_ai_through(bs[j].days@, cutoff)) by {
            let agg = spec_aggregate(bs, cutoff);
            let rest = spec_aggregate(bs.drop_last(), cutoff);
            if t < rest.len() {
                let j = choose|j: int|
                    0 <= j < bs.drop_last().len() && rest[t] == (bs.drop_last()[j].repo_slug@,
                    sum_total_through(bs.drop_last()[j].days@, cutoff), sum_ai_through(
                        bs.drop_last()[j].days@,
                        cutoff,
                    ));
                assert(bs.drop_last()[j] == bs[j]);
                assert(agg[t] == rest[t]);
            } else {
                assert(agg[t] == (bs[bs.len() - 1].repo_slug@, sum_total_through(
                    bs[bs.len() - 1].days@,
                    cutoff,
                ), sum_ai_through(bs[bs.len() - 1].days@, cutoff)));
            }
        }
    }
}

} // verus!
