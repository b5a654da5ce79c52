use vibereport::aggregate::DayEntry;
use vibereport::scheduler::after_pass1;
use vibereport::scheduler::after_pass2;
use vibereport::scheduler::breakdowns_of;
use vibereport::scheduler::direct_results;
use vibereport::scheduler::merge_retries;
use vibereport::scheduler::partition_outcomes;
use vibereport::scheduler::pass_timeouts;
use vibereport::scheduler::AnalyzerReport;
use vibereport::scheduler::ScanOutcome;
use vibereport::scheduler::ScanSuccess;
use vibereport::scheduler::UnitProgress;

fn report(total: u64, ai: u64) -> AnalyzerReport {
    AnalyzerReport { total_commits: total, ai_commits: ai, daily_commits: Vec::new() }
}

#[test]
fn partition_splits_successes_and_failures() {
    let outcomes = vec![
        ScanOutcome { slug: "a/a".into(), report: None },
        ScanOutcome { slug: "b/b".into(), report: Some(report(5, 2)) },
        ScanOutcome { slug: "c/c".into(), report: None },
    ];
    let (succ, fail) = partition_outcomes(outcomes);
    assert_eq!(succ.len(), 1);
    assert_eq!(succ[0].slug, "b/b");
    assert_eq!(fail, vec!["a/a".to_string(), "c/c".to_string()]);
}

#[test]
fn two_pass_retry_keeps_recoveries_and_drops_the_rest() {
    // Pass 1: A and C fail, B succeeds.
    let pass1 = vec![
        ScanOutcome { slug: "org/a".into(), report: None },
        ScanOutcome { slug: "org/b".into(), report: Some(report(10, 3)) },
        ScanOutcome { slug: "org/c".into(), report: None },
    ];
    let (succ1, failed) = partition_outcomes(pass1);
    assert_eq!(failed, vec!["org/a".to_string(), "org/c".to_string()]);

    // Pass 2 retries exactly the failures: A fails again, C recovers.
    let pass2 = vec![
        ScanOutcome { slug: "org/a".into(), report: None },
        ScanOutcome { slug: "org/c".into(), report: Some(report(7, 1)) },
    ];
    let (succ2, failed2) = partition_outcomes(pass2);
    assert_eq!(failed2, vec!["org/a".to_string()]);

    let final_set = merge_retries(succ1, succ2);
    let slugs: Vec<&str> = final_set.iter().map(|s| s.slug.as_str()).collect();
    assert_eq!(slugs, vec!["org/b", "org/c"]);
    assert!(slugs.iter().all(|s| *s != "org/a"));
}

#[test]
fn unit_progress_follows_the_retry_policy() {
    assert_eq!(after_pass1(true), UnitProgress::Succeeded);
    let failed = after_pass1(false);
    assert_eq!(failed, UnitProgress::FailedPass1);
    assert_eq!(after_pass2(failed, true), UnitProgress::Recovered);
    assert_eq!(after_pass2(failed, false), UnitProgress::PermanentlyFailed);
}

#[test]
fn retry_doubles_the_timeouts() {
    assert_eq!(pass_timeouts(false), (120, 60));
    assert_eq!(pass_timeouts(true), (240, 120));
}

#[test]
fn direct_results_carry_totals_unchanged() {
    let scanned = vec![
        ScanSuccess { slug: "a/a".into(), report: report(4, 2) },
        ScanSuccess { slug: "b/b".into(), report: report(0, 0) },
    ];
    let rows = direct_results(&scanned);
    assert_eq!(rows.len(), 2);
    assert_eq!(rows[0].repo_slug, "a/a");
    assert_eq!((rows[0].total_commits, rows[0].ai_commits), (4, 2));
    assert_eq!((rows[1].total_commits, rows[1].ai_commits), (0, 0));
}

#[test]
fn breakdowns_pair_slugs_with_their_days() {
    let scanned = vec![ScanSuccess {
        slug: "a/a".into(),
        report: AnalyzerReport {
            total_commits: 3,
            ai_commits: 1,
            daily_commits: vec![DayEntry { date: "2025-01-01".into(), total: 3, ai: 1 }],
        },
    }];
    let bs = breakdowns_of(&scanned);
    assert_eq!(bs.len(), 1);
    assert_eq!(bs[0].repo_slug, "a/a");
    assert_eq!(bs[0].days.len(), 1);
    assert_eq!(bs[0].days[0].date, "2025-01-01");
    assert_eq!(bs[0].days[0].total, 3);
}
