use vibereport::aggregate::aggregate_for_date;
use vibereport::aggregate::cumulative_counts;
use vibereport::aggregate::plan_publications;
use vibereport::aggregate::DayEntry;
use vibereport::aggregate::RepoDailyBreakdown;

fn day(date: &str, total: u64, ai: u64) -> DayEntry {
    DayEntry { date: date.to_string(), total, ai }
}

fn breakdown(slug: &str, days: Vec<DayEntry>) -> RepoDailyBreakdown {
    RepoDailyBreakdown { repo_slug: slug.to_string(), days }
}

#[test]
fn cumulative_sums_entries_up_to_the_cutoff() {
    let days = vec![day("2025-01-01", 2, 1), day("2025-01-03", 1, 1)];
    assert_eq!(cumulative_counts(&days, "2025-01-01"), Some((2, 1)));
    assert_eq!(cumulative_counts(&days, "2025-01-02"), Some((2, 1)));
    assert_eq!(cumulative_counts(&days, "2025-01-03"), Some((3, 2)));
    assert_eq!(cumulative_counts(&days, "2024-12-31"), Some((0, 0)));
}

#[test]
fn cumulative_reports_overflow() {
    let days = vec![day("2025-01-01", u64::MAX, 0), day("2025-01-02", 1, 0)];
    assert_eq!(cumulative_counts(&days, "2025-01-02"), None);
    // Entries past the cutoff cannot overflow the sum.
    assert_eq!(cumulative_counts(&days, "2025-01-01"), Some((u64::MAX, 0)));
}

#[test]
fn aggregate_drops_zero_total_repos() {
    let bs = vec![
        breakdown("org/full", vec![day("2025-01-01", 2, 1)]),
        breakdown("org/empty", vec![]),
        breakdown("org/later", vec![day("2025-02-01", 5, 0)]),
    ];
    let rows = aggregate_for_date(&bs, "2025-01-15").unwrap();
    assert_eq!(rows.len(), 1);
    assert_eq!(rows[0].repo_slug, "org/full");
    assert_eq!(rows[0].total_commits, 2);
    assert_eq!(rows[0].ai_commits, 1);
}

#[test]
fn aggregate_twice_gives_identical_results() {
    let bs = vec![
        breakdown("a/a", vec![day("2025-01-01", 1, 0), day("2025-01-02", 2, 2)]),
        breakdown("b/b", vec![day("2025-01-02", 4, 1)]),
    ];
    let once = aggregate_for_date(&bs, "2025-01-02").unwrap();
    let twice = aggregate_for_date(&bs, "2025-01-02").unwrap();
    assert_eq!(once.len(), twice.len());
    for (x, y) in once.iter().zip(twice.iter()) {
        assert_eq!(x.repo_slug, y.repo_slug);
        assert_eq!(x.total_commits, y.total_commits);
        assert_eq!(x.ai_commits, y.ai_commits);
    }
}

#[test]
fn backfill_three_dates_two_repos() {
    // One repository with two sparse day entries, one with none.
    let bs = vec![
        breakdown("org/busy", vec![day("2025-01-01", 2, 1), day("2025-01-03", 1, 1)]),
        breakdown("org/idle", vec![]),
    ];

    let d1 = aggregate_for_date(&bs, "2025-01-01").unwrap();
    assert_eq!(d1.len(), 1);
    assert_eq!(d1[0].repo_slug, "org/busy");
    assert_eq!((d1[0].total_commits, d1[0].ai_commits), (2, 1));

    // A date with no new entries carries the prior cumulative value forward.
    let d2 = aggregate_for_date(&bs, "2025-01-02").unwrap();
    assert_eq!(d2.len(), 1);
    assert_eq!((d2[0].total_commits, d2[0].ai_commits), (2, 1));

    let d3 = aggregate_for_date(&bs, "2025-01-03").unwrap();
    assert_eq!(d3.len(), 1);
    assert_eq!((d3[0].total_commits, d3[0].ai_commits), (3, 2));

    // The idle repository appears in no date's result set.
    for rows in [&d1, &d2, &d3] {
        assert!(rows.iter().all(|r| r.repo_slug != "org/idle"));
    }
}

#[test]
fn aggregate_keeps_input_order() {
    let bs = vec![
        breakdown("z/z", vec![day("2025-01-01", 1, 0)]),
        breakdown("a/a", vec![day("2025-01-01", 1, 0)]),
    ];
    let rows = aggregate_for_date(&bs, "2025-01-01").unwrap();
    assert_eq!(rows[0].repo_slug, "z/z");
    assert_eq!(rows[1].repo_slug, "a/a");
}

#[test]
fn publication_plan_pairs_each_date_with_its_rows() {
    let bs = vec![
        breakdown("org/busy", vec![day("2025-01-01", 2, 1), day("2025-01-03", 1, 1)]),
        breakdown("org/idle", vec![]),
    ];
    let dates = vec![
        "2025-01-01".to_string(),
        "2025-01-02".to_string(),
        "2025-01-03".to_string(),
    ];
    let plan = plan_publications(&bs, &dates).unwrap();
    assert_eq!(plan.len(), 3);
    assert_eq!(plan[0].0, "2025-01-01");
    assert_eq!((plan[0].1[0].total_commits, plan[0].1[0].ai_commits), (2, 1));
    assert_eq!(plan[1].0, "2025-01-02");
    assert_eq!((plan[1].1[0].total_commits, plan[1].1[0].ai_commits), (2, 1));
    assert_eq!(plan[2].0, "2025-01-03");
    assert_eq!((plan[2].1[0].total_commits, plan[2].1[0].ai_commits), (3, 2));
    for (_, rows) in &plan {
        assert!(rows.iter().all(|r| r.repo_slug == "org/busy"));
    }
}
