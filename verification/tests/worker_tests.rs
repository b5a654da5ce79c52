use vibereport::auth::check_bearer;
use vibereport::plan::fresh_workspace_dir;
use vibereport::plan::is_backfill;
use vibereport::plan::prepare_scan;
use vibereport::plan::repo_url_for_slug;
use vibereport::plan::resolve_scan_dates;
use vibereport::plan::DatePlanError;
use vibereport::plan::IndexScanRequest;
use vibereport::plan::ScanRequest;
use vibereport::plan::ScanRequestError;

#[test]
fn bearer_accepts_only_the_exact_header() {
    assert!(check_bearer("Bearer s3cret", "s3cret"));
    assert!(!check_bearer("Bearer s3cret ", "s3cret"));
    assert!(!check_bearer("Bearer s3cre", "s3cret"));
    assert!(!check_bearer("s3cret", "s3cret"));
    assert!(!check_bearer("", "s3cret"));
    assert!(!check_bearer("bearer s3cret", "s3cret"));
}

#[test]
fn scan_plan_fixes_url_and_cutoff() {
    let req = ScanRequest { repo: "user/repo".into(), since: Some("2025-03-01".into()) };
    let plan = prepare_scan(&req).unwrap();
    assert_eq!(plan.repo_url, "https://github.com/user/repo.git");
    assert_eq!(plan.since, "2025-03-01");
}

#[test]
fn scan_plan_defaults_the_cutoff() {
    let req = ScanRequest { repo: "https://github.com/user/repo".into(), since: None };
    let plan = prepare_scan(&req).unwrap();
    assert_eq!(plan.since, "2025-01-01");
    assert_eq!(plan.repo_url, "https://github.com/user/repo");
}

#[test]
fn scan_plan_rejects_bad_since() {
    let req = ScanRequest { repo: "user/repo".into(), since: Some("01-01-2025".into()) };
    assert!(matches!(prepare_scan(&req), Err(ScanRequestError::InvalidSince)));
}

#[test]
fn scan_plan_rejects_bad_references() {
    let req = ScanRequest { repo: "https://example.com/a/b".into(), since: None };
    assert!(matches!(prepare_scan(&req), Err(ScanRequestError::InvalidRepoUrl)));
    let req2 = ScanRequest { repo: "not a slug".into(), since: None };
    assert!(matches!(prepare_scan(&req2), Err(ScanRequestError::InvalidRepoSlug)));
}

fn index_req(
    scan_dates: Option<Vec<&str>>,
    from: Option<&str>,
    to: Option<&str>,
) -> IndexScanRequest {
    IndexScanRequest {
        scan_dates: scan_dates.map(|v| v.into_iter().map(String::from).collect()),
        from_date: from.map(String::from),
        to_date: to.map(String::from),
    }
}

#[test]
fn range_request_wins_and_expands() {
    let req = index_req(Some(vec!["2030-01-01"]), Some("2025-01-01"), Some("2025-01-03"));
    let dates = resolve_scan_dates(&req, "2025-06-01").unwrap();
    assert_eq!(dates, vec!["2025-01-01", "2025-01-02", "2025-01-03"]);
}

#[test]
fn range_request_rejects_bad_shapes_and_order() {
    let req = index_req(None, Some("2025-1-1"), Some("2025-01-03"));
    assert_eq!(resolve_scan_dates(&req, "2025-06-01"), Err(DatePlanError::BadRangeShape));
    let req2 = index_req(None, Some("2025-01-05"), Some("2025-01-03"));
    assert_eq!(resolve_scan_dates(&req2, "2025-06-01"), Err(DatePlanError::BadRange));
    let req3 = index_req(None, Some("2025-02-30"), Some("2025-03-01"));
    assert_eq!(resolve_scan_dates(&req3, "2025-06-01"), Err(DatePlanError::BadRange));
}

#[test]
fn explicit_dates_are_checked_and_kept() {
    let req = index_req(Some(vec!["2025-02-01", "2025-02-03"]), None, None);
    let dates = resolve_scan_dates(&req, "2025-06-01").unwrap();
    assert_eq!(dates, vec!["2025-02-01", "2025-02-03"]);

    let bad = index_req(Some(vec!["2025-02-01", "02/03"]), None, None);
    assert_eq!(
        resolve_scan_dates(&bad, "2025-06-01"),
        Err(DatePlanError::BadScanDate("02/03".into()))
    );
}

#[test]
fn absent_dates_mean_today() {
    let req = index_req(None, None, None);
    assert_eq!(resolve_scan_dates(&req, "2025-06-01").unwrap(), vec!["2025-06-01"]);
    let empty = index_req(Some(vec![]), None, None);
    assert_eq!(resolve_scan_dates(&empty, "2025-06-01").unwrap(), vec!["2025-06-01"]);
}

#[test]
fn backfill_needs_more_than_one_date() {
    assert!(!is_backfill(&vec!["2025-01-01".to_string()]));
    assert!(is_backfill(&vec!["2025-01-01".to_string(), "2025-01-02".to_string()]));
}

#[test]
fn slug_urls_have_the_clone_shape() {
    assert_eq!(repo_url_for_slug("user/repo"), "https://github.com/user/repo.git");
}

#[test]
fn workspace_dirs_are_prefixed_and_fresh() {
    let a = fresh_workspace_dir(true);
    let b = fresh_workspace_dir(true);
    assert!(a.starts_with("/tmp/vibereport-idx-"));
    assert_eq!(a.len(), "/tmp/vibereport-idx-".len() + 36);
    assert_ne!(a, b);
    let c = fresh_workspace_dir(false);
    assert!(c.starts_with("/tmp/vibereport-"));
    assert!(!c.starts_with("/tmp/vibereport-idx-"));
}
