use vibereport::grade_from_points;
use vibereport::languages::LanguageStats;
use vibereport::project::DepsInfo;
use vibereport::project::ProjectStats;
use vibereport::score::calculate;
use vibereport::security::SecurityInfo;
use vibereport::tests_detect::TestsInfo;
use vibereport::vibe::VibeInfo;

// The AI-ratio points the original derives from the commit history: the
// ratio scaled to sixty points.
fn ai_pts_for_ratio_percent(percent: u32) -> u32 {
    percent * 60 / 100
}

fn quiet_vibe() -> VibeInfo {
    VibeInfo {
        no_linting: false,
        no_ci_cd: false,
        boomer_ai: false,
        node_modules_in_git: false,
        no_gitignore: false,
        no_readme: false,
        todo_flood: false,
        todo_count: 0,
        single_branch: false,
        mega_commit: false,
    }
}

fn clean_security() -> SecurityInfo {
    SecurityInfo {
        env_in_git: false,
        has_env_example: false,
        hardcoded_secrets_hints: 0,
        env_files_count: 0,
    }
}

fn mock_project_stats(deps: usize, has_tests: bool) -> ProjectStats {
    ProjectStats {
        deps: DepsInfo { total: deps, manager: "npm".into() },
        tests: TestsInfo {
            has_tests,
            test_files_count: if has_tests { 10 } else { 0 },
            frameworks: vec![],
        },
        languages: LanguageStats { languages: Vec::new(), total_lines: 5000 },
        security: clean_security(),
        vibe: quiet_vibe(),
    }
}

#[test]
fn high_ai_no_tests_high_score() {
    let ai = ai_pts_for_ratio_percent(90);
    let proj = mock_project_stats(200, false);
    let (points, _, _) = calculate(ai, &proj);
    assert!(points >= 70, "Expected high score, got {}", points);
}

#[test]
fn zero_ai_with_tests_low_score() {
    let ai = ai_pts_for_ratio_percent(0);
    let proj = mock_project_stats(5, true);
    let (points, _, _) = calculate(ai, &proj);
    assert!(points <= 30, "Expected low score, got {}", points);
}

#[test]
fn score_can_exceed_100() {
    let ai = ai_pts_for_ratio_percent(100);
    let mut proj = mock_project_stats(500, false);
    proj.security.env_in_git = true;
    proj.security.env_files_count = 4;
    proj.security.hardcoded_secrets_hints = 5;
    proj.languages.total_lines = 50000;
    let (points, grade, _) = calculate(ai, &proj);
    assert!(points > 100, "Expected score > 100 for peak chaos, got {}", points);
    assert_eq!(grade, "S+");
}

#[test]
fn grade_matches_points() {
    let ai = ai_pts_for_ratio_percent(50);
    let proj = mock_project_stats(50, true);
    let (points, grade, _) = calculate(ai, &proj);
    let expected_grade = grade_from_points(points);
    assert_eq!(grade, expected_grade);
}

#[test]
fn env_files_add_security_points() {
    let ai = ai_pts_for_ratio_percent(50);
    let mut proj = mock_project_stats(10, true);
    let (score_clean, _, _) = calculate(ai, &proj);

    proj.security.env_in_git = true;
    proj.security.env_files_count = 3;
    let (score_dirty, _, _) = calculate(ai, &proj);

    assert!(
        score_dirty > score_clean,
        "Env files should add points: {} vs {}",
        score_dirty,
        score_clean
    );
}

#[test]
fn breakdown_lists_contributing_factors_in_order() {
    let mut proj = mock_project_stats(200, false);
    proj.vibe.no_readme = true;
    let (points, _, breakdown) = calculate(12, &proj);
    let rows: Vec<(&str, u32)> = breakdown.iter().map(|f| (f.label.as_str(), f.points)).collect();
    assert_eq!(
        rows,
        vec![("AI Ratio", 12), ("No Tests", 20), ("Deps Bloat", 10), ("No README", 10)]
    );
    assert_eq!(points, 12 + 20 + 10 + 10);
}
