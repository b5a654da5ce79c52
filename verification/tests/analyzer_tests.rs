use vibereport::grade_from_points;
use vibereport::languages::count_languages;
use vibereport::languages::detect_language;
use vibereport::languages::SourceFile;
use vibereport::render_text::display_width;
use vibereport::render_text::emoji_for_grade;
use vibereport::render_text::fmt_num;
use vibereport::security::check_security;
use vibereport::security::env_pattern_names;
use vibereport::security::is_ignored_by;
use vibereport::security::secret_scan_candidates;
use vibereport::tests_detect::detect_tests;
use vibereport::tests_detect::rs_file_has_inline_tests;
use vibereport::tests_detect::TestsObservation;
use vibereport::vibe::check_gitignore;
use vibereport::vibe::contains_todo_word;
use vibereport::vibe::count_todos;
use vibereport::vibe::has_todo_keyword;

#[test]
fn s_plus_grade_above_100() {
    assert_eq!(grade_from_points(101), "S+");
    assert_eq!(grade_from_points(120), "S+");
    assert_eq!(grade_from_points(100), "S");
    assert_eq!(grade_from_points(90), "S");
}

#[test]
fn grade_covers_every_band() {
    assert_eq!(grade_from_points(80), "A+");
    assert_eq!(grade_from_points(70), "A");
    assert_eq!(grade_from_points(60), "B+");
    assert_eq!(grade_from_points(50), "B");
    assert_eq!(grade_from_points(40), "C+");
    assert_eq!(grade_from_points(30), "C");
    assert_eq!(grade_from_points(20), "D");
    assert_eq!(grade_from_points(19), "F");
    assert_eq!(grade_from_points(0), "F");
}

#[test]
fn detects_language_from_extension() {
    assert_eq!(detect_language("app.tsx"), Some("TypeScript".to_string()));
    assert_eq!(detect_language("main.py"), Some("Python".to_string()));
    assert_eq!(detect_language("server.go"), Some("Go".to_string()));
    assert_eq!(detect_language("readme.md"), None);
    assert_eq!(detect_language("Makefile"), None);
}

#[test]
fn counts_languages_across_files() {
    let files = vec![
        SourceFile { name: "main.rs".into(), lines: 3 },
        SourceFile { name: "lib.rs".into(), lines: 3 },
        SourceFile { name: "app.ts".into(), lines: 2 },
        SourceFile { name: "style.css".into(), lines: 1 },
        SourceFile { name: "notes.md".into(), lines: 99 },
    ];
    let stats = count_languages(&files);
    assert_eq!(stats.total_lines, 9);
    assert_eq!(
        stats.languages,
        vec![
            ("Rust".to_string(), 6usize),
            ("TypeScript".to_string(), 2usize),
            ("CSS".to_string(), 1usize),
        ]
    );
}

#[test]
fn todo_keyword_word_boundary() {
    // Real TODO comments
    assert!(has_todo_keyword("// TODO: fix this"));
    assert!(has_todo_keyword("# FIXME broken"));
    assert!(has_todo_keyword("/* HACK */"));
    assert!(has_todo_keyword("TODO"));
    // Not part of identifiers
    assert!(!has_todo_keyword("let todo_count = 5;"));
    assert!(!has_todo_keyword("count_todos_recursive(path)"));
    assert!(!has_todo_keyword("pub todo_flood: bool"));
}

#[test]
fn todo_keyword_folds_case() {
    // The lowercase marker only matches because the text is uppercased
    // before the word search.
    assert!(has_todo_keyword("// todo: later"));
    assert!(has_todo_keyword("# fixme"));
    assert!(!contains_todo_word("// todo: later"));
}

#[test]
fn counts_todo_lines_in_content() {
    let content = "fn main() {\n// TODO: one\nlet todo_count = 5;\n# fixme two\n";
    assert_eq!(count_todos(content), 2);
    assert_eq!(count_todos(""), 0);
}

#[test]
fn fmt_num_works() {
    assert_eq!(fmt_num(0), "0");
    assert_eq!(fmt_num(500), "500");
    assert_eq!(fmt_num(1000), "1.0K");
    assert_eq!(fmt_num(1500), "1.5K");
    assert_eq!(fmt_num(10000), "10.0K");
    assert_eq!(fmt_num(1_500_000), "1.5M");
}

#[test]
fn emoji_for_every_grade() {
    for g in &["S+", "S", "A+", "A", "B+", "B", "C+", "C", "D", "F"] {
        assert!(!emoji_for_grade(g).is_empty());
    }
}

#[test]
fn display_width_ascii() {
    assert_eq!(display_width("hello"), 5);
    assert_eq!(display_width(""), 0);
    assert_eq!(display_width("  "), 2);
}

#[test]
fn display_width_box_drawing() {
    assert_eq!(display_width("\u{2500}"), 1); // ─
    assert_eq!(display_width("\u{256D}"), 1); // ╭
    assert_eq!(display_width("\u{2502}"), 1); // │
}

#[test]
fn display_width_emoji() {
    assert_eq!(display_width("\u{1F525}"), 2); // fire
    assert_eq!(display_width("\u{26A1}"), 2); // lightning
    assert_eq!(display_width("\u{270D}\u{FE0F}"), 2); // writing hand + VS16
}

#[test]
fn gitignore_lines_cover_files() {
    assert!(is_ignored_by(".env\n", ".env"));
    assert!(is_ignored_by("/.env\n", ".env"));
    assert!(is_ignored_by(".env*\n", ".env.local"));
    assert!(is_ignored_by("node_modules\n  .env  \n", ".env"));
    assert!(!is_ignored_by("", ".env"));
    assert!(!is_ignored_by("node_modules\n", ".env"));
    assert!(!is_ignored_by(".envs\n", ".env"));
}

#[test]
fn tiny_gitignore_is_flagged() {
    assert!(check_gitignore(&None));
    assert!(check_gitignore(&Some("node_modules\n".to_string())));
    assert!(check_gitignore(&Some("# only comments\n\n".to_string())));
    assert!(!check_gitignore(&Some("node_modules\ntarget\n.env\ndist\n".to_string())));
}

#[test]
fn security_counts_unignored_env_files() {
    let patterns = env_pattern_names();
    assert_eq!(patterns.len(), 8);
    // Only the plain `.env` exists, and nothing ignores it.
    let mut present = vec![false; 8];
    present[0] = true;
    let info = check_security("", &present, false, &Vec::new());
    assert!(info.env_in_git);
    assert_eq!(info.env_files_count, 1);

    // The same file gitignored is no finding.
    let info2 = check_security(".env\n", &present, false, &Vec::new());
    assert!(!info2.env_in_git);
    assert_eq!(info2.env_files_count, 0);

    // A glob line covers every variant.
    let all = vec![true; 8];
    let info3 = check_security(".env*\n", &all, true, &Vec::new());
    assert_eq!(info3.env_files_count, 0);
    assert!(info3.has_env_example);
}

#[test]
fn security_counts_secret_hints() {
    let configs = vec![
        "const API_KEY = \"sk-abc123def456\";\nconst STRIPE = \"sk_live_test\";\n".to_string(),
    ];
    let info = check_security("", &vec![false; 8], false, &configs);
    assert_eq!(info.hardcoded_secrets_hints, 2);

    let clean = vec!["const API_URL = \"https://api.example.com\";\n".to_string()];
    let info2 = check_security("", &vec![false; 8], false, &clean);
    assert_eq!(info2.hardcoded_secrets_hints, 0);
}

fn empty_tests_observation() -> TestsObservation {
    TestsObservation {
        dir_exists: vec![false; 5],
        dir_file_counts: vec![0; 5],
        config_exists: vec![false; 7],
        has_cargo_toml: false,
        rust_inline_tests: false,
        rs_test_file_count: 0,
    }
}

#[test]
fn no_tests_in_empty_dir() {
    let info = detect_tests(&empty_tests_observation());
    assert!(!info.has_tests);
    assert_eq!(info.test_files_count, 0);
    assert!(info.frameworks.is_empty());
}

#[test]
fn test_directories_count_their_files() {
    let mut obs = empty_tests_observation();
    obs.dir_exists[0] = true;
    obs.dir_file_counts[0] = 2;
    let info = detect_tests(&obs);
    assert!(info.has_tests);
    assert_eq!(info.test_files_count, 2);
}

#[test]
fn config_files_name_their_framework_once() {
    let mut obs = empty_tests_observation();
    obs.config_exists[0] = true; // jest.config.js
    obs.config_exists[1] = true; // jest.config.ts names Jest again
    obs.config_exists[2] = true; // vitest.config.ts
    let info = detect_tests(&obs);
    assert!(info.has_tests);
    assert_eq!(info.frameworks, vec!["Jest".to_string(), "Vitest".to_string()]);
}

#[test]
fn cargo_projects_with_inline_tests_fall_back() {
    let mut obs = empty_tests_observation();
    obs.has_cargo_toml = true;
    obs.rust_inline_tests = true;
    obs.rs_test_file_count = 3;
    let info = detect_tests(&obs);
    assert!(info.has_tests);
    assert_eq!(info.test_files_count, 3);
    assert_eq!(info.frameworks, vec!["cargo test".to_string()]);
}

#[test]
fn inline_test_attributes_are_detected() {
    assert!(rs_file_has_inline_tests("#[test]\nfn it_works() {}"));
    assert!(rs_file_has_inline_tests("mod t { #[cfg(test)] mod inner {} }"));
    assert!(!rs_file_has_inline_tests("fn main() {}"));
}

#[test]
fn secret_scan_candidates_are_fixed() {
    let c = secret_scan_candidates();
    assert_eq!(c.len(), 9);
    assert_eq!(c[0], "src/config.ts");
    assert_eq!(c[8], ".github/workflows/ci.yml");
}

#[test]
fn empty_dir_returns_empty_stats() {
    let stats = count_languages(&Vec::new());
    assert!(stats.languages.is_empty());
    assert_eq!(stats.total_lines, 0);
}

#[test]
fn no_security_issues_in_clean_dir() {
    let info = check_security("", &vec![false; 8], false, &Vec::new());
    assert!(!info.env_in_git);
    assert!(!info.has_env_example);
    assert_eq!(info.env_files_count, 0);
}

#[test]
fn no_env_file_means_no_issue() {
    let info = check_security("", &vec![false; 8], false, &Vec::new());
    assert!(!info.env_in_git);
}
