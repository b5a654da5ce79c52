use vstd::prelude::*;

use crate::languages::LanguageStats;
use crate::languages::SourceFile;
use crate::languages::count_languages;
use crate::languages::assoc_view;
use crate::languages::spec_lang_totals;
use crate::languages::spec_counted_total;
use crate::security::SecurityInfo;
use crate::security::check_security;
use crate::security::spec_env_patterns;
use crate::security::spec_env_count;
use crate::security::spec_total_hints;
use crate::tests_detect::TestsInfo;
use crate::tests_detect::TestsObservation;
use crate::tests_detect::detect_tests;
use crate::tests_detect::spec_has_tests_pre;
use crate::tests_detect::spec_inline_branch;
use crate::tests_detect::spec_dir_count_upto;
use crate::tests_detect::spec_frameworks;
use crate::vibe::VibeInfo;

verus! {

/// How many dependencies a project declares, and under which package
/// manager.
#[derive(Debug)]
pub struct DepsInfo {
    pub total: usize,
    pub manager: String,
}

/// Everything the project analysis reports.
#[derive(Debug)]
pub struct ProjectStats {
    pub deps: DepsInfo,
    pub tests: TestsInfo,
    pub languages: LanguageStats,
    pub security: SecurityInfo,
    pub vibe: VibeInfo,
}

/// The raw facts one walk of the project directory yields, from which the
/// whole analysis is decided.
#[derive(Debug)]
pub struct ProjectObservation {
    /// The dependency count, read from whichever manifest was found.
    pub deps: DepsInfo,
    /// The answers to the test probes.
    pub tests: TestsObservation,
    /// Every source file seen, with its line count.
    pub source_files: Vec<SourceFile>,
    /// The gitignore's content; empty when the file is missing.
    pub gitignore_content: String,
    /// For each probed environment file, whether it exists.
    pub env_present: Vec<bool>,
    /// Whether an example environment file exists.
    pub has_env_example: bool,
    /// The contents of the config files scanned for secrets.
    pub config_contents: Vec<String>,
    /// The vibe signals, gathered by the caller's probes.
    pub vibe: VibeInfo,
}

/// Run the whole project analysis over one observation: tests, languages
/// and security are each decided by their own verified rules, and the
/// dependency and vibe facts are carried through unchanged.
pub fn analyze_project(obs: &ProjectObservation) -> (r: ProjectStats)
    requires
        obs.tests.dir_exists@.len() == 5,
        obs.tests.dir_file_counts@.len() == 5,
        obs.tests.config_exists@.len() == 7,
        spec_dir_count_upto(obs.tests, 5) <= usize::MAX,
        spec_counted_total(obs.source_files@) <= usize::MAX,
        obs.env_present@.len() == spec_env_patterns().len(),
        spec_total_hints(obs.config_contents@) <= usize::MAX,
    ensures
        r.deps.total == obs.deps.total,
        r.deps.manager == obs.deps.manager,
        r.tests.has_tests == (spec_has_tests_pre(obs.tests) || spec_inline_branch(obs.tests)),
        r.tests.test_files_count == if spec_inline_branch(obs.tests)
            && obs.tests.rs_test_file_count as int > spec_dir_count_upto(obs.tests, 5) {
            obs.tests.rs_test_file_count as int
        } else {
            spec_dir_count_upto(obs.tests, 5)
        },
        r.tests.frameworks.deep_view() == spec_frameworks(obs.tests),
        assoc_view(r.languages.languages@) == spec_lang_totals(obs.source_files@),
        r.languages.total_lines == spec_counted_total(obs.source_files@),
        r.security.env_files_count == spec_env_count(obs.env_present@, obs.gitignore_content@),
        r.security.env_in_git == (spec_env_count(obs.env_present@, obs.gitignore_content@) > 0),
        r.security.has_env_example == obs.has_env_example,
        r.security.hardcoded_secrets_hints == spec_total_hints(obs.config_contents@),
        r.vibe == obs.vibe,
{
    ProjectStats {
        deps: DepsInfo { total: obs.deps.total, manager: obs.deps.manager.clone() },
        tests: detect_tests(&obs.tests),
        languages: count_languages(&obs.source_files),
        security: check_security(
            obs.gitignore_content.as_str(),
            &obs.env_present,
            obs.has_env_example,
            &obs.config_contents,
        ),
        vibe: obs.vibe,
    }
}

} // verus!
