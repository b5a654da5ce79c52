use vstd::prelude::*;

use crate::strings::str_eq;

verus! {

/// What test tooling a project shows.
#[derive(Debug)]
pub struct TestsInfo {
    pub has_tests: bool,
    pub test_files_count: usize,
    /// The recognized frameworks, each named once.
    pub frameworks: Vec<String>,
}

/// The directory names probed for tests, in order.
pub open spec fn spec_test_dirs() -> Seq<Seq<char>> {
    seq!["tests"@, "test"@, "__tests__"@, "spec"@, "src/test"@]
}

/// The directory names the detector probes for, in order.
pub fn test_dir_names() -> (r: Vec<String>)
    ensures
        r.deep_view() == spec_test_dirs(),
{
    let mut v: Vec<String> = Vec::new();
    v.push("tests".to_owned());
    v.push("test".to_owned());
    v.push("__tests__".to_owned());
    v.push("spec".to_owned());
    v.push("src/test".to_owned());
    proof {
        assert(v.deep_view() =~= spec_test_dirs());
    }
    v
}

/// The config files probed for, paired with the framework each one names.
pub open spec fn spec_test_configs() -> Seq<(Seq<char>, Seq<char>)> {
    seq![
        ("jest.config.js"@, "Jest"@),
        ("jest.config.ts"@, "Jest"@),
        ("vitest.config.ts"@, "Vitest"@),
        ("vitest.config.js"@, "Vitest"@),
        ("pytest.ini"@, "pytest"@),
        ("pyproject.toml"@, "pytest"@),
        (".mocharc.yml"@, "Mocha"@),
    ]
}

/// The config files the detector probes for, each with its framework.
pub fn test_config_names() -> (r: Vec<(String, String)>)
    ensures
        r@.len() == spec_test_configs().len(),
        forall|i: int|
            0 <= i < r@.len() ==> ((#[trigger] r@[i]).0@, r@[i].1@) == spec_test_configs()[i],
{
    let mut v: Vec<(String, String)> = Vec::new();
    v.push(("jest.config.js".to_owned(), "Jest".to_owned()));
    v.push(("jest.config.ts".to_owned(), "Jest".to_owned()));
    v.push(("vitest.config.ts".to_owned(), "Vitest".to_owned()));
    v.push(("vitest.config.js".to_owned(), "Vitest".to_owned()));
    v.push(("pytest.ini".to_owned(), "pytest".to_owned()));
    v.push(("pyproject.toml".to_owned(), "pytest".to_owned()));
    v.push((".mocharc.yml".to_owned(), "Mocha".to_owned()));
    v
}

/// Whether one source file's text carries an inline test attribute — the
/// content rule behind the `rust_inline_tests` observation.
pub fn rs_file_has_inline_tests(content: &str) -> (r: bool)
    ensures
        r == (crate::strings::spec_contains_sub(content@, "#[test]"@)
            || crate::strings::spec_contains_sub(content@, "#[cfg(test)]"@)),
{
    crate::strings::contains_sub(content, "#[test]") || crate::strings::contains_sub(
        content,
        "#[cfg(test)]",
    )
}

/// The filesystem facts test detection decides from, gathered by whoever
/// can look at the project directory: answers to the probes above, in
/// their order.
#[derive(Debug)]
pub struct TestsObservation {
    /// For each probed directory, whether it exists.
    pub dir_exists: Vec<bool>,
    /// For each probed directory, how many files it holds, recursively.
    pub dir_file_counts: Vec<usize>,
    /// For each probed config file, whether it exists.
    pub config_exists: Vec<bool>,
    /// Whether a `Cargo.toml` sits at the project root.
    pub has_cargo_toml: bool,
    /// Whether some source file carries an inline test attribute.
    pub rust_inline_tests: bool,
    /// How many source files carry an inline test attribute.
    pub rs_test_file_count: usize,
}

/// The file count contributed by the first `k` probed directories.
pub open spec fn spec_dir_count_upto(obs: TestsObservation, k: int) -> int
    decreases k,
{
    if k <= 0 {
        0
    } else {
        spec_dir_count_upto(obs, k - 1) + if obs.dir_exists@[k - 1] {
            obs.dir_file_counts@[k - 1] as int
        } else {
            0int
        }
    }
}

/// Some probed directory exists.
pub open spec fn spec_any_dir(obs: TestsObservation) -> bool {
    exists|i: int| 0 <= i < 5 && obs.dir_exists@[i]
}

/// Some probed config file exists.
pub open spec fn spec_any_config(obs: TestsObservation) -> bool {
    exists|i: int| 0 <= i < 7 && obs.config_exists@[i]
}

/// Tests are present before the inline-attribute fallback is consulted.
pub open spec fn spec_has_tests_pre(obs: TestsObservation) -> bool {
    spec_any_dir(obs) || spec_any_config(obs) || (obs.has_cargo_toml && obs.dir_exists@[0])
}

/// The inline-attribute fallback fires: a `Cargo.toml` project with no
/// other signs of tests but inline test attributes in its sources.
pub open spec fn spec_inline_branch(obs: TestsObservation) -> bool {
    obs.has_cargo_toml && !spec_has_tests_pre(obs) && obs.rust_inline_tests
}

/// The frameworks named by the first `k` config probes, each once, in
/// probe order.
pub open spec fn spec_config_frameworks_upto(obs: TestsObservation, k: int) -> Seq<Seq<char>>
    decreases k,
{
    if k <= 0 {
        Seq::empty()
    } else {
        let rest = spec_config_frameworks_upto(obs, k - 1);
        let fw = spec_test_configs()[k - 1].1;
        if obs.config_exists@[k - 1] && !rest.contains(fw) {
            rest.push(fw)
        } else {
            rest
        }
    }
}

/// Every framework the observation names: the config probes' frameworks,
/// then the Rust test runner when a `Cargo.toml` project shows a test
/// directory or inline tests.
pub open spec fn spec_frameworks(obs: TestsObservation) -> Seq<Seq<char>> {
    let base = spec_config_frameworks_upto(obs, 7);
    if (obs.has_cargo_toml && obs.dir_exists@[0]) || spec_inline_branch(obs) {
        if base.contains("cargo test"@) {
            base
        } else {
            base.push("cargo test"@)
        }
    } else {
        base
    }
}

/// Whether a vector of names already holds `t`.
fn names_contain(v: &Vec<String>, t: &str) -> (r: bool)
    ensures
        r == v.deep_view().contains(t@),
{
    let n = v.len();
    let mut i: usize = 0;
    while i < n
        invariant
            n == v@.len(),
            i <= n,
            forall|j: int| 0 <= j < i ==> v.deep_view()[j] != t@,
        decreases n - i,
    {
        proof {
            assert(v.deep_view()[i as int] == v@[i as int]@);
        }
        if str_eq(v[i].as_str(), t) {
            assert(v.deep_view().contains(t@));
            return true;
        }
        i = i + 1;
    }
    proof {
        if v.deep_view().contains(t@) {
            let w = choose|w: int| 0 <= w < v.deep_view().len() && v.deep_view()[w] == t@;
        }
    }
    false
}

/// Decide what test tooling the observed facts show: any probed directory,
/// config file, or Rust test layout means tests; the file count sums the
/// existing directories' counts, falling back to the inline count for a
/// `Cargo.toml` project with no other signs.
pub fn detect_tests(obs: &TestsObservation) -> (r: TestsInfo)
    requires
        obs.dir_exists@.len() == 5,
        obs.dir_file_counts@.len() == 5,
        obs.config_exists@.len() == 7,
        spec_dir_count_upto(*obs, 5) <= usize::MAX,
    ensures
        r.has_tests == (spec_has_tests_pre(*obs) || spec_inline_branch(*obs)),
        r.test_files_count == if spec_inline_branch(*obs) && obs.rs_test_file_count as int
            > spec_dir_count_upto(*obs, 5) {
            obs.rs_test_file_count as int
        } else {
            spec_dir_count_upto(*obs, 5)
        },
        r.frameworks.deep_view() == spec_frameworks(*obs),
{
    let mut count: usize = 0;
    let mut k: usize = 0;
    while k < 5
        invariant
            obs.dir_exists@.len() == 5,
            obs.dir_file_counts@.len() == 5,
            spec_dir_count_upto(*obs, 5) <= usize::MAX,
            k <= 5,
            count == spec_dir_count_upto(*obs, k as int),
        decreases 5 - k,
    {
        proof {
            lemma_dir_count_mono(*obs, k + 1, 5);
            lemma_dir_count_nonneg(*obs, k as int);
        }
        if obs.dir_exists[k] {
            count = count + obs.dir_file_counts[k];
        }
        k = k + 1;
    }
    let mut any_dir = false;
    let mut k2: usize = 0;
    while k2 < 5
        invariant
            obs.dir_exists@.len() == 5,
            k2 <= 5,
            any_dir == exists|j: int| 0 <= j < k2 && obs.dir_exists@[j],
        decreases 5 - k2,
    {
        if obs.dir_exists[k2] {
            any_dir = true;
        }
        k2 = k2 + 1;
    }
    // Walk the config probes, collecting frameworks without repeats.
    let configs = test_config_names();
    let mut any_config = false;
    let mut frameworks: Vec<String> = Vec::new();
    let mut k3: usize = 0;
    while k3 < 7
        invariant
            obs.config_exists@.len() == 7,
            configs@.len() == 7,
            forall|i: int|
                0 <= i < 7 ==> ((#[trigger] configs@[i]).0@, configs@[i].1@)
                    == spec_test_configs()[i],
            k3 <= 7,
            any_config == exists|j: int| 0 <= j < k3 && obs.config_exists@[j],
            frameworks.deep_view() == spec_config_frameworks_upto(*obs, k3 as int),
        decreases 7 - k3,
    {
        if obs.config_exists[k3] {
            any_config = true;
            let fw = &configs[k3].1;
            if !names_contain(&frameworks, fw.as_str()) {
                let ghost old_deep = frameworks.deep_view();
                frameworks.push(fw.clone());
                proof {
                    assert(frameworks.deep_view() =~= old_deep.push(fw@));
                }
            }
        }
        k3 = k3 + 1;
    }
    let pre_has = any_dir || any_config || (obs.has_cargo_toml && obs.dir_exists[0]);
    let inline_branch = obs.has_cargo_toml && !pre_has && obs.rust_inline_tests;
    let mut has_tests = pre_has;
    let mut files_count = count;
    if inline_branch {
        has_tests = true;
        if obs.rs_test_file_count > files_count {
            files_count = obs.rs_test_file_count;
        }
    }
    if (obs.has_cargo_toml && obs.dir_exists[0]) || inline_branch {
        proof {
            reveal_strlit("cargo test");
        }
        if !names_contain(&frameworks, "cargo test") {
            let ghost old_deep = frameworks.deep_view();
            frameworks.push("cargo test".to_owned());
            proof {
                assert(frameworks.deep_view() =~= old_deep.push("cargo test"@));
            }
        }
    }
    TestsInfo { has_tests, test_files_count: files_count, frameworks }
}

proof fn lemma_dir_count_nonneg(obs: TestsObservation, k: int)
    ensures
        spec_dir_count_upto(obs, k) >= 0,
    decreases k,
{
    if k > 0 {
        lemma_dir_count_nonneg(obs, k - 1);
    }
}

proof fn lemma_dir_count_mono(obs: TestsObservation, k1: int, k2: int)
    requires
        0 <= k1 <= k2,
    ensures
        spec_dir_count_upto(obs, k1) <= spec_dir_count_upto(obs, k2),
    decreases k2,
{
    if k1 < k2 {
        lemma_dir_count_mono(obs, k1, k2 - 1);
    }
}

} // verus!
