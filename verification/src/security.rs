use vstd::prelude::*;

use crate::strings::spec_lines;
use crate::strings::split_lines;
use crate::strings::spec_trim;
use crate::strings::trim_bounds;
use crate::strings::spec_starts_with;
use crate::strings::str_eq;
use crate::strings::str_starts_with;
use crate::strings::spec_count_occ;
use crate::strings::count_occurrences;

verus! {

/// The security signals detected for one project.
#[derive(Debug)]
pub struct SecurityInfo {
    /// Some environment file sits in the repository unignored.
    pub env_in_git: bool,
    /// An example environment file is provided.
    pub has_env_example: bool,
    /// How many hardcoded-secret patterns the config files show.
    pub hardcoded_secrets_hints: usize,
    /// How many environment files sit in the repository unignored.
    pub env_files_count: usize,
}

/// One gitignore line covers `file`: after trimming, it is the exact name,
/// the name with a leading slash, or a glob whose prefix before `*`
/// matches.
pub open spec fn spec_line_ignores(line: Seq<char>, file: Seq<char>) -> bool {
    let t = spec_trim(line);
    ||| t == file
    ||| t == seq!['/'] + file
    ||| (t.len() > 0 && t.last() == '*' && spec_starts_with(file, t.drop_last()))
}

/// Some line of the gitignore content covers `file`.
pub open spec fn spec_is_ignored_by(content: Seq<char>, file: Seq<char>) -> bool {
    exists|i: int|
        0 <= i < spec_lines(content).len() && spec_line_ignores(
            #[trigger] spec_lines(content)[i],
            file,
        )
}

/// Whether the gitignore content covers `file`: an exact entry, a
/// slash-prefixed entry, or a trailing-`*` glob.
pub fn is_ignored_by(gitignore_content: &str, file: &str) -> (r: bool)
    ensures
        r == spec_is_ignored_by(gitignore_content@, file@),
{
    let lines = split_lines(gitignore_content);
    let n = lines.len();
    let mut i: usize = 0;
    while i < n
        invariant
            n == lines@.len(),
            lines.deep_view() == spec_lines(gitignore_content@),
            i <= n,
            forall|j: int|
                0 <= j < i ==> !spec_line_ignores(
                    #[trigger] spec_lines(gitignore_content@)[j],
                    file@,
                ),
        decreases n - i,
    {
        proof {
            assert(lines.deep_view()[i as int] == lines@[i as int]@);
        }
        let line = &lines[i];
        let bounds = trim_bounds(line.as_str());
        let a = bounds.0;
        let b = bounds.1;
        let t = line.as_str().substring_char(a, b);
        let is_exact = str_eq(t, file);
        // A leading slash then the exact name.
        let mut is_slash = false;
        if b - a >= 1 && t.get_char(0) == '/' {
            let rest = line.as_str().substring_char(a + 1, b);
            proof {
                assert(rest@ =~= t@.skip(1));
            }
            is_slash = str_eq(rest, file);
            proof {
                if rest@ == file@ {
                    assert(t@ =~= seq!['/'] + file@);
                }
                if t@ == seq!['/'] + file@ {
                    assert(t@.skip(1) =~= file@);
                }
            }
        } else {
            proof {
                if t@ == seq!['/'] + file@ {
                    assert(t@.len() == 1 + file@.len());
                    assert(t@[0] == (seq!['/'] + file@)[0]);
                    assert((seq!['/'] + file@)[0] == '/');
                }
            }
        }
        // A glob: everything before a trailing '*' must prefix the file.
        let mut is_glob = false;
        if b - a >= 1 && t.get_char(b - a - 1) == '*' {
            let stem = line.as_str().substring_char(a, b - 1);
            proof {
                assert(stem@ =~= t@.drop_last());
            }
            is_glob = str_starts_with(file, stem);
        }
        proof {
            assert(t@ == spec_trim(lines.deep_view()[i as int]));
        }
        if is_exact || is_slash || is_glob {
            assert(spec_line_ignores(spec_lines(gitignore_content@)[i as int], file@));
            return true;
        }
        proof {
            assert(!spec_line_ignores(spec_lines(gitignore_content@)[i as int], file@));
        }
        i = i + 1;
    }
    false
}

/// The environment-file names that must never be committed.
pub open spec fn spec_env_patterns() -> Seq<Seq<char>> {
    seq![
        ".env"@,
        ".env.local"@,
        ".env.development"@,
        ".env.production"@,
        ".env.staging"@,
        ".env.test"@,
        ".env.dev"@,
        ".env.prod"@,
    ]
}

/// The environment-file names the security check probes for, in order.
pub fn env_pattern_names() -> (r: Vec<String>)
    ensures
        r.deep_view() == spec_env_patterns(),
{
    let mut v: Vec<String> = Vec::new();
    v.push(".env".to_owned());
    v.push(".env.local".to_owned());
    v.push(".env.development".to_owned());
    v.push(".env.production".to_owned());
    v.push(".env.staging".to_owned());
    v.push(".env.test".to_owned());
    v.push(".env.dev".to_owned());
    v.push(".env.prod".to_owned());
    proof {
        assert(v.deep_view() =~= spec_env_patterns());
    }
    v
}

/// The text fragments that hint at a hardcoded secret.
pub open spec fn spec_secret_patterns() -> Seq<Seq<char>> {
    seq![
        "sk-"@,
        "sk_live_"@,
        "sk_test_"@,
        "AKIA"@,
        "ghp_"@,
        "gho_"@,
        "glpat-"@,
        "xoxb-"@,
        "xoxp-"@,
        "Bearer eyJ"@,
    ]
}

/// The secret-hint fragments the security check scans for, in order.
pub fn secret_pattern_names() -> (r: Vec<String>)
    ensures
        r.deep_view() == spec_secret_patterns(),
{
    let mut v: Vec<String> = Vec::new();
    v.push("sk-".to_owned());
    v.push("sk_live_".to_owned());
    v.push("sk_test_".to_owned());
    v.push("AKIA".to_owned());
    v.push("ghp_".to_owned());
    v.push("gho_".to_owned());
    v.push("glpat-".to_owned());
    v.push("xoxb-".to_owned());
    v.push("xoxp-".to_owned());
    v.push("Bearer eyJ".to_owned());
    proof {
        assert(v.deep_view() =~= spec_secret_patterns());
    }
    v
}

/// The config files worth scanning for secrets, relative to the project
/// root, in order.
pub open spec fn spec_secret_scan_candidates() -> Seq<Seq<char>> {
    seq![
        "src/config.ts"@,
        "src/config.js"@,
        "config.ts"@,
        "config.js"@,
        "src/constants.ts"@,
        "src/constants.js"@,
        "docker-compose.yml"@,
        "docker-compose.yaml"@,
        ".github/workflows/ci.yml"@,
    ]
}

/// The config files whose contents the security check wants to scan.
pub fn secret_scan_candidates() -> (r: Vec<String>)
    ensures
        r.deep_view() == spec_secret_scan_candidates(),
{
    let mut v: Vec<String> = Vec::new();
    v.push("src/config.ts".to_owned());
    v.push("src/config.js".to_owned());
    v.push("config.ts".to_owned());
    v.push("config.js".to_owned());
    v.push("src/constants.ts".to_owned());
    v.push("src/constants.js".to_owned());
    v.push("docker-compose.yml".to_owned());
    v.push("docker-compose.yaml".to_owned());
    v.push(".github/workflows/ci.yml".to_owned());
    proof {
        assert(v.deep_view() =~= spec_secret_scan_candidates());
    }
    v
}

/// How many secret hints one file's content shows, over the first `k`
/// patterns.
pub open spec fn spec_file_hints_upto(content: Seq<char>, k: int) -> int
    decreases k,
{
    if k <= 0 {
        0
    } else {
        spec_file_hints_upto(content, k - 1) + spec_count_occ(content, spec_secret_patterns()[k
            - 1])
    }
}

/// How many secret hints one file's content shows.
pub open spec fn spec_file_hints(content: Seq<char>) -> int {
    spec_file_hints_upto(content, spec_secret_patterns().len() as int)
}

/// How many secret hints a set of file contents shows in all.
pub open spec fn spec_total_hints(contents: Seq<String>) -> int
    decreases contents.len(),
{
    if contents.len() == 0 {
        0
    } else {
        spec_total_hints(contents.drop_last()) + spec_file_hints(contents.last()@)
    }
}

proof fn lemma_count_occ_nonneg(hay: Seq<char>, needle: Seq<char>)
    ensures
        spec_count_occ(hay, needle) >= 0,
    decreases hay.len(),
{
    if needle.len() > 0 && hay.len() >= needle.len() {
        lemma_count_occ_nonneg(hay.skip(needle.len() as int), needle);
        lemma_count_occ_nonneg(hay.skip(1), needle);
    }
}

proof fn lemma_file_hints_upto_nonneg(content: Seq<char>, k: int)
    ensures
        spec_file_hints_upto(content, k) >= 0,
    decreases k,
{
    if k > 0 {
        lemma_file_hints_upto_nonneg(content, k - 1);
        lemma_count_occ_nonneg(content, spec_secret_patterns()[k - 1]);
    }
}

proof fn lemma_file_hints_upto_mono(content: Seq<char>, k1: int, k2: int)
    requires
        0 <= k1 <= k2,
    ensures
        spec_file_hints_upto(content, k1) <= spec_file_hints_upto(content, k2),
    decreases k2,
{
    if k1 < k2 {
        lemma_file_hints_upto_mono(content, k1, k2 - 1);
        lemma_count_occ_nonneg(content, spec_secret_patterns()[k2 - 1]);
    }
}

proof fn lemma_total_hints_nonneg(contents: Seq<String>)
    ensures
        spec_total_hints(contents) >= 0,
    decreases contents.len(),
{
    if contents.len() > 0 {
        lemma_total_hints_nonneg(contents.drop_last());
        lemma_file_hints_upto_nonneg(contents.last()@, spec_secret_patterns().len() as int);
    }
}

proof fn lemma_total_hints_take_le(contents: Seq<String>, i: int)
    requires
        0 <= i <= contents.len(),
    ensures
        spec_total_hints(contents.take(i)) <= spec_total_hints(contents),
    decreases contents.len(),
{
    if i == contents.len() {
        assert(contents.take(i) =~= contents);
    } else {
        lemma_total_hints_take_le(contents.drop_last(), i);
        assert(contents.drop_last().take(i) =~= contents.take(i));
        lemma_file_hints_upto_nonneg(contents.last()@, spec_secret_patterns().len() as int);
    }
}

/// Count the secret hints in one file's content.
fn file_hints(content: &str) -> (r: usize)
    requires
        spec_file_hints(content@) <= usize::MAX,
    ensures
        r == spec_file_hints(content@),
{
    let patterns = secret_pattern_names();
    let mut count: usize = 0;
    let mut k: usize = 0;
    while k < 10
        invariant
            patterns.deep_view() == spec_secret_patterns(),
            patterns@.len() == 10,
            k <= 10,
            count == spec_file_hints_upto(content@, k as int),
            spec_file_hints(content@) <= usize::MAX,
        decreases 10 - k,
    {
        proof {
            reveal_strlit("sk-");
            reveal_strlit("sk_live_");
            reveal_strlit("sk_test_");
            reveal_strlit("AKIA");
            reveal_strlit("ghp_");
            reveal_strlit("gho_");
            reveal_strlit("glpat-");
            reveal_strlit("xoxb-");
            reveal_strlit("xoxp-");
            reveal_strlit("Bearer eyJ");
            assert(patterns.deep_view()[k as int] == patterns@[k as int]@);
            assert(spec_secret_patterns()[k as int].len() > 0);
            // The running count plus this pattern's occurrences stays within
            // the total, which the caller bounded.
            lemma_file_hints_upto_nonneg(content@, k as int);
            lemma_count_occ_nonneg(content@, spec_secret_patterns()[k as int]);
            lemma_file_hints_upto_mono(content@, k + 1, 10);
        }
        let c = count_occurrences(content, patterns[k].as_str());
        count = count + c;
        k = k + 1;
    }
    count
}

/// Inspect the security signals: which environment files sit unignored in
/// the repository, whether an example file exists, and how many secret
/// hints the config files show. `env_present` answers, pattern by pattern
/// in `env_pattern_names` order, whether the file exists.
pub fn check_security(
    gitignore_content: &str,
    env_present: &Vec<bool>,
    has_env_example: bool,
    config_contents: &Vec<String>,
) -> (r: SecurityInfo)
    requires
        env_present@.len() == spec_env_patterns().len(),
        spec_total_hints(config_contents@) <= usize::MAX,
    ensures
        r.env_files_count == spec_env_count(env_present@, gitignore_content@),
        r.env_in_git == (spec_env_count(env_present@, gitignore_content@) > 0),
        r.has_env_example == has_env_example,
        r.hardcoded_secrets_hints == spec_total_hints(config_contents@),
{
    let patterns = env_pattern_names();
    let mut env_count: usize = 0;
    let mut k: usize = 0;
    while k < 8
        invariant
            patterns.deep_view() == spec_env_patterns(),
            patterns@.len() == 8,
            env_present@.len() == 8,
            k <= 8,
            env_count <= k,
            env_count == spec_env_count_upto(env_present@, gitignore_content@, k as int),
        decreases 8 - k,
    {
        proof {
            assert(patterns.deep_view()[k as int] == patterns@[k as int]@);
        }
        if env_present[k] && !is_ignored_by(gitignore_content, patterns[k].as_str()) {
            env_count = env_count + 1;
        }
        k = k + 1;
    }
    let mut hints: usize = 0;
    let n = config_contents.len();
    let mut i: usize = 0;
    while i < n
        invariant
            n == config_contents@.len(),
            i <= n,
            hints == spec_total_hints(config_contents@.take(i as int)),
            spec_total_hints(config_contents@) <= usize::MAX,
        decreases n - i,
    {
        proof {
            assert(config_contents@.take(i + 1).drop_last() =~= config_contents@.take(i as int));
            assert(config_contents@.take(i + 1).last() == config_contents@[i as int]);
            lemma_total_hints_take_le(config_contents@, i + 1);
            lemma_total_hints_nonneg(config_contents@.take(i as int));
            lemma_file_hints_upto_nonneg(
                config_contents@[i as int]@,
                spec_secret_patterns().len() as int,
            );
        }
        let c = file_hints(config_contents[i].as_str());
        hints = hints + c;
        i = i + 1;
    }
    proof {
        assert(config_contents@.take(n as int) =~= config_contents@);
    }
    SecurityInfo {
        env_in_git: env_count > 0,
        has_env_example,
        hardcoded_secrets_hints: hints,
        env_files_count: env_count,
    }
}

/// How many of the first `k` probed environment files are present and not
/// covered by the gitignore.
pub open spec fn spec_env_count_upto(present: Seq<bool>, gitignore: Seq<char>, k: int) -> int
    decreases k,
{
    if k <= 0 {
        0
    } else {
        spec_env_count_upto(present, gitignore, k - 1) + if present[k - 1] && !spec_is_ignored_by(
            gitignore,
            spec_env_patterns()[k - 1],
        ) {
            1int
        } else {
            0int
        }
    }
}

/// How many probed environment files are present and not covered by the
/// gitignore.
pub open spec fn spec_env_count(present: Seq<bool>, gitignore: Seq<char>) -> int {
    spec_env_count_upto(present, gitignore, spec_env_patterns().len() as int)
}

} // verus!
