use vstd::prelude::*;

use crate::strings::spec_lines;
use crate::strings::split_lines;
use crate::strings::spec_trim;
use crate::strings::trim_bounds;

verus! {

/// The vibe signals detected for one project.
#[derive(Debug, Clone, Copy)]
pub struct VibeInfo {
    /// No linter configuration anywhere.
    pub no_linting: bool,
    /// No continuous-integration configuration.
    pub no_ci_cd: bool,
    /// AI-assisted commits but no AI tool configuration.
    pub boomer_ai: bool,
    /// A dependency directory tracked in the repository.
    pub node_modules_in_git: bool,
    /// No ignore file, or one too small to mean anything.
    pub no_gitignore: bool,
    /// No README in any accepted spelling.
    pub no_readme: bool,
    /// More than twenty task-marker lines in the sources.
    pub todo_flood: bool,
    pub todo_count: usize,
    /// Only one branch exists.
    pub single_branch: bool,
    /// One commit holds most of the changed files.
    pub mega_commit: bool,
}

/// What `str::to_uppercase` returns for `s`: Unicode uppercasing depends on
/// the characters alone.
pub uninterp spec fn upper_of(s: Seq<char>) -> Seq<char>;

/// Relies on `str::to_uppercase`: the Unicode uppercase mapping of the
/// string, a function of its characters alone.
#[verifier::external_body]
fn to_upper(s: &str) -> (r: String)
    ensures
        r@ == upper_of(s@),
{
    s.to_uppercase()
}

/// A character that can sit inside an identifier: ASCII alphanumeric or
/// `_`.
pub open spec fn is_word_char(c: char) -> bool {
    (('a' as u32) <= (c as u32) && (c as u32) <= ('z' as u32)) || (('A' as u32) <= (c as u32) && (
    c as u32) <= ('Z' as u32)) || (('0' as u32) <= (c as u32) && (c as u32) <= ('9' as u32)) || c
        == '_'
}

fn word_char(c: char) -> (r: bool)
    ensures
        r == is_word_char(c),
{
    let u: u32 = c as u32;
    (97 <= u && u <= 122) || (65 <= u && u <= 90) || (48 <= u && u <= 57) || c == '_'
}

/// `kw` occurs in `s` at `i` as a standalone word: the characters match and
/// neither neighbour could extend an identifier.
pub open spec fn has_word_at(s: Seq<char>, kw: Seq<char>, i: int) -> bool {
    &&& 0 <= i
    &&& i + kw.len() <= s.len()
    &&& s.subrange(i, i + kw.len()) == kw
    &&& (i == 0 || !is_word_char(s[i - 1]))
    &&& (i + kw.len() == s.len() || !is_word_char(s[i + kw.len()]))
}

/// `kw` occurs somewhere in `s` as a standalone word.
pub open spec fn spec_contains_word(s: Seq<char>, kw: Seq<char>) -> bool {
    exists|i: int| has_word_at(s, kw, i)
}

fn contains_word(s: &str, kw: &str) -> (r: bool)
    requires
        kw@.len() > 0,
    ensures
        r == spec_contains_word(s@, kw@),
{
    let n: usize = s.unicode_len();
    let kn: usize = kw.unicode_len();
    if kn > n {
        return false;
    }
    let mut i: usize = 0;
    while i <= n - kn
        invariant
            1 <= kn <= n,
            n == s@.len(),
            kn == kw@.len(),
            i <= n - kn + 1,
            forall|j: int| 0 <= j < i ==> !has_word_at(s@, kw@, j),
        decreases n + 1 - kn - i,
    {
        let piece = s.substring_char(i, i + kn);
        if crate::strings::str_eq(piece, kw) {
            let before_ok = i == 0 || !word_char(s.get_char(i - 1));
            let after_ok = i + kn == n || !word_char(s.get_char(i + kn));
            if before_ok && after_ok {
                assert(has_word_at(s@, kw@, i as int));
                return true;
            }
        }
        i = i + 1;
    }
    false
}

/// One of the three task markers occurs in `s` as a standalone word — not
/// as part of an identifier.
pub open spec fn spec_has_todo_word(s: Seq<char>) -> bool {
    spec_contains_word(s, "TODO"@) || spec_contains_word(s, "FIXME"@) || spec_contains_word(
        s,
        "HACK"@,
    )
}

/// Whether the uppercased text contains `TODO`, `FIXME` or `HACK` as a
/// standalone word. Public companion of `has_todo_keyword`, taking the
/// already-folded text so the word logic is checkable on its own.
pub fn contains_todo_word(s: &str) -> (r: bool)
    ensures
        r == spec_has_todo_word(s@),
{
    proof {
        reveal_strlit("TODO");
        reveal_strlit("FIXME");
        reveal_strlit("HACK");
    }
    contains_word(s, "TODO") || contains_word(s, "FIXME") || contains_word(s, "HACK")
}

/// Whether a source line mentions a task marker — `TODO`, `FIXME` or
/// `HACK`, in any letter case, as a standalone word rather than part of an
/// identifier.
pub fn has_todo_keyword(line: &str) -> (r: bool)
    ensures
        r == spec_has_todo_word(upper_of(line@)),
{
    let upper = to_upper(line);
    contains_todo_word(upper.as_str())
}

/// How many of the lines carry a task marker.
pub open spec fn spec_count_todo_lines(ls: Seq<Seq<char>>) -> int
    decreases ls.len(),
{
    if ls.len() == 0 {
        0
    } else {
        spec_count_todo_lines(ls.drop_last()) + if spec_has_todo_word(upper_of(ls.last())) {
            1int
        } else {
            0int
        }
    }
}

/// Count the lines of one source file that carry a task marker.
pub fn count_todos(content: &str) -> (r: usize)
    ensures
        r == spec_count_todo_lines(spec_lines(content@)),
{
    let lines = split_lines(content);
    let n = lines.len();
    let mut count: usize = 0;
    let mut i: usize = 0;
    while i < n
        invariant
            n == lines@.len(),
            lines.deep_view() == spec_lines(content@),
            i <= n,
            count <= i,
            count == spec_count_todo_lines(lines.deep_view().take(i as int)),
        decreases n - i,
    {
        proof {
            assert(lines.deep_view().take(i + 1).drop_last() =~= lines.deep_view().take(i as int));
            assert(lines.deep_view().take(i + 1).last() == lines.deep_view()[i as int]);
            assert(lines.deep_view()[i as int] == lines@[i as int]@);
        }
        if has_todo_keyword(lines[i].as_str()) {
            count = count + 1;
        }
        i = i + 1;
    }
    proof {
        assert(lines.deep_view().take(n as int) =~= lines.deep_view());
    }
    count
}

/// A gitignore line that counts toward substance: non-blank and not a
/// comment. The comment check looks at the raw line, the blank check at
/// the trimmed one.
pub open spec fn spec_counted_ignore_line(l: Seq<char>) -> bool {
    spec_trim(l).len() > 0 && !(l.len() > 0 && l[0] == '#')
}

/// How many lines count toward substance.
pub open spec fn spec_counted_ignore_lines(ls: Seq<Seq<char>>) -> int
    decreases ls.len(),
{
    if ls.len() == 0 {
        0
    } else {
        spec_counted_ignore_lines(ls.drop_last()) + if spec_counted_ignore_line(ls.last()) {
            1int
        } else {
            0int
        }
    }
}

/// Whether the ignore file is missing or too small to mean anything: no
/// content at all, or fewer than three lines that are neither blank nor
/// comments.
pub fn check_gitignore(content: &Option<String>) -> (r: bool)
    ensures
        r == match content {
            Option::None => true,
            Option::Some(c) => spec_counted_ignore_lines(spec_lines(c@)) < 3,
        },
{
    let c = match content {
        Some(c) => c,
        None => {
            return true;
        },
    };
    let lines = split_lines(c.as_str());
    let n = lines.len();
    let mut count: usize = 0;
    let mut i: usize = 0;
    while i < n
        invariant
            n == lines@.len(),
            lines.deep_view() == spec_lines(c@),
            i <= n,
            count <= i,
            count == spec_counted_ignore_lines(lines.deep_view().take(i as int)),
        decreases n - i,
    {
        proof {
            assert(lines.deep_view().take(i + 1).drop_last() =~= lines.deep_view().take(i as int));
            assert(lines.deep_view().take(i + 1).last() == lines.deep_view()[i as int]);
            assert(lines.deep_view()[i as int] == lines@[i as int]@);
        }
        let line = &lines[i];
        let bounds = trim_bounds(line.as_str());
        let nonblank = bounds.0 < bounds.1;
        let is_comment = line.as_str().unicode_len() > 0 && line.as_str().get_char(0) == '#';
        if nonblank && !is_comment {
            count = count + 1;
        }
        i = i + 1;
    }
    proof {
        assert(lines.deep_view().take(n as int) =~= lines.deep_view());
    }
    count < 3
}

} // verus!
