use vstd::prelude::*;

use crate::strings::spec_starts_with;
use crate::strings::substring_string;
use crate::strings::str_starts_with;
use crate::strings::str_eq;

verus! {

/// A character allowed in a repository owner or name: ASCII alphanumerics,
/// `-`, `_` and `.`. Everything else — in particular `/`, spaces and any
/// character that could smuggle path or argument syntax into a subprocess
/// invocation — is outside the class.
pub open spec fn is_safe_char(c: char) -> bool {
    (('a' as u32) <= (c as u32) && (c as u32) <= ('z' as u32))
        || (('A' as u32) <= (c as u32) && (c as u32) <= ('Z' as u32))
        || (('0' as u32) <= (c as u32) && (c as u32) <= ('9' as u32))
        || c == '-' || c == '_' || c == '.'
}

/// Every character of `s` lies in the safe class.
pub open spec fn all_safe(s: Seq<char>) -> bool {
    forall|i: int| 0 <= i < s.len() ==> is_safe_char(s[i])
}

fn safe_char(c: char) -> (r: bool)
    ensures
        r == is_safe_char(c),
{
    let u: u32 = c as u32;
    (97 <= u && u <= 122) || (65 <= u && u <= 90) || (48 <= u && u <= 57) || c == '-' || c == '_'
        || c == '.'
}

/// A GitHub owner or repository name is valid when it is non-empty, at most
/// 255 characters, and made only of safe characters. This is the sole
/// defense against path traversal and argument injection, since these names
/// feed directly into a clone URL.
pub fn is_valid_github_name(s: &str) -> (r: bool)
    ensures
        r == (1 <= s@.len() <= 255 && all_safe(s@)),
{
    let n: usize = s.unicode_len();
    if n == 0 || n > 255 {
        return false;
    }
    let mut i: usize = 0;
    while i < n
        invariant
            n == s@.len(),
            1 <= n <= 255,
            i <= n,
            forall|j: int| 0 <= j < i ==> is_safe_char(s@[j]),
        decreases n - i,
    {
        if !safe_char(s.get_char(i)) {
            return false;
        }
        i = i + 1;
    }
    true
}

/// A bare `owner/name` slug: one `/` with a non-empty run of safe characters
/// on each side. Since `/` is not a safe character, the separator position is
/// unique.
pub open spec fn spec_is_valid_slug(s: Seq<char>) -> bool {
    exists|k: int|
        1 <= k < s.len() - 1 && s[k] == '/' && all_safe(s.subrange(0, k)) && all_safe(
            s.subrange(k + 1, s.len() as int),
        )
}

/// The index of the first `/` in `s`, or its length when there is none.
fn find_first_slash(s: &str) -> (r: usize)
    ensures
        r <= s@.len(),
        r < s@.len() ==> s@[r as int] == '/',
        forall|j: int| 0 <= j < r ==> s@[j] != '/',
{
    let n: usize = s.unicode_len();
    let mut i: usize = 0;
    while i < n
        invariant
            n == s@.len(),
            i <= n,
            forall|j: int| 0 <= j < i ==> s@[j] != '/',
        decreases n - i,
    {
        if s.get_char(i) == '/' {
            return i;
        }
        i = i + 1;
    }
    n
}

/// Whether every character of `s` in `[from, to)` is in the safe class.
fn range_all_safe(s: &str, from: usize, to: usize) -> (r: bool)
    requires
        from <= to <= s@.len(),
    ensures
        r == all_safe(s@.subrange(from as int, to as int)),
{
    let mut j: usize = from;
    while j < to
        invariant
            from <= j <= to <= s@.len(),
            forall|t: int| from <= t < j ==> is_safe_char(s@[t]),
        decreases to - j,
    {
        if !safe_char(s.get_char(j)) {
            proof {
                assert(s@.subrange(from as int, to as int)[j - from] == s@[j as int]);
            }
            return false;
        }
        j = j + 1;
    }
    proof {
        assert(forall|t: int|
            0 <= t < to - from ==> #[trigger] s@.subrange(from as int, to as int)[t] == s@[
                from + t
            ]);
    }
    true
}

/// Whether `s` is a valid `owner/name` slug.
pub fn is_valid_slug(s: &str) -> (r: bool)
    ensures
        r == spec_is_valid_slug(s@),
{
    let n: usize = s.unicode_len();
    let k: usize = find_first_slash(s);
    proof {
        // Any witness to the slug shape must be the first slash.
        if spec_is_valid_slug(s@) {
            let w = choose|w: int|
                1 <= w < s@.len() - 1 && s@[w] == '/' && all_safe(s@.subrange(0, w)) && all_safe(
                    s@.subrange(w + 1, s@.len() as int),
                );
            if k < w {
                assert(s@.subrange(0, w)[k as int] == s@[k as int]);
                assert(!is_safe_char('/'));
            }
            assert(w == k);
        }
    }
    if k == n || !(1 <= k && k + 1 < n) {
        return false;
    }
    let owner_ok = range_all_safe(s, 0, k);
    let name_ok = range_all_safe(s, k + 1, n);
    owner_ok && name_ok
}

/// A full repository URL: the fixed `https://github.com/` prefix followed by
/// a valid slug. An optional `.git` suffix needs no separate clause, since
/// its characters are all in the safe class.
pub open spec fn spec_is_valid_repo_url(s: Seq<char>) -> bool {
    spec_starts_with(s, "https://github.com/"@) && spec_is_valid_slug(
        s.skip("https://github.com/"@.len() as int),
    )
}

/// Whether `s` is a valid `https://github.com/owner/name[.git]` URL.
pub fn is_valid_repo_url(s: &str) -> (r: bool)
    ensures
        r == spec_is_valid_repo_url(s@),
{
    let prefix = "https://github.com/";
    if !str_starts_with(s, prefix) {
        return false;
    }
    let pl: usize = prefix.unicode_len();
    let n: usize = s.unicode_len();
    let rest = s.substring_char(pl, n);
    proof {
        assert(rest@ =~= s@.skip(prefix@.len() as int));
    }
    is_valid_slug(rest)
}

/// The exact `YYYY-MM-DD` shape: ten characters, digits in the year, month
/// and day positions, and `-` separators. This is a shape check only; it does
/// not ask whether the day exists in the calendar.
pub open spec fn spec_is_date_shape(s: Seq<char>) -> bool {
    s.len() == 10 && (forall|i: int|
        (0 <= i < 4 || i == 5 || i == 6 || i == 8 || i == 9) ==> is_digit_char(#[trigger] s[i]))
        && s[4] == '-' && s[7] == '-'
}

/// An ASCII decimal digit.
pub open spec fn is_digit_char(c: char) -> bool {
    ('0' as u32) <= (c as u32) && (c as u32) <= ('9' as u32)
}

fn digit_char(c: char) -> (r: bool)
    ensures
        r == is_digit_char(c),
{
    let u: u32 = c as u32;
    48 <= u && u <= 57
}

/// Whether `s` matches the `YYYY-MM-DD` shape.
pub fn is_date_shape(s: &str) -> (r: bool)
    ensures
        r == spec_is_date_shape(s@),
{
    let n: usize = s.unicode_len();
    if n != 10 {
        return false;
    }
    let ok = digit_char(s.get_char(0)) && digit_char(s.get_char(1)) && digit_char(s.get_char(2))
        && digit_char(s.get_char(3)) && s.get_char(4) == '-' && digit_char(s.get_char(5))
        && digit_char(s.get_char(6)) && s.get_char(7) == '-' && digit_char(s.get_char(8))
        && digit_char(s.get_char(9));
    ok
}

/// `t` has no `/` before index `k`.
pub open spec fn no_slash_before(t: Seq<char>, k: int) -> bool {
    forall|j: int| 0 <= j < k ==> t[j] != '/'
}

/// `s` with every trailing `/` removed.
pub open spec fn spec_trim_trailing_slashes(s: Seq<char>) -> Seq<char>
    decreases s.len(),
{
    if s.len() > 0 && s[s.len() - 1] == '/' {
        spec_trim_trailing_slashes(s.drop_last())
    } else {
        s
    }
}

/// The remainder of `s` after one of the recognized reference prefixes, tried
/// in order, or nothing when no prefix matches.
pub open spec fn spec_ref_rest(s: Seq<char>) -> Option<Seq<char>> {
    if spec_starts_with(s, "github:"@) {
        Some(s.skip("github:"@.len() as int))
    } else if spec_starts_with(s, "https://github.com/"@) {
        Some(s.skip("https://github.com/"@.len() as int))
    } else if spec_starts_with(s, "github.com/"@) {
        Some(s.skip("github.com/"@.len() as int))
    } else {
        None
    }
}

/// Split `t` at its first `/` into an owner and a name, both required
/// non-empty; the name may itself contain further slashes.
pub open spec fn spec_split_ref(t: Seq<char>) -> Option<(Seq<char>, Seq<char>)> {
    if exists|k: int| 0 <= k < t.len() && t[k] == '/' && no_slash_before(t, k) {
        let k = choose|k: int| 0 <= k < t.len() && t[k] == '/' && no_slash_before(t, k);
        if 1 <= k && k + 1 < t.len() {
            Some((t.take(k), t.skip(k + 1)))
        } else {
            None
        }
    } else {
        None
    }
}

/// What `parse_github_ref` returns: the owner and name taken from a
/// `github:`, `https://github.com/` or `github.com/` reference, with
/// trailing slashes ignored.
pub open spec fn spec_parse_github_ref(s: Seq<char>) -> Option<(Seq<char>, Seq<char>)> {
    match spec_ref_rest(s) {
        Option::None => Option::None,
        Option::Some(raw) => spec_split_ref(spec_trim_trailing_slashes(raw)),
    }
}

/// The end of `s` once trailing slashes after `from` are dropped.
fn trim_end_slashes(s: &str, from: usize) -> (end: usize)
    requires
        from <= s@.len(),
    ensures
        from <= end <= s@.len(),
        spec_trim_trailing_slashes(s@.subrange(from as int, s@.len() as int)) == s@.subrange(
            from as int,
            end as int,
        ),
{
    let n: usize = s.unicode_len();
    let mut end: usize = n;
    loop
        invariant
            from <= end <= n,
            n == s@.len(),
            spec_trim_trailing_slashes(s@.subrange(from as int, n as int))
                == spec_trim_trailing_slashes(s@.subrange(from as int, end as int)),
        ensures
            from <= end <= n,
            n == s@.len(),
            spec_trim_trailing_slashes(s@.subrange(from as int, n as int)) == s@.subrange(
                from as int,
                end as int,
            ),
        decreases end,
    {
        if end == from {
            break;
        }
        let c = s.get_char(end - 1);
        if c != '/' {
            proof {
                let cur = s@.subrange(from as int, end as int);
                assert(cur[end - from - 1] == s@[end - 1]);
            }
            break;
        }
        proof {
            let cur = s@.subrange(from as int, end as int);
            assert(cur[end - from - 1] == s@[end - 1]);
            assert(cur.drop_last() =~= s@.subrange(from as int, end - 1));
        }
        end = end - 1;
    }
    end
}

/// Parse a `github:owner/name`, `https://github.com/owner/name` or
/// `github.com/owner/name` reference into its owner and name. Trailing
/// slashes are dropped; a missing or empty owner or name yields nothing.
pub fn parse_github_ref(input: &str) -> (r: Option<(String, String)>)
    ensures
        match r {
            Option::Some(p) => spec_parse_github_ref(input@) == Option::Some((p.0@, p.1@)),
            Option::None => spec_parse_github_ref(input@) is None,
        },
{
    let n: usize = input.unicode_len();
    let p1 = "github:";
    let p2 = "https://github.com/";
    let p3 = "github.com/";
    let pl: usize;
    if str_starts_with(input, p1) {
        pl = p1.unicode_len();
    } else if str_starts_with(input, p2) {
        pl = p2.unicode_len();
    } else if str_starts_with(input, p3) {
        pl = p3.unicode_len();
    } else {
        return None;
    }
    let ghost raw = input@.skip(pl as int);
    assert(spec_ref_rest(input@) == Option::Some(raw));
    proof {
        assert(raw =~= input@.subrange(pl as int, n as int));
    }
    // Drop trailing slashes, then split at the first '/'.
    let end: usize = trim_end_slashes(input, pl);
    let ghost trimmed = input@.subrange(pl as int, end as int);
    let i: usize = find_slash_from(input, pl, end);
    if i == end {
        proof {
            if exists|w: int|
                0 <= w < trimmed.len() && trimmed[w] == '/' && no_slash_before(trimmed, w) {
                let w = choose|w: int|
                    0 <= w < trimmed.len() && trimmed[w] == '/' && no_slash_before(trimmed, w);
                assert(trimmed[w] == input@[pl + w]);
            }
        }
        return None;
    }
    let ghost k = i - pl;
    proof {
        assert(trimmed[k] == input@[i as int]);
        assert forall|j: int| 0 <= j < k implies trimmed[j] != '/' by {
            assert(trimmed[j] == input@[pl + j]);
        }
    }
    assert(exists|w: int|
        0 <= w < trimmed.len() && trimmed[w] == '/' && no_slash_before(trimmed, w));
    proof {
        let w = choose|w: int|
            0 <= w < trimmed.len() && trimmed[w] == '/' && no_slash_before(trimmed, w);
        if w < k {
            assert(trimmed[w] != '/');
        }
        if k < w {
            assert(trimmed[k] != '/');
        }
        assert(w == k);
    }
    if 1 <= i - pl && i + 1 < end {
        let owner = substring_string(input, pl, i);
        let name = substring_string(input, i + 1, end);
        proof {
            assert(owner@ =~= trimmed.take(k));
            assert(name@ =~= trimmed.skip(k + 1));
        }
        Some((owner, name))
    } else {
        None
    }
}

/// The index of the first `/` of `s` in `[from, to)`, or `to` when there is
/// none.
fn find_slash_from(s: &str, from: usize, to: usize) -> (r: usize)
    requires
        from <= to <= s@.len(),
    ensures
        from <= r <= to,
        r < to ==> s@[r as int] == '/',
        forall|j: int| from <= j < r ==> s@[j] != '/',
{
    let mut i: usize = from;
    while i < to
        invariant
            from <= i <= to <= s@.len(),
            forall|j: int| from <= j < i ==> s@[j] != '/',
        decreases to - i,
    {
        if s.get_char(i) == '/' {
            return i;
        }
        i = i + 1;
    }
    to
}

/// `s` with every (non-overlapping, left-to-right) occurrence of the seven
/// characters `github:` removed, as `str::replace` does.
pub open spec fn spec_remove_github(s: Seq<char>) -> Seq<char>
    decreases s.len(),
{
    if s.len() < 7 {
        s
    } else if s.take(7) == "github:"@ {
        spec_remove_github(s.skip(7))
    } else {
        seq![s[0]] + spec_remove_github(s.skip(1))
    }
}

/// Remove every occurrence of `github:` from `s`.
fn remove_github(s: &str) -> (r: String)
    ensures
        r@ == spec_remove_github(s@),
{
    let pat = "github:";
    proof {
        reveal_strlit("github:");
    }
    let n: usize = s.unicode_len();
    let mut out = String::new();
    let mut i: usize = 0;
    proof {
        assert(s@.skip(0) =~= s@);
        assert(out@ + spec_remove_github(s@) =~= spec_remove_github(s@));
    }
    while i < n && n - i >= 7
        invariant
            n == s@.len(),
            i <= n,
            pat@ == "github:"@,
            pat@.len() == 7,
            spec_remove_github(s@) == out@ + spec_remove_github(s@.skip(i as int)),
        decreases n - i,
    {
        let piece = s.substring_char(i, i + 7);
        if str_eq(piece, pat) {
            proof {
                assert(s@.skip(i as int).take(7) =~= s@.subrange(i as int, i + 7));
                assert(s@.skip(i as int).skip(7) =~= s@.skip(i + 7));
            }
            i = i + 7;
        } else {
            proof {
                assert(s@.skip(i as int).take(7) =~= s@.subrange(i as int, i + 7));
                assert(s@.skip(i as int).len() >= 7);
                assert(seq![s@.skip(i as int)[0]] =~= s@.subrange(i as int, i + 1));
                assert(s@.skip(i as int).skip(1) =~= s@.skip(i + 1));
            }
            let c = s.substring_char(i, i + 1);
            let ghost old_out = out@;
            out.append(c);
            proof {
                assert(out@ + spec_remove_github(s@.skip(i + 1)) =~= old_out + (c@
                    + spec_remove_github(s@.skip(i + 1))));
            }
            i = i + 1;
        }
    }
    let tail = s.substring_char(i, n);
    out.append(tail);
    proof {
        assert(s@.skip(i as int) =~= s@.subrange(i as int, n as int));
        assert(s@.skip(i as int).len() < 7);
    }
    out
}

/// The ways a repository reference can be rejected.
#[derive(Debug, Clone, Copy, PartialEq, Eq, Structural)]
pub enum RepoRefError {
    /// The reference began with `http` but is not a well-formed
    /// `https://github.com/owner/name[.git]` URL.
    InvalidUrl,
    /// The reference is not a well-formed `owner/name` slug.
    InvalidSlug,
}

/// What `resolve_repo_url` returns for a given reference.
pub open spec fn spec_resolve_repo_url(s: Seq<char>) -> Result<Seq<char>, RepoRefError> {
    if spec_starts_with(s, "http"@) {
        if spec_is_valid_repo_url(s) {
            Result::Ok(s)
        } else {
            Result::Err(RepoRefError::InvalidUrl)
        }
    } else {
        if spec_is_valid_slug(spec_remove_github(s)) {
            Result::Ok("https://github.com/"@ + spec_remove_github(s) + ".git"@)
        } else {
            Result::Err(RepoRefError::InvalidSlug)
        }
    }
}

/// Turn a request's repository reference into the exact URL handed to the
/// clone subprocess, rejecting anything outside the two accepted shapes
/// before a subprocess could ever see it.
pub fn resolve_repo_url(repo: &str) -> (r: Result<String, RepoRefError>)
    ensures
        match r {
            Result::Ok(u) => spec_resolve_repo_url(repo@) == Result::<Seq<char>, RepoRefError>::Ok(
                u@,
            ),
            Result::Err(e) => spec_resolve_repo_url(repo@) == Result::<
                Seq<char>,
                RepoRefError,
            >::Err(e),
        },
{
    if str_starts_with(repo, "http") {
        if is_valid_repo_url(repo) {
            Ok(repo.to_owned())
        } else {
            Err(RepoRefError::InvalidUrl)
        }
    } else {
        let cleaned = remove_github(repo);
        if is_valid_slug(cleaned.as_str()) {
            let mut url = "https://github.com/".to_owned();
            url.append(cleaned.as_str());
            url.append(".git");
            Ok(url)
        } else {
            Err(RepoRefError::InvalidSlug)
        }
    }
}

/// A string with `/` or a space anywhere in it is never accepted as an owner
/// or repository name: those characters lie outside the safe class.
pub proof fn lemma_name_rejects_separators(s: Seq<char>)
    requires
        exists|i: int| 0 <= i < s.len() && (s[i] == '/' || s[i] == ' ' || s[i] == '\\'),
    ensures
        !(1 <= s.len() <= 255 && all_safe(s)),
{
    let i = choose|i: int| 0 <= i < s.len() && (s[i] == '/' || s[i] == ' ' || s[i] == '\\');
    assert(!is_safe_char(s[i]));
}

} // verus!
