use vstd::prelude::*;

use crate::strings::str_eq;

verus! {

/// One source file as the walker reports it: its file name and its line
/// count.
#[derive(Debug)]
pub struct SourceFile {
    pub name: String,
    pub lines: usize,
}

/// Lines of code by language.
#[derive(Debug)]
pub struct LanguageStats {
    /// Language name and its line total, one entry per language, in order
    /// of first appearance.
    pub languages: Vec<(String, usize)>,
    pub total_lines: usize,
}

/// `s` has no `.` after index `k`.
pub open spec fn no_dot_after(s: Seq<char>, k: int) -> bool {
    forall|j: int| k < j < s.len() ==> s[j] != '.'
}

/// The extension of a file name: everything after the last `.`, or the
/// whole name when there is none.
pub open spec fn spec_ext_of(s: Seq<char>) -> Seq<char> {
    if exists|k: int| 0 <= k < s.len() && s[k] == '.' && no_dot_after(s, k) {
        let k = choose|k: int| 0 <= k < s.len() && s[k] == '.' && no_dot_after(s, k);
        s.skip(k + 1)
    } else {
        s
    }
}

/// The language a file extension names, if any.
pub open spec fn spec_lang_of_ext(e: Seq<char>) -> Option<Seq<char>> {
    if e == "ts"@ || e == "tsx"@ {
        Option::Some("TypeScript"@)
    } else if e == "js"@ || e == "jsx"@ || e == "mjs"@ || e == "cjs"@ {
        Option::Some("JavaScript"@)
    } else if e == "rs"@ {
        Option::Some("Rust"@)
    } else if e == "py"@ {
        Option::Some("Python"@)
    } else if e == "go"@ {
        Option::Some("Go"@)
    } else if e == "rb"@ {
        Option::Some("Ruby"@)
    } else if e == "java"@ {
        Option::Some("Java"@)
    } else if e == "css"@ || e == "scss"@ || e == "sass"@ {
        Option::Some("CSS"@)
    } else if e == "html"@ || e == "htm"@ {
        Option::Some("HTML"@)
    } else if e == "svelte"@ {
        Option::Some("Svelte"@)
    } else if e == "vue"@ {
        Option::Some("Vue"@)
    } else if e == "php"@ {
        Option::Some("PHP"@)
    } else if e == "swift"@ {
        Option::Some("Swift"@)
    } else if e == "kt"@ {
        Option::Some("Kotlin"@)
    } else if e == "c"@ || e == "h"@ {
        Option::Some("C"@)
    } else if e == "cpp"@ || e == "cc"@ || e == "hpp"@ {
        Option::Some("C++"@)
    } else if e == "cs"@ {
        Option::Some("C#"@)
    } else {
        Option::None
    }
}

/// The language a file name maps to, by its extension.
pub open spec fn spec_detect_language(s: Seq<char>) -> Option<Seq<char>> {
    spec_lang_of_ext(spec_ext_of(s))
}

fn find_last_dot(s: &str) -> (r: usize)
    ensures
        r <= s@.len(),
        r < s@.len() ==> s@[r as int] == '.' && no_dot_after(s@, r as int),
        r == s@.len() ==> forall|j: int| 0 <= j < s@.len() ==> s@[j] != '.',
{
    let n: usize = s.unicode_len();
    let mut i: usize = n;
    while i > 0
        invariant
            i <= n,
            n == s@.len(),
            forall|j: int| i <= j < n ==> s@[j] != '.',
        decreases i,
    {
        if s.get_char(i - 1) == '.' {
            return i - 1;
        }
        i = i - 1;
    }
    n
}

/// The language a file name maps to: TypeScript for `ts`, Rust for `rs`,
/// and so on through the recognized extensions; nothing for the rest.
pub fn detect_language(filename: &str) -> (r: Option<String>)
    ensures
        match r {
            Option::Some(l) => spec_detect_language(filename@) == Option::Some(l@),
            Option::None => spec_detect_language(filename@) is None,
        },
{
    let n: usize = filename.unicode_len();
    let d: usize = find_last_dot(filename);
    let ext: &str;
    if d < n {
        proof {
            assert(exists|k: int|
                0 <= k < filename@.len() && filename@[k] == '.' && no_dot_after(filename@, k));
            let w = choose|k: int|
                0 <= k < filename@.len() && filename@[k] == '.' && no_dot_after(filename@, k);
            if w < d {
                assert(filename@[d as int] != '.');
            }
            if d < w {
                assert(filename@[w] != '.');
            }
            assert(w == d);
        }
        ext = filename.substring_char(d + 1, n);
        proof {
            assert(ext@ =~= filename@.skip(d + 1));
        }
    } else {
        proof {
            if exists|k: int|
                0 <= k < filename@.len() && filename@[k] == '.' && no_dot_after(filename@, k) {
                let w = choose|k: int|
                    0 <= k < filename@.len() && filename@[k] == '.' && no_dot_after(filename@, k);
                assert(filename@[w] != '.');
            }
        }
        ext = filename;
    }
    if str_eq(ext, "ts") || str_eq(ext, "tsx") {
        Some("TypeScript".to_owned())
    } else if str_eq(ext, "js") || str_eq(ext, "jsx") || str_eq(ext, "mjs") || str_eq(ext, "cjs") {
        Some("JavaScript".to_owned())
    } else if str_eq(ext, "rs") {
        Some("Rust".to_owned())
    } else if str_eq(ext, "py") {
        Some("Python".to_owned())
    } else if str_eq(ext, "go") {
        Some("Go".to_owned())
    } else if str_eq(ext, "rb") {
        Some("Ruby".to_owned())
    } else if str_eq(ext, "java") {
        Some("Java".to_owned())
    } else if str_eq(ext, "css") || str_eq(ext, "scss") || str_eq(ext, "sass") {
        Some("CSS".to_owned())
    } else if str_eq(ext, "html") || str_eq(ext, "htm") {
        Some("HTML".to_owned())
    } else if str_eq(ext, "svelte") {
        Some("Svelte".to_owned())
    } else if str_eq(ext, "vue") {
        Some("Vue".to_owned())
    } else if str_eq(ext, "php") {
        Some("PHP".to_owned())
    } else if str_eq(ext, "swift") {
        Some("Swift".to_owned())
    } else if str_eq(ext, "kt") {
        Some("Kotlin".to_owned())
    } else if str_eq(ext, "c") || str_eq(ext, "h") {
        Some("C".to_owned())
    } else if str_eq(ext, "cpp") || str_eq(ext, "cc") || str_eq(ext, "hpp") {
        Some("C++".to_owned())
    } else if str_eq(ext, "cs") {
        Some("C#".to_owned())
    } else {
        None
    }
}

/// The language table as the specification sees it: names and totals.
pub open spec fn assoc_view(v: Seq<(String, usize)>) -> Seq<(Seq<char>, int)> {
    v.map(|i: int, p: (String, usize)| (p.0@, p.1 as int))
}

/// The first index holding `key`, or -1.
pub open spec fn spec_assoc_find(s: Seq<(Seq<char>, int)>, key: Seq<char>) -> int
    decreases s.len(),
{
    if s.len() == 0 {
        -1
    } else if s[0].0 == key {
        0
    } else {
        let r = spec_assoc_find(s.skip(1), key);
        if r == -1 {
            -1
        } else {
            r + 1
        }
    }
}

proof fn lemma_assoc_find_char(s: Seq<(Seq<char>, int)>, key: Seq<char>)
    ensures
        spec_assoc_find(s, key) == -1 ==> forall|j: int| 0 <= j < s.len() ==> (#[trigger] s[j]).0
            != key,
        spec_assoc_find(s, key) != -1 ==> {
            let f = spec_assoc_find(s, key);
            &&& 0 <= f < s.len()
            &&& s[f].0 == key
            &&& forall|j: int| 0 <= j < f ==> (#[trigger] s[j]).0 != key
        },
    decreases s.len(),
{
    if s.len() > 0 && s[0].0 != key {
        lemma_assoc_find_char(s.skip(1), key);
        let fr = spec_assoc_find(s.skip(1), key);
        if fr == -1 {
            assert forall|j: int| 0 <= j < s.len() implies (#[trigger] s[j]).0 != key by {
                if j > 0 {
                    assert(s.skip(1)[j - 1] == s[j]);
                    assert((s.skip(1)[j - 1]).0 != key);
                }
            }
        } else {
            assert(spec_assoc_find(s, key) == fr + 1);
            assert(s.skip(1)[fr] == s[fr + 1]);
            assert forall|j: int| 0 <= j < fr + 1 implies (#[trigger] s[j]).0 != key by {
                if j > 0 {
                    assert(s.skip(1)[j - 1] == s[j]);
                    assert((s.skip(1)[j - 1]).0 != key);
                }
            }
        }
    }
}

/// The table with `add` lines recorded for `key`: added into its entry if
/// one exists, else appended as a new entry.
pub open spec fn spec_upsert(s: Seq<(Seq<char>, int)>, key: Seq<char>, add: int) -> Seq<
    (Seq<char>, int),
> {
    let f = spec_assoc_find(s, key);
    if f == -1 {
        s.push((key, add))
    } else {
        s.update(f, (key, s[f].1 + add))
    }
}

/// The language table for a list of source files, in order of first
/// appearance.
pub open spec fn spec_lang_totals(files: Seq<SourceFile>) -> Seq<(Seq<char>, int)>
    decreases files.len(),
{
    if files.len() == 0 {
        Seq::empty()
    } else {
        let rest = spec_lang_totals(files.drop_last());
        match spec_detect_language(files.last().name@) {
            Option::Some(lang) => spec_upsert(rest, lang, files.last().lines as int),
            Option::None => rest,
        }
    }
}

/// The lines contributed by files whose language is recognized.
pub open spec fn spec_counted_total(files: Seq<SourceFile>) -> int
    decreases files.len(),
{
    if files.len() == 0 {
        0
    } else {
        spec_counted_total(files.drop_last()) + if spec_detect_language(
            files.last().name@,
        ) is Some {
            files.last().lines as int
        } else {
            0int
        }
    }
}

proof fn lemma_counted_total_take_le(files: Seq<SourceFile>, i: int)
    requires
        0 <= i <= files.len(),
    ensures
        spec_counted_total(files.take(i)) <= spec_counted_total(files),
    decreases files.len(),
{
    if i == files.len() {
        assert(files.take(i) =~= files);
    } else {
        lemma_counted_total_take_le(files.drop_last(), i);
        assert(files.drop_last().take(i) =~= files.take(i));
    }
}

fn find_key(langs: &Vec<(String, usize)>, key: &str) -> (r: usize)
    ensures
        r <= langs@.len(),
        r < langs@.len() ==> r == spec_assoc_find(assoc_view(langs@), key@) && assoc_view(
            langs@,
        )[r as int].0 == key@,
        r == langs@.len() ==> spec_assoc_find(assoc_view(langs@), key@) == -1,
{
    let n = langs.len();
    let mut i: usize = 0;
    while i < n
        invariant
            n == langs@.len(),
            i <= n,
            forall|j: int| 0 <= j < i ==> (#[trigger] assoc_view(langs@)[j]).0 != key@,
        decreases n - i,
    {
        proof {
            assert(assoc_view(langs@)[i as int].0 == langs@[i as int].0@);
        }
        if str_eq(langs[i].0.as_str(), key) {
            proof {
                lemma_assoc_find_char(assoc_view(langs@), key@);
                let f = spec_assoc_find(assoc_view(langs@), key@);
                if f == -1 {
                    assert(assoc_view(langs@)[i as int].0 != key@);
                }
                if f < i {
                    assert(assoc_view(langs@)[f].0 != key@);
                }
                if i < f {
                    assert(assoc_view(langs@)[i as int].0 != key@);
                }
            }
            return i;
        }
        i = i + 1;
    }
    proof {
        lemma_assoc_find_char(assoc_view(langs@), key@);
        let f = spec_assoc_find(assoc_view(langs@), key@);
        if f != -1 {
            assert(assoc_view(langs@)[f].0 != key@);
        }
    }
    n
}

/// Count lines of code by language over the walked source files: each
/// recognized file's lines are added to its language's entry, and the
/// grand total sums every recognized file.
pub fn count_languages(files: &Vec<SourceFile>) -> (r: LanguageStats)
    requires
        spec_counted_total(files@) <= usize::MAX,
    ensures
        assoc_view(r.languages@) == spec_lang_totals(files@),
        r.total_lines == spec_counted_total(files@),
{
    let n = files.len();
    let mut langs: Vec<(String, usize)> = Vec::new();
    let mut total: usize = 0;
    let mut i: usize = 0;
    proof {
        assert(assoc_view(langs@) =~= spec_lang_totals(files@.take(0)));
    }
    while i < n
        invariant
            n == files@.len(),
            i <= n,
            spec_counted_total(files@) <= usize::MAX,
            assoc_view(langs@) == spec_lang_totals(files@.take(i as int)),
            total == spec_counted_total(files@.take(i as int)),
            forall|j: int|
                0 <= j < langs@.len() ==> 0 <= (#[trigger] assoc_view(langs@)[j]).1 <= total,
        decreases n - i,
    {
        let f = &files[i];
        proof {
            assert(files@.take(i + 1).drop_last() =~= files@.take(i as int));
            assert(files@.take(i + 1).last() == files@[i as int]);
            lemma_counted_total_take_le(files@, i + 1);
        }
        match detect_language(f.name.as_str()) {
            Some(lang) => {
                total = total + f.lines;
                let idx = find_key(&langs, lang.as_str());
                let ghost old_assoc = assoc_view(langs@);
                if idx < langs.len() {
                    let old_count = langs[idx].1;
                    let key_back = langs[idx].0.clone();
                    proof {
                        assert(old_assoc[idx as int].1 == old_count as int);
                        assert(old_assoc[idx as int].0 == key_back@);
                    }
                    langs[idx] = (key_back, old_count + f.lines);
                    proof {
                        assert(assoc_view(langs@) =~= old_assoc.update(
                            idx as int,
                            (lang@, old_count + f.lines as int),
                        ));
                    }
                } else {
                    let ghost lang_view = lang@;
                    langs.push((lang, f.lines));
                    proof {
                        assert(assoc_view(langs@) =~= old_assoc.push(
                            (lang_view, files@[i as int].lines as int),
                        ));
                    }
                }
            },
            None => {
            },
        }
        i = i + 1;
    }
    proof {
        assert(files@.take(n as int) =~= files@);
    }
    LanguageStats { languages: langs, total_lines: total }
}

} // verus!
