use vstd::prelude::*;

verus! {

/// `p` is a prefix of `s`.
pub open spec fn spec_starts_with(s: Seq<char>, p: Seq<char>) -> bool {
    p.len() <= s.len() && s.subrange(0, p.len() as int) == p
}

/// Character-by-character equality of two string slices.
pub fn str_eq(a: &str, b: &str) -> (r: bool)
    ensures
        r == (a@ == b@),
{
    let an: usize = a.unicode_len();
    let bn: usize = b.unicode_len();
    if an != bn {
        assert(a@ != b@);
        return false;
    }
    let mut i: usize = 0;
    while i < an
        invariant
            an == a@.len(),
            an == b@.len(),
            i <= an,
            forall|j: int| 0 <= j < i ==> a@[j] == b@[j],
        decreases an - i,
    {
        if a.get_char(i) != b.get_char(i) {
            return false;
        }
        i = i + 1;
    }
    proof {
        assert(a@ =~= b@);
    }
    true
}

/// Whether `s` starts with the prefix `p`, compared character by character.
pub fn str_starts_with(s: &str, p: &str) -> (r: bool)
    ensures
        r == spec_starts_with(s@, p@),
{
    let sn: usize = s.unicode_len();
    let pn: usize = p.unicode_len();
    if pn > sn {
        return false;
    }
    let mut i: usize = 0;
    while i < pn
        invariant
            sn == s@.len(),
            pn == p@.len(),
            pn <= sn,
            i <= pn,
            forall|j: int| 0 <= j < i ==> s@[j] == p@[j],
        decreases pn - i,
    {
        if s.get_char(i) != p.get_char(i) {
            assert(s@.subrange(0, pn as int)[i as int] != p@[i as int]);
            return false;
        }
        i = i + 1;
    }
    proof {
        assert(s@.subrange(0, pn as int) =~= p@);
    }
    true
}

/// Lexicographic order on character sequences, by code point.
pub open spec fn spec_lex_le(a: Seq<char>, b: Seq<char>) -> bool
    decreases a.len(),
{
    if a.len() == 0 {
        true
    } else if b.len() == 0 {
        false
    } else if (a[0] as u32) < (b[0] as u32) {
        true
    } else if (a[0] as u32) > (b[0] as u32) {
        false
    } else {
        spec_lex_le(a.skip(1), b.skip(1))
    }
}

/// Whether `a` is lexicographically at most `b`, by code point.
pub fn str_lex_le(a: &str, b: &str) -> (r: bool)
    ensures
        r == spec_lex_le(a@, b@),
{
    let an: usize = a.unicode_len();
    let bn: usize = b.unicode_len();
    let mut i: usize = 0;
    proof {
        assert(a@.skip(0) =~= a@);
        assert(b@.skip(0) =~= b@);
    }
    loop
        invariant
            an == a@.len(),
            bn == b@.len(),
            i <= an,
            i <= bn,
            spec_lex_le(a@, b@) == spec_lex_le(a@.skip(i as int), b@.skip(i as int)),
        decreases an - i,
    {
        if i == an {
            assert(a@.skip(i as int).len() == 0);
            return true;
        }
        if i == bn {
            assert(b@.skip(i as int).len() == 0 && a@.skip(i as int).len() > 0);
            return false;
        }
        let ca: u32 = a.get_char(i) as u32;
        let cb: u32 = b.get_char(i) as u32;
        assert(a@.skip(i as int)[0] == a@[i as int]);
        assert(b@.skip(i as int)[0] == b@[i as int]);
        if ca < cb {
            return true;
        }
        if ca > cb {
            return false;
        }
        proof {
            assert(a@.skip(i as int).skip(1) =~= a@.skip(i + 1));
            assert(b@.skip(i as int).skip(1) =~= b@.skip(i + 1));
        }
        i = i + 1;
    }
}

/// The decimal digit character for a value below ten.
pub open spec fn spec_digit_char(d: int) -> char {
    if d == 0 {
        '0'
    } else if d == 1 {
        '1'
    } else if d == 2 {
        '2'
    } else if d == 3 {
        '3'
    } else if d == 4 {
        '4'
    } else if d == 5 {
        '5'
    } else if d == 6 {
        '6'
    } else if d == 7 {
        '7'
    } else if d == 8 {
        '8'
    } else {
        '9'
    }
}

/// A one-character string slice holding the digit `d`.
pub fn digit_str(d: u64) -> (r: &'static str)
    requires
        d < 10,
    ensures
        r@ =~= seq![spec_digit_char(d as int)],
{
    proof {
        reveal_strlit("0");
        reveal_strlit("1");
        reveal_strlit("2");
        reveal_strlit("3");
        reveal_strlit("4");
        reveal_strlit("5");
        reveal_strlit("6");
        reveal_strlit("7");
        reveal_strlit("8");
        reveal_strlit("9");
    }
    match d {
        0 => "0",
        1 => "1",
        2 => "2",
        3 => "3",
        4 => "4",
        5 => "5",
        6 => "6",
        7 => "7",
        8 => "8",
        _ => "9",
    }
}

/// The decimal digit characters of `n`, most significant first, no leading
/// zeros except for zero itself.
pub open spec fn spec_decimal(n: int) -> Seq<char>
    decreases n,
{
    if n < 10 {
        seq![spec_digit_char(n)]
    } else {
        spec_decimal(n / 10).push(spec_digit_char(n % 10))
    }
}

/// Render `n` in decimal.
pub fn u64_to_string(n: u64) -> (r: String)
    ensures
        r@ == spec_decimal(n as int),
    decreases n,
{
    if n < 10 {
        digit_str(n).to_owned()
    } else {
        let mut s = u64_to_string(n / 10);
        s.append(digit_str(n % 10));
        proof {
            assert(s@ =~= spec_decimal(n as int));
        }
        s
    }
}

/// The decimal rendering of a possibly negative number.
pub open spec fn spec_int_decimal(n: int) -> Seq<char> {
    if n >= 0 {
        spec_decimal(n)
    } else {
        seq!['-'] + spec_decimal(-n)
    }
}

/// Render a signed value in decimal.
pub fn i64_to_string(n: i64) -> (r: String)
    requires
        n != i64::MIN,
    ensures
        r@ == spec_int_decimal(n as int),
{
    if n >= 0 {
        u64_to_string(n as u64)
    } else {
        proof {
            reveal_strlit("-");
        }
        let mut s = "-".to_owned();
        let mag: u64 = (-n) as u64;
        let digits = u64_to_string(mag);
        s.append(digits.as_str());
        proof {
            assert("-"@ =~= seq!['-']);
            assert(s@ =~= spec_int_decimal(n as int));
        }
        s
    }
}

/// The decimal digits of `n` left-padded with zeros to `width` characters;
/// `n` must fit in that many digits.
pub open spec fn spec_decimal_padded(n: int, width: int) -> Seq<char>
    decreases width,
{
    if width <= 1 {
        seq![spec_digit_char(n % 10)]
    } else {
        spec_decimal_padded(n / 10, width - 1).push(spec_digit_char(n % 10))
    }
}

/// Render `n` as exactly `width` decimal digits, zero-padded on the left.
pub fn u64_to_padded(n: u64, width: u64) -> (r: String)
    requires
        1 <= width <= 10,
    ensures
        r@ == spec_decimal_padded(n as int, width as int),
        r@.len() == width,
    decreases width,
{
    if width <= 1 {
        let r = digit_str(n % 10).to_owned();
        proof {
            assert(r@ =~= spec_decimal_padded(n as int, width as int));
        }
        r
    } else {
        let mut s = u64_to_padded(n / 10, width - 1);
        s.append(digit_str(n % 10));
        proof {
            assert(s@ =~= spec_decimal_padded(n as int, width as int));
        }
        s
    }
}

/// Copy the characters of `s` in `[from, to)` into an owned string.
pub fn substring_string(s: &str, from: usize, to: usize) -> (r: String)
    requires
        from <= to <= s@.len(),
    ensures
        r@ == s@.subrange(from as int, to as int),
{
    let piece = s.substring_char(from, to);
    piece.to_owned()
}

/// The index of the first occurrence of `c` in `s` within `[from, to)`, or
/// `to` when there is none.
pub fn find_char_from(s: &str, from: usize, to: usize, c: char) -> (r: usize)
    requires
        from <= to <= s@.len(),
    ensures
        from <= r <= to,
        r < to ==> s@[r as int] == c,
        forall|j: int| from <= j < r ==> s@[j] != c,
{
    let mut i: usize = from;
    while i < to
        invariant
            from <= i <= to <= s@.len(),
            forall|j: int| from <= j < i ==> s@[j] != c,
        decreases to - i,
    {
        if s.get_char(i) == c {
            return i;
        }
        i = i + 1;
    }
    to
}

/// A character with the Unicode `White_Space` property.
pub open spec fn is_wspace(c: char) -> bool {
    let u = c as u32;
    (9 <= u && u <= 13) || u == 32 || u == 133 || u == 160 || u == 0x1680 || (0x2000 <= u && u
        <= 0x200A) || u == 0x2028 || u == 0x2029 || u == 0x202F || u == 0x205F || u == 0x3000
}

fn wspace(c: char) -> (r: bool)
    ensures
        r == is_wspace(c),
{
    let u = c as u32;
    (9 <= u && u <= 13) || u == 32 || u == 133 || u == 160 || u == 0x1680 || (0x2000 <= u && u
        <= 0x200A) || u == 0x2028 || u == 0x2029 || u == 0x202F || u == 0x205F || u == 0x3000
}

/// `s` with leading whitespace removed.
pub open spec fn spec_trim_start(s: Seq<char>) -> Seq<char>
    decreases s.len(),
{
    if s.len() > 0 && is_wspace(s[0]) {
        spec_trim_start(s.skip(1))
    } else {
        s
    }
}

/// `s` with trailing whitespace removed.
pub open spec fn spec_trim_end(s: Seq<char>) -> Seq<char>
    decreases s.len(),
{
    if s.len() > 0 && is_wspace(s.last()) {
        spec_trim_end(s.drop_last())
    } else {
        s
    }
}

/// `s` with whitespace removed from both ends.
pub open spec fn spec_trim(s: Seq<char>) -> Seq<char> {
    spec_trim_end(spec_trim_start(s))
}

/// The bounds of `s` once surrounding whitespace is dropped: the trimmed
/// text is exactly `s[r.0 .. r.1]`.
pub fn trim_bounds(s: &str) -> (r: (usize, usize))
    ensures
        r.0 <= r.1 <= s@.len(),
        s@.subrange(r.0 as int, r.1 as int) == spec_trim(s@),
{
    let n: usize = s.unicode_len();
    let mut a: usize = 0;
    proof {
        assert(s@.skip(0) =~= s@);
    }
    loop
        invariant
            a <= n,
            n == s@.len(),
            spec_trim_start(s@) == spec_trim_start(s@.skip(a as int)),
        ensures
            a <= n,
            n == s@.len(),
            spec_trim_start(s@) == s@.skip(a as int),
        decreases n - a,
    {
        if a == n {
            assert(s@.skip(a as int).len() == 0);
            break;
        }
        if !wspace(s.get_char(a)) {
            assert(s@.skip(a as int)[0] == s@[a as int]);
            break;
        }
        proof {
            assert(s@.skip(a as int)[0] == s@[a as int]);
            assert(s@.skip(a as int).skip(1) =~= s@.skip(a + 1));
        }
        a = a + 1;
    }
    let mut b: usize = n;
    proof {
        assert(s@.skip(a as int) =~= s@.subrange(a as int, n as int));
    }
    loop
        invariant
            a <= b <= n,
            n == s@.len(),
            spec_trim_start(s@) == s@.subrange(a as int, n as int),
            spec_trim(s@) == spec_trim_end(s@.subrange(a as int, b as int)),
        ensures
            a <= b <= n,
            spec_trim(s@) == s@.subrange(a as int, b as int),
        decreases b,
    {
        if b == a {
            assert(s@.subrange(a as int, b as int).len() == 0);
            break;
        }
        if !wspace(s.get_char(b - 1)) {
            assert(s@.subrange(a as int, b as int).last() == s@[b - 1]);
            break;
        }
        proof {
            assert(s@.subrange(a as int, b as int).last() == s@[b - 1]);
            assert(s@.subrange(a as int, b as int).drop_last() =~= s@.subrange(a as int, b - 1));
        }
        b = b - 1;
    }
    (a, b)
}

/// `needle` occurs in `hay` starting at some position.
pub open spec fn spec_contains_sub(hay: Seq<char>, needle: Seq<char>) -> bool {
    exists|i: int|
        0 <= i <= hay.len() - needle.len() && #[trigger] hay.subrange(i, i + needle.len())
            == needle
}

/// Whether `needle` occurs anywhere in `hay`.
pub fn contains_sub(hay: &str, needle: &str) -> (r: bool)
    ensures
        r == spec_contains_sub(hay@, needle@),
{
    let hn: usize = hay.unicode_len();
    let nn: usize = needle.unicode_len();
    if nn > hn {
        return false;
    }
    if nn == 0 {
        proof {
            assert(hay@.subrange(0, 0 + needle@.len() as int) =~= needle@);
            assert(spec_contains_sub(hay@, needle@));
        }
        return true;
    }
    let mut i: usize = 0;
    while i <= hn - nn
        invariant
            1 <= nn <= hn,
            hn == hay@.len(),
            nn == needle@.len(),
            i <= hn - nn + 1,
            forall|j: int| 0 <= j < i ==> #[trigger] hay@.subrange(j, j + nn as int) != needle@,
        decreases hn + 1 - nn - i,
    {
        let piece = hay.substring_char(i, i + nn);
        if str_eq(piece, needle) {
            return true;
        }
        i = i + 1;
    }
    false
}

/// The number of non-overlapping occurrences of `needle` in `hay`, found
/// left to right, for a non-empty `needle`.
pub open spec fn spec_count_occ(hay: Seq<char>, needle: Seq<char>) -> int
    decreases hay.len(),
{
    if needle.len() == 0 || hay.len() < needle.len() {
        0
    } else if hay.take(needle.len() as int) == needle {
        1 + spec_count_occ(hay.skip(needle.len() as int), needle)
    } else {
        spec_count_occ(hay.skip(1), needle)
    }
}

/// Count the non-overlapping occurrences of `needle` in `hay`.
pub fn count_occurrences(hay: &str, needle: &str) -> (r: usize)
    requires
        needle@.len() > 0,
    ensures
        r == spec_count_occ(hay@, needle@),
{
    let hn: usize = hay.unicode_len();
    let nn: usize = needle.unicode_len();
    let mut count: usize = 0;
    let mut i: usize = 0;
    proof {
        assert(hay@.skip(0) =~= hay@);
    }
    while i < hn && hn - i >= nn
        invariant
            nn == needle@.len(),
            nn > 0,
            hn == hay@.len(),
            i <= hn,
            count <= i,
            count + spec_count_occ(hay@.skip(i as int), needle@) == spec_count_occ(hay@, needle@),
        decreases hn - i,
    {
        let piece = hay.substring_char(i, i + nn);
        proof {
            assert(hay@.skip(i as int).take(nn as int) =~= hay@.subrange(i as int, i + nn));
            assert(hay@.skip(i as int).skip(nn as int) =~= hay@.skip(i + nn));
            assert(hay@.skip(i as int).skip(1) =~= hay@.skip(i + 1));
        }
        if str_eq(piece, needle) {
            count = count + 1;
            i = i + nn;
        } else {
            i = i + 1;
        }
    }
    proof {
        assert(spec_count_occ(hay@.skip(i as int), needle@) == 0);
    }
    count
}

/// One line stripped of a trailing carriage return.
pub open spec fn spec_strip_cr(l: Seq<char>) -> Seq<char> {
    if l.len() > 0 && l.last() == '\r' {
        l.drop_last()
    } else {
        l
    }
}

/// The lines of `s`, split on `\n`, each stripped of a trailing `\r`; a
/// final newline produces no empty last line.
pub open spec fn spec_lines(s: Seq<char>) -> Seq<Seq<char>>
    decreases s.len(),
{
    if s.len() == 0 {
        Seq::empty()
    } else if exists|k: int| 0 <= k < s.len() && s[k] == '\n' && no_nl_before(s, k) {
        let k = choose|k: int| 0 <= k < s.len() && s[k] == '\n' && no_nl_before(s, k);
        seq![spec_strip_cr(s.take(k))] + spec_lines(s.skip(k + 1))
    } else {
        seq![spec_strip_cr(s)]
    }
}

/// `s` has no newline before index `k`.
pub open spec fn no_nl_before(s: Seq<char>, k: int) -> bool {
    forall|j: int| 0 <= j < k ==> s[j] != '\n'
}

/// Split `s` into its lines.
#[verifier::rlimit(60)]
pub fn split_lines(s: &str) -> (r: Vec<String>)
    ensures
        r.deep_view() == spec_lines(s@),
{
    let n: usize = s.unicode_len();
    let mut r: Vec<String> = Vec::new();
    let mut pos: usize = 0;
    proof {
        assert(s@.skip(0) =~= s@);
        assert(r.deep_view() + spec_lines(s@) =~= spec_lines(s@));
    }
    while pos < n
        invariant
            pos <= n,
            n == s@.len(),
            spec_lines(s@) == r.deep_view() + spec_lines(s@.skip(pos as int)),
        decreases n - pos,
    {
        let ghost suffix = s@.skip(pos as int);
        let k: usize = find_char_from(s, pos, n, '\n');
        // The line body is [pos, k), minus a trailing '\r'.
        let mut stop: usize = k;
        if k > pos && s.get_char(k - 1) == '\r' {
            stop = k - 1;
        }
        let line = substring_string(s, pos, stop);
        let ghost old_deep = r.deep_view();
        r.push(line);
        proof {
            assert(r.deep_view() =~= old_deep.push(line@));
            // Relate the found newline to the spec's split of the suffix.
            assert(suffix.len() > 0);
            if k < n {
                let kk = k - pos;
                assert(suffix[kk] == s@[k as int]);
                assert forall|j: int| 0 <= j < kk implies suffix[j] != '\n' by {
                    assert(suffix[j] == s@[pos + j]);
                }
                let w = choose|w: int|
                    0 <= w < suffix.len() && suffix[w] == '\n' && no_nl_before(suffix, w);
                if w < kk {
                    assert(suffix[w] != '\n');
                }
                if kk < w {
                    assert(suffix[kk] != '\n');
                }
                assert(w == kk);
                assert(suffix.take(kk) =~= s@.subrange(pos as int, k as int));
                if stop < k {
                    assert(suffix.take(kk).last() == s@[k - 1]);
                    assert(suffix.take(kk).drop_last() =~= s@.subrange(pos as int, stop as int));
                } else {
                    if suffix.take(kk).len() > 0 {
                        assert(suffix.take(kk).last() == s@[k - 1]);
                    }
                }
                assert(line@ == spec_strip_cr(suffix.take(kk)));
                assert(suffix.skip(kk + 1) =~= s@.skip(k + 1));
                assert(spec_lines(suffix) == seq![spec_strip_cr(suffix.take(kk))] + spec_lines(
                    s@.skip(k + 1),
                ));
                assert(r.deep_view() + spec_lines(s@.skip(k + 1)) =~= old_deep + spec_lines(
                    suffix,
                ));
            } else {
                // No newline in the rest: this is the final line.
                if exists|w: int| 0 <= w < suffix.len() && suffix[w] == '\n' && no_nl_before(
                    suffix,
                    w,
                ) {
                    let w = choose|w: int|
                        0 <= w < suffix.len() && suffix[w] == '\n' && no_nl_before(suffix, w);
                    assert(suffix[w] == s@[pos + w]);
                }
                assert(suffix =~= s@.subrange(pos as int, n as int));
                if stop < k {
                    assert(suffix.last() == s@[k - 1]);
                    assert(suffix.drop_last() =~= s@.subrange(pos as int, stop as int));
                } else {
                    if suffix.len() > 0 {
                        assert(suffix.last() == s@[n - 1]);
                    }
                }
                assert(line@ == spec_strip_cr(suffix));
                assert(spec_lines(suffix) == seq![spec_strip_cr(suffix)]);
                assert(s@.skip(n as int).len() == 0);
                assert(r.deep_view() + spec_lines(s@.skip(n as int)) =~= old_deep + spec_lines(
                    suffix,
                ));
            }
        }
        if k < n {
            pos = k + 1;
        } else {
            pos = n;
        }
    }
    proof {
        assert(spec_lines(s@.skip(pos as int)) =~= Seq::<Seq<char>>::empty());
        assert(r.deep_view() + Seq::<Seq<char>>::empty() =~= r.deep_view());
    }
    r
}

} // verus!
