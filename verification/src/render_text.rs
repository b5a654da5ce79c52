use vstd::prelude::*;

use crate::strings::spec_decimal;
use crate::strings::spec_digit_char;
use crate::strings::u64_to_string;
use crate::strings::digit_str;
use crate::strings::str_eq;

verus! {

/// The terminal column width of one character: zero for variation
/// selectors, joiners and keycap marks; two for emoji, regional
/// indicators, CJK and full-width forms; one for everything else.
pub open spec fn spec_char_width(c: char) -> int {
    let u = c as u32;
    if (0xFE00 <= u && u <= 0xFE0F) || u == 0x200D || u == 0x20E3 {
        0
    } else if (0x1F300 <= u && u <= 0x1F9FF) || (0x2600 <= u && u <= 0x27BF) || (0x2B50 <= u && u
        <= 0x2B55) {
        2
    } else if 0x1F1E0 <= u && u <= 0x1F1FF {
        2
    } else if u < 0x80 {
        1
    } else if (0x2E80 <= u && u <= 0x9FFF) || (0xF900 <= u && u <= 0xFAFF) || (0xFE30 <= u && u
        <= 0xFE4F) {
        2
    } else if (0xFF01 <= u && u <= 0xFF60) || (0xFFE0 <= u && u <= 0xFFE6) {
        2
    } else {
        1
    }
}

/// The terminal column width of a string: the sum of its characters'
/// widths.
pub open spec fn spec_display_width(s: Seq<char>) -> int
    decreases s.len(),
{
    if s.len() == 0 {
        0
    } else {
        spec_display_width(s.drop_last()) + spec_char_width(s.last())
    }
}

fn char_width(c: char) -> (r: usize)
    ensures
        r == spec_char_width(c),
{
    let u: u32 = c as u32;
    if (0xFE00 <= u && u <= 0xFE0F) || u == 0x200D || u == 0x20E3 {
        0
    } else if (0x1F300 <= u && u <= 0x1F9FF) || (0x2600 <= u && u <= 0x27BF) || (0x2B50 <= u && u
        <= 0x2B55) {
        2
    } else if 0x1F1E0 <= u && u <= 0x1F1FF {
        2
    } else if u < 0x80 {
        1
    } else if (0x2E80 <= u && u <= 0x9FFF) || (0xF900 <= u && u <= 0xFAFF) || (0xFE30 <= u && u
        <= 0xFE4F) {
        2
    } else if (0xFF01 <= u && u <= 0xFF60) || (0xFFE0 <= u && u <= 0xFFE6) {
        2
    } else {
        1
    }
}

/// The width never exceeds two columns per character.
proof fn lemma_display_width_bound(s: Seq<char>)
    ensures
        0 <= spec_display_width(s) <= 2 * s.len(),
    decreases s.len(),
{
    if s.len() > 0 {
        lemma_display_width_bound(s.drop_last());
    }
}

/// The number of terminal columns `s` occupies, approximating East Asian
/// widths and the emoji ranges the reports use.
pub fn display_width(s: &str) -> (r: usize)
    requires
        2 * s@.len() <= usize::MAX,
    ensures
        r == spec_display_width(s@),
{
    let n: usize = s.unicode_len();
    let mut w: usize = 0;
    let mut i: usize = 0;
    while i < n
        invariant
            n == s@.len(),
            2 * n <= usize::MAX,
            i <= n,
            w == spec_display_width(s@.take(i as int)),
        decreases n - i,
    {
        proof {
            lemma_display_width_bound(s@.take(i as int));
            assert(s@.take(i + 1).drop_last() =~= s@.take(i as int));
            assert(s@.take(i + 1).last() == s@[i as int]);
        }
        w = w + char_width(s.get_char(i));
        i = i + 1;
    }
    proof {
        assert(s@.take(n as int) =~= s@);
    }
    w
}

/// A count rendered for people: plain below one thousand, otherwise tenths
/// of thousands (`K`) or millions (`M`), rounding half upward.
pub open spec fn spec_fmt_num(n: int) -> Seq<char> {
    if n >= 1000000 {
        let t = n / 100000 + (n % 100000 + 50000) / 100000;
        spec_decimal(t / 10) + seq!['.', spec_digit_char(t % 10), 'M']
    } else if n >= 1000 {
        let t = n / 100 + (n % 100 + 50) / 100;
        spec_decimal(t / 10) + seq!['.', spec_digit_char(t % 10), 'K']
    } else {
        spec_decimal(n)
    }
}

/// Render a count the way the report shows it: `1.5K`, `1.5M`, or the
/// plain number below one thousand.
pub fn fmt_num(n: usize) -> (r: String)
    ensures
        r@ == spec_fmt_num(n as int),
{
    proof {
        reveal_strlit(".");
        reveal_strlit("M");
        reveal_strlit("K");
    }
    let v: u64 = n as u64;
    if v >= 1000000 {
        let t: u64 = v / 100000 + (v % 100000 + 50000) / 100000;
        let mut s = u64_to_string(t / 10);
        s.append(".");
        s.append(digit_str(t % 10));
        s.append("M");
        proof {
            assert("."@ =~= seq!['.']);
            assert("M"@ =~= seq!['M']);
            assert(s@ =~= spec_fmt_num(n as int));
        }
        s
    } else if v >= 1000 {
        let t: u64 = v / 100 + (v % 100 + 50) / 100;
        let mut s = u64_to_string(t / 10);
        s.append(".");
        s.append(digit_str(t % 10));
        s.append("K");
        proof {
            assert("."@ =~= seq!['.']);
            assert("K"@ =~= seq!['K']);
            assert(s@ =~= spec_fmt_num(n as int));
        }
        s
    } else {
        u64_to_string(v)
    }
}

/// The emoji string shown beside a letter grade.
pub open spec fn spec_emoji_for_grade(g: Seq<char>) -> Seq<char> {
    if g == "S+"@ {
        "\u{1F451}\u{1F525}\u{1F525}"@
    } else if g == "S"@ {
        "\u{1F525}\u{1F525}\u{1F525}"@
    } else if g == "A+"@ {
        "\u{1F525}\u{1F525}"@
    } else if g == "A"@ {
        "\u{1F525}"@
    } else if g == "B+"@ {
        "\u{26A1}"@
    } else if g == "B"@ {
        "\u{1F916}"@
    } else if g == "C+"@ {
        "\u{1F6E0}\u{FE0F}"@
    } else if g == "C"@ {
        "\u{1F331}"@
    } else if g == "D"@ {
        "\u{270D}\u{FE0F}"@
    } else {
        "\u{1F9D1}\u{200D}\u{1F4BB}"@
    }
}

/// The emoji shown beside a grade in the rendered report.
pub fn emoji_for_grade(grade: &str) -> (r: &'static str)
    ensures
        r@ == spec_emoji_for_grade(grade@),
{
    if str_eq(grade, "S+") {
        "\u{1F451}\u{1F525}\u{1F525}"
    } else if str_eq(grade, "S") {
        "\u{1F525}\u{1F525}\u{1F525}"
    } else if str_eq(grade, "A+") {
        "\u{1F525}\u{1F525}"
    } else if str_eq(grade, "A") {
        "\u{1F525}"
    } else if str_eq(grade, "B+") {
        "\u{26A1}"
    } else if str_eq(grade, "B") {
        "\u{1F916}"
    } else if str_eq(grade, "C+") {
        "\u{1F6E0}\u{FE0F}"
    } else if str_eq(grade, "C") {
        "\u{1F331}"
    } else if str_eq(grade, "D") {
        "\u{270D}\u{FE0F}"
    } else {
        "\u{1F9D1}\u{200D}\u{1F4BB}"
    }
}

} // verus!
