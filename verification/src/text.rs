//! Verified text utilities: equality and substring search over `str`, and
//! decimal rendering of integers, all specified over `Seq<char>` views.

use vstd::prelude::*;
use vstd::string::StrSliceExecFns;
use vstd::string::StringExecFns;

verus! {

/// The pattern `p` occurs in `s` starting at position `i`.
pub open spec fn spec_match_at(s: Seq<char>, i: int, p: Seq<char>) -> bool {
    0 <= i && i + p.len() <= s.len() && s.subrange(i, i + p.len()) == p
}

/// The pattern `p` occurs somewhere in `s`.
pub open spec fn spec_contains(s: Seq<char>, p: Seq<char>) -> bool {
    exists|i: int| spec_match_at(s, i, p)
}

/// Character-wise string equality.
pub fn str_eq_str(a: &str, b: &str) -> (r: bool)
    ensures
        r == (a@ == b@),
{
    let an = a.unicode_len();
    let bn = b.unicode_len();
    if an != bn {
        return false;
    }
    let mut i: usize = 0;
    while i < an
        invariant
            an == a@.len(),
            an == b@.len(),
            i <= an,
            forall|j: int| 0 <= j < i ==> a@[j] == b@[j],
        decreases an - i,
    {
        if a.get_char(i) != b.get_char(i) {
            return false;
        }
        i = i + 1;
    }
    proof {
        assert(a@ =~= b@);
    }
    true
}

/// True when `pat` occurs in `s` at exactly position `at`.
pub fn matches_at(s: &str, at: usize, pat: &str) -> (r: bool)
    requires
        at <= s@.len(),
    ensures
        r == spec_match_at(s@, at as int, pat@),
{
    let sn = s.unicode_len();
    let pn = pat.unicode_len();
    if pn > sn - at {
        return false;
    }
    let mut i: usize = 0;
    while i < pn
        invariant
            sn == s@.len(),
            pn == pat@.len(),
            at + pn <= sn,
            i <= pn,
            forall|j: int| 0 <= j < i ==> s@[at + j] == pat@[j],
        decreases pn - i,
    {
        if s.get_char(at + i) != pat.get_char(i) {
            proof {
                assert(s@.subrange(at as int, at + pat@.len())[i as int] != pat@[i as int]);
            }
            return false;
        }
        i = i + 1;
    }
    proof {
        assert(s@.subrange(at as int, at + pat@.len()) =~= pat@);
    }
    true
}

/// Position of the first occurrence of `pat` in `s`, if there is one.
pub fn find_sub(s: &str, pat: &str) -> (r: Option<usize>)
    ensures
        match r {
            Some(i) => spec_match_at(s@, i as int, pat@) && forall|j: int|
                0 <= j < i ==> !spec_match_at(s@, j, pat@),
            None => !spec_contains(s@, pat@),
        },
{
    let sn = s.unicode_len();
    let mut i: usize = 0;
    while i < sn
        invariant
            sn == s@.len(),
            i <= sn,
            forall|j: int| 0 <= j < i ==> !spec_match_at(s@, j, pat@),
        decreases sn - i,
    {
        if matches_at(s, i, pat) {
            return Some(i);
        }
        i = i + 1;
    }
    if matches_at(s, sn, pat) {
        return Some(sn);
    }
    proof {
        assert forall|j: int| !spec_match_at(s@, j, pat@) by {
            if 0 <= j && j + pat@.len() <= s@.len() {
                assert(j <= s@.len());
            }
        }
    }
    None
}

/// True when `pat` occurs somewhere in `s`.
pub fn contains_sub(s: &str, pat: &str) -> (r: bool)
    ensures
        r == spec_contains(s@, pat@),
{
    find_sub(s, pat).is_some()
}

/// True when `s` starts with `pat`.
pub fn starts_with_sub(s: &str, pat: &str) -> (r: bool)
    ensures
        r == spec_match_at(s@, 0, pat@),
{
    matches_at(s, 0, pat)
}

/// The decimal digit character for a value below ten.
pub open spec fn spec_digit_char(d: int) -> char {
    if d == 0 {
        '0'
    } else if d == 1 {
        '1'
    } else if d == 2 {
        '2'
    } else if d == 3 {
        '3'
    } else if d == 4 {
        '4'
    } else if d == 5 {
        '5'
    } else if d == 6 {
        '6'
    } else if d == 7 {
        '7'
    } else if d == 8 {
        '8'
    } else {
        '9'
    }
}

/// Decimal rendering of a non-negative integer, most significant digit
/// first, with no leading zeros except for zero itself.
pub open spec fn spec_dec(n: int) -> Seq<char>
    decreases n,
{
    if n < 10 {
        seq![spec_digit_char(n)]
    } else {
        spec_dec(n / 10).push(spec_digit_char(n % 10))
    }
}

/// Decimal rendering of a signed integer: a minus sign before the digits of
/// the magnitude when negative.
pub open spec fn spec_dec_signed(n: int) -> Seq<char> {
    if n >= 0 {
        spec_dec(n)
    } else {
        seq!['-'] + spec_dec(-n)
    }
}

/// The one-character string for a decimal digit.
fn digit_str(d: u8) -> (r: &'static str)
    requires
        d < 10,
    ensures
        r@ =~= seq![spec_digit_char(d as int)],
{
    proof {
        reveal_strlit("0");
        reveal_strlit("1");
        reveal_strlit("2");
        reveal_strlit("3");
        reveal_strlit("4");
        reveal_strlit("5");
        reveal_strlit("6");
        reveal_strlit("7");
        reveal_strlit("8");
        reveal_strlit("9");
    }
    match d {
        0 => "0",
        1 => "1",
        2 => "2",
        3 => "3",
        4 => "4",
        5 => "5",
        6 => "6",
        7 => "7",
        8 => "8",
        _ => "9",
    }
}

/// Renders an unsigned integer in decimal.
pub fn u64_to_string(n: u64) -> (r: String)
    ensures
        r@ == spec_dec(n as int),
    decreases n,
{
    if n < 10 {
        digit_str(n as u8).to_owned()
    } else {
        let mut s = u64_to_string(n / 10);
        s.append(digit_str((n % 10) as u8));
        proof {
            assert(s@ =~= spec_dec(n as int));
        }
        s
    }
}

/// Renders a signed integer in decimal.
pub fn i64_to_string(n: i64) -> (r: String)
    ensures
        r@ == spec_dec_signed(n as int),
{
    if n >= 0 {
        u64_to_string(n as u64)
    } else {
        let magnitude: u64 = ((-(n + 1)) as u64) + 1;
        let mut s = "-".to_owned();
        let digits = u64_to_string(magnitude);
        s.append(digits.as_str());
        proof {
            reveal_strlit("-");
            assert(s@ =~= spec_dec_signed(n as int));
        }
        s
    }
}

/// Decimal rendering padded on the left with zeros to at least `width`
/// characters.
pub open spec fn spec_dec_padded(n: int, width: int) -> Seq<char>
    decreases width,
{
    if spec_dec(n).len() >= width {
        spec_dec(n)
    } else {
        seq!['0'] + spec_dec_padded(n, width - 1)
    }
}

/// Renders `n` in decimal, left-padded with zeros to at least `width`
/// characters.
pub fn u64_to_string_padded(n: u64, width: usize) -> (r: String)
    ensures
        r@ == spec_dec_padded(n as int, width as int),
    decreases width,
{
    let plain = u64_to_string(n);
    if plain.as_str().unicode_len() >= width {
        plain
    } else {
        let mut s = "0".to_owned();
        let rest = u64_to_string_padded(n, width - 1);
        s.append(rest.as_str());
        proof {
            reveal_strlit("0");
            assert(s@ =~= spec_dec_padded(n as int, width as int));
        }
        s
    }
}

/// A character that survives file-name sanitizing: an unaccented letter, a
/// digit, a dot, a dash or an underscore.
pub open spec fn spec_filename_char_ok(c: char) -> bool {
    ('a' <= c && c <= 'z') || ('A' <= c && c <= 'Z') || ('0' <= c && c <= '9') || c == '.' || c
        == '-' || c == '_'
}

/// Strips a file name down to letters, digits, dots, dashes and
/// underscores.
pub fn sanitize_filename(filename: &str) -> (r: String)
    ensures
        r@ == filename@.filter(|c: char| spec_filename_char_ok(c)),
{
    let ghost pred = |c: char| spec_filename_char_ok(c);
    let n = filename.unicode_len();
    let mut out = String::new();
    let mut i: usize = 0;
    proof {
        reveal(Seq::filter);
        assert(filename@.subrange(0, 0) =~= Seq::<char>::empty());
        assert(out@ =~= filename@.subrange(0, 0).filter(pred));
    }
    while i < n
        invariant
            n == filename@.len(),
            i <= n,
            pred == (|c: char| spec_filename_char_ok(c)),
            out@ == filename@.subrange(0, i as int).filter(pred),
        decreases n - i,
    {
        proof {
            reveal(Seq::filter);
            assert(filename@.subrange(0, i + 1).drop_last() =~= filename@.subrange(0, i as int));
            assert(filename@.subrange(0, i + 1).last() == filename@[i as int]);
        }
        let c = filename.get_char(i);
        if (c >= 'a' && c <= 'z') || (c >= 'A' && c <= 'Z') || (c >= '0' && c <= '9') || c == '.'
            || c == '-' || c == '_' {
            let piece = filename.substring_char(i, i + 1);
            out.append(piece);
            proof {
                assert(piece@ =~= seq![filename@[i as int]]);
                assert(out@ =~= filename@.subrange(0, i + 1).filter(pred));
            }
        } else {
            proof {
                assert(out@ =~= filename@.subrange(0, i + 1).filter(pred));
            }
        }
        i = i + 1;
    }
    proof {
        assert(filename@.subrange(0, n as int) =~= filename@);
    }
    out
}

/// ASCII whitespace, as trimmed from the ends of a line.
pub open spec fn spec_is_ws_char(c: char) -> bool {
    c == ' ' || c == '\t' || c == '\r' || c == '\n'
}

/// Length of the whitespace prefix of `s`.
pub open spec fn spec_ws_head(s: Seq<char>) -> int
    decreases s.len(),
{
    if s.len() > 0 && spec_is_ws_char(s[0]) {
        1 + spec_ws_head(s.drop_first())
    } else {
        0
    }
}

/// Length of the whitespace suffix of `s`.
pub open spec fn spec_ws_tail(s: Seq<char>) -> int
    decreases s.len(),
{
    if s.len() > 0 && spec_is_ws_char(s.last()) {
        1 + spec_ws_tail(s.drop_last())
    } else {
        0
    }
}

/// `s` with its whitespace prefix and suffix removed.
pub open spec fn spec_trim(s: Seq<char>) -> Seq<char> {
    if spec_ws_head(s) == s.len() {
        Seq::<char>::empty()
    } else {
        s.subrange(spec_ws_head(s), s.len() - spec_ws_tail(s))
    }
}

/// The whitespace prefix is a prefix: whitespace before it, none right
/// after it.
pub proof fn lemma_ws_head(s: Seq<char>)
    ensures
        0 <= spec_ws_head(s) <= s.len(),
        forall|k: int| 0 <= k < spec_ws_head(s) ==> spec_is_ws_char(s[k]),
        spec_ws_head(s) < s.len() ==> !spec_is_ws_char(s[spec_ws_head(s)]),
    decreases s.len(),
{
    if s.len() > 0 && spec_is_ws_char(s[0]) {
        lemma_ws_head(s.drop_first());
        assert forall|k: int| 0 <= k < spec_ws_head(s) implies spec_is_ws_char(s[k]) by {
            if k > 0 {
                assert(s.drop_first()[k - 1] == s[k]);
            }
        }
        if spec_ws_head(s) < s.len() {
            assert(s.drop_first()[spec_ws_head(s) - 1] == s[spec_ws_head(s)]);
        }
    }
}

/// The whitespace suffix is a suffix: whitespace after it, none right
/// before it.
pub proof fn lemma_ws_tail(s: Seq<char>)
    ensures
        0 <= spec_ws_tail(s) <= s.len(),
        forall|k: int| s.len() - spec_ws_tail(s) <= k < s.len() ==> spec_is_ws_char(s[k]),
        spec_ws_tail(s) < s.len() ==> !spec_is_ws_char(s[s.len() - spec_ws_tail(s) - 1]),
    decreases s.len(),
{
    if s.len() > 0 && spec_is_ws_char(s.last()) {
        lemma_ws_tail(s.drop_last());
        assert forall|k: int|
            s.len() - spec_ws_tail(s) <= k < s.len() implies spec_is_ws_char(s[k]) by {
            if k < s.len() - 1 {
                assert(s.drop_last()[k] == s[k]);
            }
        }
        if spec_ws_tail(s) < s.len() {
            assert(s.drop_last()[s.len() - spec_ws_tail(s) - 1] == s[s.len() - spec_ws_tail(s)
                - 1]);
        }
    }
}

/// Whether `c` counts as trimmable whitespace.
fn is_trim_ws(c: char) -> (r: bool)
    ensures
        r == spec_is_ws_char(c),
{
    c == ' ' || c == '\t' || c == '\r' || c == '\n'
}

/// Removes leading and trailing whitespace.
pub fn trim_ws<'a>(s: &'a str) -> (r: &'a str)
    ensures
        r@ == spec_trim(s@),
{
    let n = s.unicode_len();
    let mut a: usize = 0;
    while a < n && is_trim_ws(s.get_char(a))
        invariant
            n == s@.len(),
            a <= n,
            forall|k: int| 0 <= k < a ==> spec_is_ws_char(s@[k]),
        decreases n - a,
    {
        a = a + 1;
    }
    proof {
        lemma_ws_head(s@);
        assert(spec_ws_head(s@) == a as int) by {
            if spec_ws_head(s@) < a as int {
                assert(spec_is_ws_char(s@[spec_ws_head(s@)]));
            }
            if spec_ws_head(s@) > a as int {
                assert(spec_is_ws_char(s@[a as int]));
            }
        }
    }
    if a == n {
        let r = s.substring_char(n, n);
        proof {
            assert(r@ =~= spec_trim(s@));
        }
        return r;
    }
    let mut b: usize = n;
    while b > a + 1 && is_trim_ws(s.get_char(b - 1))
        invariant
            n == s@.len(),
            a < n,
            !spec_is_ws_char(s@[a as int]),
            a + 1 <= b <= n,
            forall|k: int| b <= k < n ==> spec_is_ws_char(s@[k]),
        decreases b,
    {
        b = b - 1;
    }
    proof {
        lemma_ws_tail(s@);
        assert(s@.len() - spec_ws_tail(s@) == b as int) by {
            if s@.len() - spec_ws_tail(s@) < b as int {
                assert(spec_is_ws_char(s@[b - 1]));
            }
            if s@.len() - spec_ws_tail(s@) > b as int {
                assert(spec_is_ws_char(s@[b as int]));
            }
        }
    }
    let r = s.substring_char(a, b);
    proof {
        assert(r@ =~= spec_trim(s@));
    }
    r
}

} // verus!
