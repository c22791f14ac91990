//! Message-id generation and translation-id extraction.
//!
//! A message id is derived from the md5 digest of the message text (and,
//! when present, its meaning attribute), combined and masked exactly as
//! the translation tooling does.  Extraction pulls `id="..."` values and
//! element text out of translation file lines.

use vstd::prelude::*;
use vstd::string::StrSliceExecFns;
use crate::text::spec_contains;
use crate::text::spec_match_at;

verus! {

/// Helpers for searching translation ids in a source tree.
pub struct IdFinder;

/// What translation-file search asks for.
#[derive(Debug)]
pub struct SearchIdRequest {
    pub search_text: String,
}

/// What translation-file search answers: matching ids, their translations,
/// and matching message definitions.
#[derive(Debug)]
pub struct SearchIdResponse {
    pub ids: Vec<String>,
    pub messages: Vec<String>,
    pub grd_matches: Vec<String>,
}

/// What message-id generation asks for.
#[derive(Debug)]
pub struct GenerateIdRequest {
    pub message: String,
    pub meaning: Option<String>,
}

/// What message-id generation answers.
#[derive(Debug)]
pub struct GenerateIdResponse {
    pub message_id: String,
}

/// Translation files of a source tree, sorted by kind.
#[derive(Debug)]
pub struct FileCategories {
    pub zh_cn_files: Vec<String>,
    pub en_us_files: Vec<String>,
    pub en_gb_files: Vec<String>,
    pub grd_files: Vec<String>,
    pub grdp_files: Vec<String>,
}

/// The lower-hex md5 digest of a text; it depends on the text alone.
pub uninterp spec fn md5_hex_of(s: Seq<char>) -> Seq<char>;

/// A lower-case hexadecimal digit.
pub open spec fn spec_is_hex_digit(c: char) -> bool {
    c == '0' || c == '1' || c == '2' || c == '3' || c == '4' || c == '5' || c == '6' || c == '7'
        || c == '8' || c == '9' || c == 'a' || c == 'b' || c == 'c' || c == 'd' || c == 'e' || c
        == 'f'
}

/// Relies on md5::compute and the digest's lower-hex rendering: 32 lower
/// hexadecimal digits that depend on the input text alone.
#[verifier::external_body]
fn md5_hex(s: &str) -> (r: String)
    ensures
        r@ == md5_hex_of(s@),
        r@.len() == 32,
        forall|i: int| 0 <= i < r@.len() ==> spec_is_hex_digit(#[trigger] r@[i]),
{
    format!("{:x}", md5::compute(s))
}

/// The value of a hexadecimal digit; zero for anything else.
pub open spec fn spec_hex_digit_val(c: char) -> int {
    if c == '0' {
        0
    } else if c == '1' {
        1
    } else if c == '2' {
        2
    } else if c == '3' {
        3
    } else if c == '4' {
        4
    } else if c == '5' {
        5
    } else if c == '6' {
        6
    } else if c == '7' {
        7
    } else if c == '8' {
        8
    } else if c == '9' {
        9
    } else if c == 'a' {
        10
    } else if c == 'b' {
        11
    } else if c == 'c' {
        12
    } else if c == 'd' {
        13
    } else if c == 'e' {
        14
    } else if c == 'f' {
        15
    } else {
        0
    }
}

/// The value of a big-endian hexadecimal digit string.
pub open spec fn spec_hex_val(s: Seq<char>) -> int
    decreases s.len(),
{
    if s.len() == 0 {
        0
    } else {
        spec_hex_val(s.drop_last()) * 16 + spec_hex_digit_val(s.last())
    }
}

/// Sixteen to the power `n`.
pub open spec fn spec_pow16(n: int) -> int
    decreases n,
{
    if n <= 0 {
        1
    } else {
        16 * spec_pow16(n - 1)
    }
}

/// A hexadecimal string's value is below sixteen to its length.
pub proof fn lemma_hex_val_bound(s: Seq<char>)
    ensures
        0 <= spec_hex_val(s) < spec_pow16(s.len() as int),
    decreases s.len(),
{
    if s.len() > 0 {
        lemma_hex_val_bound(s.drop_last());
    }
}

/// The value of a hexadecimal digit character.
fn hex_digit_val(c: char) -> (r: u64)
    ensures
        r as int == spec_hex_digit_val(c),
        r < 16,
{
    match c {
        '0' => 0,
        '1' => 1,
        '2' => 2,
        '3' => 3,
        '4' => 4,
        '5' => 5,
        '6' => 6,
        '7' => 7,
        '8' => 8,
        '9' => 9,
        'a' => 10,
        'b' => 11,
        'c' => 12,
        'd' => 13,
        'e' => 14,
        'f' => 15,
        _ => 0,
    }
}

/// The fingerprint of a text: the first sixteen hex digits of its md5
/// digest, read as a 64-bit value.
pub open spec fn spec_fingerprint(s: Seq<char>) -> int {
    spec_hex_val(md5_hex_of(s).subrange(0, 16))
}

/// Reads the first sixteen hexadecimal digits of the digest of `s`.
fn fingerprint_bits(s: &str) -> (r: u64)
    ensures
        r as int == spec_fingerprint(s@),
{
    let digest = md5_hex(s);
    let mut acc: u64 = 0;
    let mut i: usize = 0;
    proof {
        assert(digest@.subrange(0, 0) =~= Seq::<char>::empty());
        reveal_with_fuel(spec_pow16, 18);
    }
    while i < 16
        invariant
            digest@.len() == 32,
            i <= 16,
            acc as int == spec_hex_val(digest@.subrange(0, i as int)),
            (acc as int) < spec_pow16(i as int),
            spec_pow16(16) == 0x10000000000000000,
            forall|k: int| 0 <= k < i ==> #[trigger] spec_pow16(k) * 16 == spec_pow16(k + 1),
            forall|k: int| 0 <= k <= 16 ==> #[trigger] spec_pow16(k) <= spec_pow16(16),
        decreases 16 - i,
    {
        proof {
            assert(digest@.subrange(0, i + 1).drop_last() =~= digest@.subrange(0, i as int));
            assert(digest@.subrange(0, i + 1).last() == digest@[i as int]);
            lemma_hex_val_bound(digest@.subrange(0, i as int));
            assert(spec_pow16(i as int) * 16 == spec_pow16(i + 1)) by {
                reveal_with_fuel(spec_pow16, 18);
            }
            assert(spec_pow16(i + 1) <= spec_pow16(16)) by {
                reveal_with_fuel(spec_pow16, 18);
            }
        }
        let d = hex_digit_val(digest.as_str().get_char(i));
        acc = acc * 16 + d;
        i = i + 1;
    }
    proof {
        assert(digest@.subrange(0, 16) =~= md5_hex_of(s@).subrange(0, 16));
    }
    acc
}

/// The combined 64-bit fingerprint of a message and an optional meaning,
/// in wrapping arithmetic: the meaning's fingerprint plus twice the
/// message's, plus one when the message fingerprint reads negative.
pub open spec fn spec_combined_fingerprint(message: Seq<char>, meaning: Option<Seq<char>>) -> int {
    let fp = spec_fingerprint(message);
    match meaning {
        None => fp,
        Some(m) => {
            let fp2 = spec_fingerprint(m);
            if fp >= 0x8000000000000000 {
                (fp2 + fp * 2 + 1) % 0x10000000000000000
            } else {
                (fp2 + fp * 2) % 0x10000000000000000
            }
        },
    }
}

/// The message id: the combined fingerprint with its sign bit cleared,
/// rendered in decimal.
pub open spec fn spec_message_id(message: Seq<char>, meaning: Option<Seq<char>>) -> Seq<char> {
    crate::text::spec_dec(spec_combined_fingerprint(message, meaning) % 0x8000000000000000)
}

impl IdFinder {
    /// Derives the message id for a message text and optional meaning.
    #[verifier::rlimit(50)]
    pub fn generate_message_id(message: &str, meaning: Option<&str>) -> (r: String)
        ensures
            r@ == spec_message_id(
                message@,
                match meaning {
                    Some(m) => Some(m@),
                    None => None,
                },
            ),
    {
        let fp = fingerprint_bits(message);
        let combined: u64 = match meaning {
            None => fp,
            Some(m) => {
                let fp2 = fingerprint_bits(m);
                proof {
                    lemma_hex_val_bound(md5_hex_of(message@).subrange(0, 16));
                    lemma_hex_val_bound(md5_hex_of(m@).subrange(0, 16));
                    reveal_with_fuel(spec_pow16, 18);
                }
                let doubled = fp.wrapping_mul(2);
                let base = fp2.wrapping_add(doubled);
                if fp >= 0x8000000000000000u64 {
                    base.wrapping_add(1)
                } else {
                    base
                }
            },
        };
        let masked = combined & 0x7fffffffffffffffu64;
        proof {
            assert(combined & 0x7fffffffffffffffu64 == combined % 0x8000000000000000u64) by (bit_vector);
            lemma_hex_val_bound(md5_hex_of(message@).subrange(0, 16));
            reveal_with_fuel(spec_pow16, 18);
        }
        crate::text::u64_to_string(masked)
    }

    /// The value between the first `id="` and the next quote of a
    /// translation file line, when both are present.
    pub fn extract_id<'a>(line: &'a str) -> (r: Option<&'a str>)
        ensures
            match r {
                Some(sub) => exists|i: int, j: int|
                    {
                        &&& #[trigger] spec_match_at(line@, i, "id=\""@)
                        &&& forall|p: int| 0 <= p < i ==> !spec_match_at(line@, p, "id=\""@)
                        &&& i + 4 <= j < line@.len()
                        &&& #[trigger] line@[j] == '"'
                        &&& forall|q: int| i + 4 <= q < j ==> line@[q] != '"'
                        &&& sub@ == line@.subrange(i + 4, j)
                    },
                None => !spec_contains(line@, "id=\""@) || exists|i: int|
                    {
                        &&& #[trigger] spec_match_at(line@, i, "id=\""@)
                        &&& forall|p: int| 0 <= p < i ==> !spec_match_at(line@, p, "id=\""@)
                        &&& forall|q: int| i + 4 <= q < line@.len() ==> line@[q] != '"'
                    },
            },
    {
        proof {
            reveal_strlit("id=\"");
        }
        let i = match crate::text::find_sub(line, "id=\"") {
            Some(i) => i,
            None => {
                return None;
            },
        };
        let n = line.unicode_len();
        let mut j: usize = i + 4;
        while j < n && line.get_char(j) != '"'
            invariant
                n == line@.len(),
                i + 4 <= j <= n,
                spec_match_at(line@, i as int, "id=\""@),
                forall|p: int| 0 <= p < i ==> !spec_match_at(line@, p, "id=\""@),
                forall|q: int| i + 4 <= q < j ==> line@[q] != '"',
            decreases n - j,
    {
            j = j + 1;
        }
        if j >= n {
            return None;
        }
        Some(line.substring_char(i + 4, j))
    }

    /// The element text between the first `>` and the following `<` of a
    /// translation file line, when both are present.
    pub fn extract_message<'a>(line: &'a str) -> (r: Option<&'a str>)
        ensures
            match r {
                Some(sub) => exists|i: int, j: int|
                    {
                        &&& 0 <= i < line@.len()
                        &&& #[trigger] line@[i] == '>'
                        &&& forall|p: int| 0 <= p < i ==> line@[p] != '>'
                        &&& i + 1 <= j < line@.len()
                        &&& #[trigger] line@[j] == '<'
                        &&& forall|q: int| i + 1 <= q < j ==> line@[q] != '<'
                        &&& sub@ == line@.subrange(i + 1, j)
                    },
                None => (forall|i: int| 0 <= i < line@.len() ==> line@[i] != '>') || exists|i: int|
                    {
                        &&& 0 <= i < line@.len()
                        &&& #[trigger] line@[i] == '>'
                        &&& forall|p: int| 0 <= p < i ==> line@[p] != '>'
                        &&& forall|q: int| i + 1 <= q < line@.len() ==> line@[q] != '<'
                    },
            },
    {
        let n = line.unicode_len();
        let mut i: usize = 0;
        while i < n && line.get_char(i) != '>'
            invariant
                n == line@.len(),
                i <= n,
                forall|p: int| 0 <= p < i ==> line@[p] != '>',
            decreases n - i,
        {
            i = i + 1;
        }
        if i >= n {
            return None;
        }
        let mut j: usize = i + 1;
        while j < n && line.get_char(j) != '<'
            invariant
                n == line@.len(),
                i + 1 <= j <= n,
                i < n,
                line@[i as int] == '>',
                forall|p: int| 0 <= p < i ==> line@[p] != '>',
                forall|q: int| i + 1 <= q < j ==> line@[q] != '<',
            decreases n - j,
        {
            j = j + 1;
        }
        if j >= n {
            return None;
        }
        Some(line.substring_char(i + 1, j))
    }
}

} // verus!
