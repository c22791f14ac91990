//! Finder metadata records: big-endian encoding of `.DS_Store` entries and
//! the template splice that writes a window's icon layout.
//!
//! Everything here is byte arithmetic over plain values; reading the
//! template and writing the file are the host's business.

use vstd::prelude::*;
use vstd::pervasive::VecAdditionalExecFns;
use vstd::string::StrSliceExecFns;
use vstd::string::StringExecFns;

verus! {

/// The big-endian bytes of a 16-bit value.
pub open spec fn spec_be16(x: int) -> Seq<u8> {
    seq![((x / 0x100) % 0x100) as u8, (x % 0x100) as u8]
}

/// The big-endian bytes of a 32-bit value.
pub open spec fn spec_be32(x: int) -> Seq<u8> {
    seq![
        ((x / 0x1000000) % 0x100) as u8,
        ((x / 0x10000) % 0x100) as u8,
        ((x / 0x100) % 0x100) as u8,
        (x % 0x100) as u8,
    ]
}

/// Appends a 16-bit value in big-endian order.
pub fn push_be16(out: &mut Vec<u8>, x: u16)
    ensures
        final(out)@ == old(out)@ + spec_be16(x as int),
{
    out.push(((x / 0x100) % 0x100) as u8);
    out.push((x % 0x100) as u8);
    proof {
        assert(final(out)@ =~= old(out)@ + spec_be16(x as int));
    }
}

/// Appends a 32-bit value in big-endian order.
pub fn push_be32(out: &mut Vec<u8>, x: u32)
    ensures
        final(out)@ == old(out)@ + spec_be32(x as int),
{
    out.push(((x / 0x1000000) % 0x100) as u8);
    out.push(((x / 0x10000) % 0x100) as u8);
    out.push(((x / 0x100) % 0x100) as u8);
    out.push((x % 0x100) as u8);
    proof {
        assert(final(out)@ =~= old(out)@ + spec_be32(x as int));
    }
}

/// The UTF-16 code units of one character: the unit itself below the
/// supplementary planes, a surrogate pair above.
pub open spec fn spec_utf16_units(c: char) -> Seq<int> {
    if (c as int) < 0x10000 {
        seq![c as int]
    } else {
        seq![0xD800 + ((c as int) - 0x10000) / 0x400, 0xDC00 + ((c as int) - 0x10000) % 0x400]
    }
}

/// The big-endian bytes of one character's UTF-16 encoding.
pub open spec fn spec_utf16be_char(c: char) -> Seq<u8> {
    if (c as int) < 0x10000 {
        spec_be16(c as int)
    } else {
        spec_be16(0xD800 + ((c as int) - 0x10000) / 0x400) + spec_be16(
            0xDC00 + ((c as int) - 0x10000) % 0x400,
        )
    }
}

/// The big-endian UTF-16 bytes of a text.
pub open spec fn spec_utf16be(s: Seq<char>) -> Seq<u8>
    decreases s.len(),
{
    if s.len() == 0 {
        Seq::<u8>::empty()
    } else {
        spec_utf16be(s.drop_last()) + spec_utf16be_char(s.last())
    }
}

/// The number of UTF-16 code units of a text.
pub open spec fn spec_utf16_len(s: Seq<char>) -> int
    decreases s.len(),
{
    if s.len() == 0 {
        0
    } else {
        spec_utf16_len(s.drop_last()) + spec_utf16_units(s.last()).len()
    }
}

/// Encodes a text as big-endian UTF-16 bytes.
pub fn utf16be(s: &str) -> (r: Vec<u8>)
    ensures
        r@ == spec_utf16be(s@),
{
    let n = s.unicode_len();
    let mut out: Vec<u8> = Vec::new();
    let mut i: usize = 0;
    proof {
        assert(s@.subrange(0, 0) =~= Seq::<char>::empty());
        assert(out@ =~= spec_utf16be(s@.subrange(0, 0)));
    }
    while i < n
        invariant
            n == s@.len(),
            i <= n,
            out@ == spec_utf16be(s@.subrange(0, i as int)),
        decreases n - i,
    {
        proof {
            assert(s@.subrange(0, i + 1).drop_last() =~= s@.subrange(0, i as int));
            assert(s@.subrange(0, i + 1).last() == s@[i as int]);
        }
        let c = s.get_char(i);
        let code = c as u32;
        if code < 0x10000 {
            push_be16(&mut out, code as u16);
        } else {
            let v = code - 0x10000;
            push_be16(&mut out, (0xD800 + v / 0x400) as u16);
            push_be16(&mut out, (0xDC00 + v % 0x400) as u16);
        }
        proof {
            assert(out@ =~= spec_utf16be(s@.subrange(0, i + 1)));
        }
        i = i + 1;
    }
    proof {
        assert(s@.subrange(0, n as int) =~= s@);
    }
    out
}

/// Seconds between the Apple epoch (1904) and the Unix epoch (1970).
pub const APPLE_EPOCH_OFFSET: u64 = 2082844800;

/// Converts Unix seconds to an Apple-epoch timestamp, truncated to 32
/// bits as the alias format stores it.
pub fn to_apple_date(unix_secs: u64) -> (r: u32)
    ensures
        r as int == ((unix_secs + APPLE_EPOCH_OFFSET) % 0x10000000000000000) % 0x100000000,
{
    let shifted = unix_secs.wrapping_add(APPLE_EPOCH_OFFSET);
    let r = (shifted % 0x100000000u64) as u32;
    r
}

/// One `.DS_Store` record: a file name, a four-character structure id, a
/// data type tag and the record's payload.
#[derive(Debug)]
pub struct Entry {
    pub filename: String,
    pub structure_id: String,
    pub data_type: String,
    pub blob: Vec<u8>,
}

/// The bytes of an ASCII text, one byte per character.
pub open spec fn spec_ascii_bytes(s: Seq<char>) -> Seq<u8> {
    Seq::new(s.len(), |i: int| s[i] as u8)
}

/// The wire form of one record: the name's length in UTF-16 units, the
/// name itself in big-endian UTF-16, the structure id, the data type, and
/// the payload.
pub open spec fn spec_entry_bytes(
    filename: Seq<char>,
    structure_id: Seq<char>,
    data_type: Seq<char>,
    blob: Seq<u8>,
) -> Seq<u8> {
    spec_be32(spec_utf16_len(filename) % 0x100000000) + spec_utf16be(filename) + spec_ascii_bytes(
        structure_id,
    ) + spec_ascii_bytes(data_type) + blob
}

/// The payload of an icon-location record: a fixed length tag, the icon's
/// coordinates, and the record's constant trailer.
pub open spec fn spec_iloc_blob(x: int, y: int) -> Seq<u8> {
    spec_be32(16) + spec_be32(x) + spec_be32(y) + spec_be32(0xffffffff) + spec_be32(0)
}

impl Entry {
    /// An icon-location record placing `filename` at `(x, y)`.
    pub fn new_iloc(filename: &str, x: u32, y: u32) -> (r: Self)
        ensures
            r.filename@ == filename@,
            r.structure_id@ == "Iloc"@,
            r.data_type@ == "blob"@,
            r.blob@ == spec_iloc_blob(x as int, y as int),
    {
        let mut blob: Vec<u8> = Vec::new();
        push_be32(&mut blob, 16);
        push_be32(&mut blob, x);
        push_be32(&mut blob, y);
        push_be32(&mut blob, 0xffffffffu32);
        push_be32(&mut blob, 0);
        proof {
            assert(blob@ =~= spec_iloc_blob(x as int, y as int));
        }
        Entry {
            filename: filename.to_owned(),
            structure_id: "Iloc".to_owned(),
            data_type: "blob".to_owned(),
            blob,
        }
    }

    /// Serializes this record, provided its id and type tags are plain
    /// ASCII as the format demands.
    pub fn to_bytes(&self) -> (r: Vec<u8>)
        requires
            vstd::string::string_is_ascii(&self.structure_id),
            vstd::string::string_is_ascii(&self.data_type),
        ensures
            r@ == spec_entry_bytes(self.filename@, self.structure_id@, self.data_type@, self.blob@),
    {
        let units = utf16_unit_count(self.filename.as_str());
        let mut out: Vec<u8> = Vec::new();
        push_be32(&mut out, units);
        let name_bytes = utf16be(self.filename.as_str());
        append_bytes(&mut out, &name_bytes);
        let sid = ascii_bytes(self.structure_id.as_str());
        append_bytes(&mut out, &sid);
        let dt = ascii_bytes(self.data_type.as_str());
        append_bytes(&mut out, &dt);
        append_bytes(&mut out, &self.blob);
        proof {
            assert(out@ =~= spec_entry_bytes(
                self.filename@,
                self.structure_id@,
                self.data_type@,
                self.blob@,
            ));
        }
        out
    }
}

/// Appends all bytes of `src` to `out`.
pub fn append_bytes(out: &mut Vec<u8>, src: &Vec<u8>)
    ensures
        final(out)@ == old(out)@ + src@,
{
    let n = src.len();
    let mut i: usize = 0;
    proof {
        assert(src@.subrange(0, 0) =~= Seq::<u8>::empty());
        assert(out@ =~= old(out)@ + src@.subrange(0, 0));
    }
    while i < n
        invariant
            n == src@.len(),
            i <= n,
            out@ == old(out)@ + src@.subrange(0, i as int),
        decreases n - i,
    {
        out.push(src[i]);
        proof {
            assert(out@ =~= old(out)@ + src@.subrange(0, i + 1));
        }
        i = i + 1;
    }
    proof {
        assert(src@.subrange(0, n as int) =~= src@);
    }
}

/// The bytes of an ASCII string, one byte per character.
pub fn ascii_bytes(s: &str) -> (r: Vec<u8>)
    requires
        vstd::string::is_ascii(s),
    ensures
        r@ == spec_ascii_bytes(s@),
{
    let n = s.unicode_len();
    let mut out: Vec<u8> = Vec::new();
    let mut i: usize = 0;
    while i < n
        invariant
            vstd::string::is_ascii(s),
            n == s@.len(),
            i <= n,
            out@.len() == i,
            forall|j: int| 0 <= j < i ==> out@[j] == s@[j] as u8,
        decreases n - i,
    {
        let b = s.get_ascii(i);
        out.push(b);
        i = i + 1;
    }
    proof {
        assert(out@ =~= spec_ascii_bytes(s@));
    }
    out
}

/// Counts the UTF-16 code units of a text, truncated to 32 bits as the
/// record header stores it.
pub fn utf16_unit_count(s: &str) -> (r: u32)
    ensures
        r as int == spec_utf16_len(s@) % 0x100000000,
{
    let n = s.unicode_len();
    let mut count: u32 = 0;
    let mut i: usize = 0;
    proof {
        assert(s@.subrange(0, 0) =~= Seq::<char>::empty());
    }
    while i < n
        invariant
            n == s@.len(),
            i <= n,
            count as int == spec_utf16_len(s@.subrange(0, i as int)) % 0x100000000,
        decreases n - i,
    {
        proof {
            assert(s@.subrange(0, i + 1).drop_last() =~= s@.subrange(0, i as int));
            assert(s@.subrange(0, i + 1).last() == s@[i as int]);
            assert(0 <= spec_utf16_len(s@.subrange(0, i as int))) by {
                lemma_utf16_len_nonneg(s@.subrange(0, i as int));
            }
        }
        let c = s.get_char(i);
        let step: u32 = if (c as u32) < 0x10000 {
            1
        } else {
            2
        };
        proof {
            vstd::arithmetic::div_mod::lemma_add_mod_noop(
                spec_utf16_len(s@.subrange(0, i as int)),
                step as int,
                0x100000000,
            );
        }
        count = count.wrapping_add(step);
        i = i + 1;
    }
    proof {
        assert(s@.subrange(0, n as int) =~= s@);
    }
    count
}

/// A text never has a negative count of code units.
pub proof fn lemma_utf16_len_nonneg(s: Seq<char>)
    ensures
        0 <= spec_utf16_len(s),
    decreases s.len(),
{
    if s.len() > 0 {
        lemma_utf16_len_nonneg(s.drop_last());
    }
}

/// The mathematical value of one record.
pub ghost struct EntryV {
    pub filename: Seq<char>,
    pub structure_id: Seq<char>,
    pub data_type: Seq<char>,
    pub blob: Seq<u8>,
}

/// The mathematical value of one record.
pub open spec fn ev(e: Entry) -> EntryV {
    EntryV {
        filename: e.filename@,
        structure_id: e.structure_id@,
        data_type: e.data_type@,
        blob: e.blob@,
    }
}

/// The views of a record list.
pub open spec fn spec_entry_views(items: Seq<Entry>) -> Seq<EntryV> {
    items.map_values(|e: Entry| ev(e))
}

impl Clone for Entry {
    /// A copy with the same value.
    fn clone(&self) -> (r: Self)
        ensures
            ev(r) == ev(*self),
    {
        let blob = clone_bytes(&self.blob);
        Entry {
            filename: self.filename.clone(),
            structure_id: self.structure_id.clone(),
            data_type: self.data_type.clone(),
            blob,
        }
    }
}

/// Copies a byte list, preserving its view.
pub fn clone_bytes(v: &Vec<u8>) -> (r: Vec<u8>)
    ensures
        r@ == v@,
{
    let r = v.clone();
    proof {
        assert(r@ =~= v@);
    }
    r
}

/// Lexicographic order on texts by code point.
pub open spec fn spec_lex_le(a: Seq<char>, b: Seq<char>) -> bool
    decreases a.len(),
{
    if a.len() == 0 {
        true
    } else if b.len() == 0 {
        false
    } else if a[0] != b[0] {
        (a[0] as int) < (b[0] as int)
    } else {
        spec_lex_le(a.drop_first(), b.drop_first())
    }
}

/// Any two texts relate one way or the other.
pub proof fn lemma_lex_le_connected(a: Seq<char>, b: Seq<char>)
    ensures
        spec_lex_le(a, b) || spec_lex_le(b, a),
    decreases a.len(),
{
    if a.len() > 0 && b.len() > 0 && a[0] == b[0] {
        lemma_lex_le_connected(a.drop_first(), b.drop_first());
    }
}

/// Two texts each at most the other are the same text.
pub proof fn lemma_lex_le_antisymmetric(a: Seq<char>, b: Seq<char>)
    requires
        spec_lex_le(a, b),
        spec_lex_le(b, a),
    ensures
        a == b,
    decreases a.len(),
{
    if a.len() == 0 {
        assert(b.len() == 0);
        assert(a =~= b);
    } else {
        assert(b.len() > 0);
        assert(a[0] == b[0]);
        lemma_lex_le_antisymmetric(a.drop_first(), b.drop_first());
        assert(a.len() == b.len());
        assert forall|j: int| 0 <= j < a.len() implies a[j] == b[j] by {
            if j > 0 {
                assert(a[j] == a.drop_first()[j - 1]);
                assert(b[j] == b.drop_first()[j - 1]);
            }
        }
        assert(a =~= b);
    }
}

/// The lexicographic order is transitive.
pub proof fn lemma_lex_le_transitive(a: Seq<char>, b: Seq<char>, c: Seq<char>)
    requires
        spec_lex_le(a, b),
        spec_lex_le(b, c),
    ensures
        spec_lex_le(a, c),
    decreases a.len(),
{
    if a.len() > 0 && b.len() > 0 && c.len() > 0 && a[0] == b[0] && b[0] == c[0] {
        lemma_lex_le_transitive(a.drop_first(), b.drop_first(), c.drop_first());
    }
}

/// Record order in the store: file name first, then structure id.
pub open spec fn spec_entry_le(a: EntryV, b: EntryV) -> bool {
    if a.filename != b.filename {
        spec_lex_le(a.filename, b.filename)
    } else {
        spec_lex_le(a.structure_id, b.structure_id)
    }
}

/// Any two records relate one way or the other.
pub proof fn lemma_entry_le_connected(a: EntryV, b: EntryV)
    ensures
        spec_entry_le(a, b) || spec_entry_le(b, a),
{
    lemma_lex_le_connected(a.filename, b.filename);
    lemma_lex_le_connected(a.structure_id, b.structure_id);
}

/// The record order is transitive.
pub proof fn lemma_entry_le_transitive(a: EntryV, b: EntryV, c: EntryV)
    requires
        spec_entry_le(a, b),
        spec_entry_le(b, c),
    ensures
        spec_entry_le(a, c),
{
    if a.filename != b.filename && b.filename != c.filename {
        lemma_lex_le_transitive(a.filename, b.filename, c.filename);
        if a.filename == c.filename {
            lemma_lex_le_antisymmetric(b.filename, c.filename);
        }
    } else if a.filename == b.filename && b.filename == c.filename {
        lemma_lex_le_transitive(a.structure_id, b.structure_id, c.structure_id);
    }
}

/// Whether `a` comes no later than `b` in the record order.
fn entry_le(a: &Entry, b: &Entry) -> (r: bool)
    ensures
        r == spec_entry_le(ev(*a), ev(*b)),
{
    if crate::text::str_eq_str(a.filename.as_str(), b.filename.as_str()) {
        lex_le(a.structure_id.as_str(), b.structure_id.as_str())
    } else {
        lex_le(a.filename.as_str(), b.filename.as_str())
    }
}

/// Whether `a` is lexicographically at most `b`.
fn lex_le(a: &str, b: &str) -> (r: bool)
    ensures
        r == spec_lex_le(a@, b@),
{
    let an = a.unicode_len();
    let bn = b.unicode_len();
    let mut i: usize = 0;
    proof {
        assert(a@.subrange(0, an as int) =~= a@);
        assert(b@.subrange(0, bn as int) =~= b@);
    }
    while i < an && i < bn
        invariant
            an == a@.len(),
            bn == b@.len(),
            i <= an,
            i <= bn,
            forall|j: int| 0 <= j < i ==> a@[j] == b@[j],
            spec_lex_le(a@, b@) == spec_lex_le(
                a@.subrange(i as int, an as int),
                b@.subrange(i as int, bn as int),
            ),
        decreases an - i,
    {
        proof {
            let suf_a = a@.subrange(i as int, an as int);
            let suf_b = b@.subrange(i as int, bn as int);
            assert(suf_a.len() > 0 && suf_b.len() > 0);
            assert(suf_a[0] == a@[i as int] && suf_b[0] == b@[i as int]);
            assert(suf_a.drop_first() =~= a@.subrange(i + 1, an as int));
            assert(suf_b.drop_first() =~= b@.subrange(i + 1, bn as int));
        }
        let ca = a.get_char(i);
        let cb = b.get_char(i);
        if ca != cb {
            return (ca as u32) < (cb as u32);
        }
        i = i + 1;
    }
    proof {
        if i >= an {
            assert(a@.subrange(i as int, an as int).len() == 0);
        } else {
            assert(b@.subrange(i as int, bn as int).len() == 0);
            assert(a@.subrange(i as int, an as int).len() > 0);
        }
    }
    i >= an
}

/// The concatenated wire forms of a record list, in order.
pub open spec fn spec_records_bytes(items: Seq<EntryV>) -> Seq<u8>
    decreases items.len(),
{
    if items.len() == 0 {
        Seq::<u8>::empty()
    } else {
        spec_records_bytes(items.drop_last()) + spec_entry_bytes(
            items.last().filename,
            items.last().structure_id,
            items.last().data_type,
            items.last().blob,
        )
    }
}

/// The record block of the store: a zero word, the record count, the
/// records sorted by name and structure id, zero-padded to the block size
/// the format reserves.
pub open spec fn spec_record_block(sorted: Seq<EntryV>) -> Seq<u8> {
    let body = spec_be32(0) + spec_be32(sorted.len() as int % 0x100000000) + spec_records_bytes(
        sorted,
    );
    if body.len() >= 3840 {
        body
    } else {
        body + Seq::<u8>::new((3840 - body.len()) as nat, |i: int| 0u8)
    }
}

/// The store image: the template with the record block written at its
/// record area, the template's own bytes elsewhere, zero-filled wherever
/// the template is shorter than what is written.
pub open spec fn spec_spliced(template: Seq<u8>, block: Seq<u8>) -> Seq<u8> {
    let end = 4100 + block.len() as int;
    let len = if template.len() >= end {
        template.len() as int
    } else {
        end
    };
    Seq::<u8>::new(len as nat, |i: int|
        if i < 4100 {
            if i < template.len() {
                template[i]
            } else {
                0u8
            }
        } else if i < end {
            block[i - 4100]
        } else {
            template[i]
        },
    )
}

/// Assembles a store image: the records, sorted by file name and structure
/// id, written over the template's record area.
pub fn ds_store_image(template: &Vec<u8>, entries: &Vec<Entry>) -> (r: Vec<u8>)
    requires
        forall|i: int|
            0 <= i < entries@.len() ==> vstd::string::string_is_ascii(
                &(#[trigger] entries@[i]).structure_id,
            ) && vstd::string::string_is_ascii(&entries@[i].data_type),
        entries@.len() < 0x10000,
        template@.len() < 0x10000000,
    ensures
        exists|sorted: Seq<EntryV>|
            {
                &&& #[trigger] sorted.to_multiset() == spec_entry_views(entries@).to_multiset()
                &&& forall|p: int, q: int|
                    0 <= p < q < sorted.len() ==> spec_entry_le(sorted[p], sorted[q])
                &&& r@ == spec_spliced(template@, spec_record_block(sorted))
            },
{
    broadcast use vstd::seq_lib::group_to_multiset_ensures;

    let n = entries.len();
    let mut sorted: Vec<Entry> = Vec::new();
    let mut i: usize = 0;
    proof {
        assert(entries@.subrange(0, 0) =~= Seq::<Entry>::empty());
        assert(spec_entry_views(sorted@) =~= Seq::<EntryV>::empty());
        assert(spec_entry_views(sorted@).to_multiset() =~= spec_entry_views(
            entries@.subrange(0, 0),
        ).to_multiset());
    }
    while i < n
        invariant
            n == entries@.len(),
            i <= n,
            sorted@.len() == i,
            forall|j: int|
                0 <= j < sorted@.len() ==> vstd::string::string_is_ascii(
                    &(#[trigger] sorted@[j]).structure_id,
                ) && vstd::string::string_is_ascii(&sorted@[j].data_type),
            forall|j: int|
                0 <= j < entries@.len() ==> vstd::string::string_is_ascii(
                    &(#[trigger] entries@[j]).structure_id,
                ) && vstd::string::string_is_ascii(&entries@[j].data_type),
            spec_entry_views(sorted@).to_multiset() == spec_entry_views(
                entries@.subrange(0, i as int),
            ).to_multiset(),
            forall|p: int, q: int|
                0 <= p < q < sorted@.len() ==> spec_entry_le(
                    #[trigger] spec_entry_views(sorted@)[p],
                    #[trigger] spec_entry_views(sorted@)[q],
                ),
        decreases n - i,
    {
        let t = entries[i].clone();
        proof {
            assert(ev(t) == spec_entry_views(entries@)[i as int]);
            assert(vstd::string::string_is_ascii(&entries@[i as int].structure_id));
            assert(t.structure_id@ == entries@[i as int].structure_id@);
            assert(vstd::string::string_is_ascii(&t.structure_id));
            assert(vstd::string::string_is_ascii(&t.data_type));
        }
        let m = sorted.len();
        let mut k: usize = 0;
        while k < m && entry_le(&sorted[k], &t)
            invariant
                m == sorted@.len(),
                k <= m,
                forall|p: int|
                    0 <= p < k ==> spec_entry_le(#[trigger] spec_entry_views(sorted@)[p], ev(t)),
            decreases m - k,
        {
            proof {
                assert(spec_entry_views(sorted@)[k as int] == ev(sorted@[k as int]));
            }
            k = k + 1;
        }
        proof {
            if k < m {
                assert(spec_entry_views(sorted@)[k as int] == ev(sorted@[k as int]));
                lemma_entry_le_connected(spec_entry_views(sorted@)[k as int], ev(t));
            }
        }
        let ghost pre_out = sorted@;
        sorted.insert(k, t);
        proof {
            broadcast use vstd::seq_lib::group_to_multiset_ensures;

            assert(sorted@ == pre_out.insert(k as int, t));
            crate::store::lemma_insert_to_multiset(spec_entry_views(pre_out), k as int, ev(t));
            assert(spec_entry_views(sorted@) =~= spec_entry_views(pre_out).insert(
                k as int,
                ev(t),
            ));
            assert(entries@.subrange(0, i + 1) =~= entries@.subrange(0, i as int).push(
                entries@[i as int],
            ));
            assert(spec_entry_views(entries@.subrange(0, i + 1)) =~= spec_entry_views(
                entries@.subrange(0, i as int),
            ).push(ev(t)));
            assert(spec_entry_views(sorted@).to_multiset() =~= spec_entry_views(
                entries@.subrange(0, i + 1),
            ).to_multiset());
            let vw = spec_entry_views(sorted@);
            let pre_vw = spec_entry_views(pre_out);
            assert forall|p: int, q: int| 0 <= p < q < vw.len() implies spec_entry_le(
                #[trigger] vw[p],
                #[trigger] vw[q],
            ) by {
                if q < k as int {
                    assert(vw[p] == pre_vw[p] && vw[q] == pre_vw[q]);
                } else if p < k as int && q == k as int {
                    assert(vw[p] == pre_vw[p] && vw[q] == ev(t));
                } else if p < k as int && q > k as int {
                    assert(vw[p] == pre_vw[p] && vw[q] == pre_vw[q - 1]);
                } else if p == k as int {
                    assert(vw[p] == ev(t) && vw[q] == pre_vw[q - 1]);
                    if q - 1 > k as int {
                        lemma_entry_le_transitive(ev(t), pre_vw[k as int], pre_vw[q - 1]);
                    }
                } else {
                    assert(vw[p] == pre_vw[p - 1] && vw[q] == pre_vw[q - 1]);
                }
            }
            assert forall|j: int|
                0 <= j < sorted@.len() implies vstd::string::string_is_ascii(
                &(#[trigger] sorted@[j]).structure_id,
            ) && vstd::string::string_is_ascii(&sorted@[j].data_type) by {
                assert(sorted@[j] == if j < k as int {
                    pre_out[j]
                } else if j == k as int {
                    t
                } else {
                    pre_out[j - 1]
                });
            }
        }
        i = i + 1;
    }
    proof {
        assert(entries@.subrange(0, n as int) =~= entries@);
    }
    let mut body: Vec<u8> = Vec::new();
    push_be32(&mut body, 0);
    push_be32(&mut body, n as u32);
    let ghost header = body@;
    let sn = sorted.len();
    let mut j: usize = 0;
    proof {
        assert(spec_entry_views(sorted@).subrange(0, 0) =~= Seq::<EntryV>::empty());
        assert(body@ =~= header + spec_records_bytes(spec_entry_views(sorted@).subrange(0, 0)));
    }
    while j < sn
        invariant
            sn == sorted@.len(),
            j <= sn,
            forall|p: int|
                0 <= p < sorted@.len() ==> vstd::string::string_is_ascii(
                    &(#[trigger] sorted@[p]).structure_id,
                ) && vstd::string::string_is_ascii(&sorted@[p].data_type),
            body@ == header + spec_records_bytes(spec_entry_views(sorted@).subrange(0, j as int)),
        decreases sn - j,
    {
        proof {
            assert(spec_entry_views(sorted@).subrange(0, j + 1).drop_last() =~= spec_entry_views(
                sorted@,
            ).subrange(0, j as int));
            assert(spec_entry_views(sorted@).subrange(0, j + 1).last() == spec_entry_views(
                sorted@,
            )[j as int]);
            assert(spec_entry_views(sorted@)[j as int] == ev(sorted@[j as int]));
        }
        let piece = sorted[j].to_bytes();
        append_bytes(&mut body, &piece);
        proof {
            assert(body@ =~= header + spec_records_bytes(
                spec_entry_views(sorted@).subrange(0, j + 1),
            ));
        }
        j = j + 1;
    }
    proof {
        assert(spec_entry_views(sorted@).subrange(0, sn as int) =~= spec_entry_views(sorted@));
    }
    let ghost pre_pad = body@;
    while body.len() < 3840
        invariant
            pre_pad == header + spec_records_bytes(spec_entry_views(sorted@)),
            body@.len() >= pre_pad.len() || body@ == pre_pad,
            body@.len() <= 3840 || body@ == pre_pad,
            body@.subrange(0, pre_pad.len() as int) == pre_pad,
            forall|p: int| pre_pad.len() <= p < body@.len() ==> body@[p] == 0u8,
        decreases 3840 - body.len(),
    {
        proof {
            assert(body@.subrange(0, pre_pad.len() as int) == pre_pad);
        }
        body.push(0);
        proof {
            assert(body@.subrange(0, pre_pad.len() as int) =~= pre_pad);
        }
    }
    proof {
        assert(body@ =~= spec_record_block(spec_entry_views(sorted@)));
    }
    let mut out: Vec<u8> = Vec::new();
    let tn = template.len();
    let mut p: usize = 0;
    while p < 4100
        invariant
            tn == template@.len(),
            p <= 4100,
            out@.len() == p,
            forall|q: int|
                0 <= q < p ==> out@[q] == (if q < template@.len() {
                    template@[q]
                } else {
                    0u8
                }),
        decreases 4100 - p,
    {
        if p < tn {
            out.push(template[p]);
        } else {
            out.push(0);
        }
        p = p + 1;
    }
    let ghost prefix = out@;
    append_bytes(&mut out, &body);
    let ghost with_block = out@;
    let bn = body.len();
    if tn > 4100 && tn - 4100 > bn {
        let mut q: usize = 4100 + bn;
        while q < tn
            invariant
                tn == template@.len(),
                bn == body@.len(),
                4100 + bn <= q <= tn,
                out@.len() == q,
                out@.subrange(0, with_block.len() as int) == with_block,
                with_block.len() == 4100 + bn,
                forall|x: int| 4100 + bn <= x < q ==> out@[x] == template@[x],
            decreases tn - q,
        {
            proof {
                assert(out@.subrange(0, with_block.len() as int) == with_block);
            }
            out.push(template[q]);
            proof {
                assert(out@.subrange(0, with_block.len() as int) =~= with_block);
            }
            q = q + 1;
        }
    }
    proof {
        let sorted_vw = spec_entry_views(sorted@);
        let block = spec_record_block(sorted_vw);
        let target = spec_spliced(template@, block);
        assert(with_block == prefix + body@);
        assert(body@ == block);
        assert(out@.subrange(0, with_block.len() as int) =~= with_block);
        assert(out@.len() == target.len());
        assert forall|x: int| 0 <= x < out@.len() implies out@[x] == target[x] by {
            assert(out@[x] == out@.subrange(0, with_block.len() as int)[x] || x
                >= with_block.len());
            if x < 4100 {
                assert(out@[x] == with_block[x]);
                assert(with_block[x] == prefix[x]);
            } else if x < 4100 + bn {
                assert(out@[x] == with_block[x]);
                assert(with_block[x] == body@[x - 4100]);
            }
        }
        assert(out@ =~= target);
        assert(sorted_vw.to_multiset() == spec_entry_views(entries@).to_multiset());
    }
    out
}

} // verus!
