//! Finder alias records: the fixed header and the tagged extra items, laid
//! out byte for byte.  The record points a disk-image background at a file
//! by volume, parent and inode; gathering those from the filesystem is the
//! host's business, the encoding is exact.

use vstd::prelude::*;
use vstd::string::StrSliceExecFns;
use vstd::string::StringExecFns;
use crate::dsstore::spec_ascii_bytes;
use crate::dsstore::spec_be16;
use crate::dsstore::spec_be32;
use crate::dsstore::push_be16;
use crate::dsstore::push_be32;

verus! {

/// The file or directory an alias points at.
#[derive(Debug)]
pub struct AliasTarget {
    pub id: u32,
    pub is_directory: bool,
    pub filename: String,
    pub created_apple: u32,
}

/// The directory holding the target.
#[derive(Debug)]
pub struct AliasParent {
    pub id: u32,
    pub name: String,
}

/// The volume the target lives on.
#[derive(Debug)]
pub struct AliasVolume {
    pub name: String,
    pub created_apple: u32,
}

/// One tagged extra item of an alias record.
#[derive(Debug)]
pub struct ExtraItem {
    pub kind: u16,
    pub data: Vec<u8>,
}

/// A Finder alias record, as plain values.
#[derive(Debug)]
pub struct AliasInfo {
    pub version: u16,
    pub target: AliasTarget,
    pub parent: AliasParent,
    pub volume: AliasVolume,
    pub extra: Vec<ExtraItem>,
}

/// A run of zero bytes.
pub open spec fn spec_zeros(n: int) -> Seq<u8> {
    Seq::<u8>::new(n as nat, |i: int| 0u8)
}

/// A name field of fixed width: the name truncated to the width, zero
/// padding after.
pub open spec fn spec_fixed_name(s: Seq<char>, width: int) -> Seq<u8> {
    let len = if s.len() <= width {
        s.len() as int
    } else {
        width
    };
    spec_ascii_bytes(s.subrange(0, len)) + spec_zeros(width - len)
}

/// The stored length of a name field: the name's length capped at the
/// field width.
pub open spec fn spec_name_len(s: Seq<char>, width: int) -> int {
    if s.len() <= width {
        s.len() as int
    } else {
        width
    }
}

/// The wire form of one extra item: its tag, its length, its bytes, and a
/// zero pad to even length.
pub open spec fn spec_extra_bytes(kind: int, data: Seq<u8>) -> Seq<u8> {
    spec_be16(kind) + spec_be16(data.len() as int % 0x10000) + data + (if data.len() % 2 == 1 {
        seq![0u8]
    } else {
        Seq::<u8>::empty()
    })
}

/// The views of the extra items.
pub open spec fn spec_extra_views(items: Seq<ExtraItem>) -> Seq<(int, Seq<u8>)> {
    items.map_values(|e: ExtraItem| (e.kind as int, e.data@))
}

/// The concatenated wire forms of the extra items, in order.
pub open spec fn spec_extras_bytes(items: Seq<(int, Seq<u8>)>) -> Seq<u8>
    decreases items.len(),
{
    if items.len() == 0 {
        Seq::<u8>::empty()
    } else {
        spec_extras_bytes(items.drop_last()) + spec_extra_bytes(
            items.last().0,
            items.last().1,
        )
    }
}

/// The total length of the record: the fixed header, each extra item with
/// its tag, length and pad, and the trailer.
pub open spec fn spec_alias_total(items: Seq<(int, Seq<u8>)>) -> int
    decreases items.len(),
{
    if items.len() == 0 {
        154
    } else {
        spec_alias_total(items.drop_last()) + 4 + items.last().1.len() + (if items.last().1.len()
            % 2 == 1 {
            1int
        } else {
            0int
        })
    }
}

/// The whole record: length-prefixed fixed header, extras, and the closing
/// tag pair.
pub open spec fn spec_alias_bytes(info: &AliasInfo) -> Seq<u8> {
    let extras = spec_extra_views(info.extra@);
    spec_be32(0) + spec_be16(spec_alias_total(extras) % 0x10000) + spec_be16(info.version as int)
        + spec_be16(
        if info.target.is_directory {
            1
        } else {
            0
        },
    ) + seq![spec_name_len(info.volume.name@, 27) as u8] + spec_fixed_name(info.volume.name@, 27)
        + spec_be32(info.volume.created_apple as int) + spec_ascii_bytes("H+"@) + spec_be16(0)
        + spec_be32(info.parent.id as int) + seq![spec_name_len(info.target.filename@, 63) as u8]
        + spec_fixed_name(info.target.filename@, 63) + spec_be32(info.target.id as int)
        + spec_be32(info.target.created_apple as int) + spec_zeros(8) + spec_be16(0xFFFF)
        + spec_be16(0xFFFF) + spec_be32(0x00000D02) + spec_be16(0) + spec_zeros(10)
        + spec_extras_bytes(extras) + spec_be16(0xFFFF) + spec_be16(0)
}

/// Appends `n` zero bytes.
fn push_zeros(out: &mut Vec<u8>, n: usize)
    ensures
        final(out)@ == old(out)@ + spec_zeros(n as int),
{
    let mut i: usize = 0;
    proof {
        assert(out@ =~= old(out)@ + spec_zeros(0));
    }
    while i < n
        invariant
            i <= n,
            out@ == old(out)@ + spec_zeros(i as int),
        decreases n - i,
    {
        out.push(0);
        proof {
            assert(out@ =~= old(out)@ + spec_zeros(i + 1));
        }
        i = i + 1;
    }
}

/// Appends a fixed-width name field: the name truncated to `width`, zero
/// padded after.
fn push_fixed_name(out: &mut Vec<u8>, name: &str, width: usize)
    requires
        name.is_ascii(),
    ensures
        final(out)@ == old(out)@ + spec_fixed_name(name@, width as int),
{
    let n = name.unicode_len();
    let len = if n <= width {
        n
    } else {
        width
    };
    let mut i: usize = 0;
    proof {
        assert(spec_ascii_bytes(name@.subrange(0, 0)) =~= Seq::<u8>::empty());
        assert(out@ =~= old(out)@ + spec_ascii_bytes(name@.subrange(0, 0)));
    }
    while i < len
        invariant
            name.is_ascii(),
            n == name@.len(),
            len <= n,
            i <= len,
            out@ == old(out)@ + spec_ascii_bytes(name@.subrange(0, i as int)),
        decreases len - i,
    {
        let b = name.get_ascii(i);
        out.push(b);
        proof {
            assert(out@ =~= old(out)@ + spec_ascii_bytes(name@.subrange(0, i + 1)));
        }
        i = i + 1;
    }
    let ghost mid = out@;
    push_zeros(out, width - len);
    proof {
        assert(out@ =~= old(out)@ + spec_fixed_name(name@, width as int));
    }
}

impl AliasInfo {
    /// A record from its plain fields.
    pub fn new(
        version: u16,
        target: AliasTarget,
        parent: AliasParent,
        volume: AliasVolume,
        extra: Vec<ExtraItem>,
    ) -> (r: Self)
        ensures
            r.version == version,
            r.target == target,
            r.parent == parent,
            r.volume == volume,
            r.extra == extra,
    {
        AliasInfo { version, target, parent, volume, extra }
    }

    /// Serializes the record.  Names must be plain ASCII, as the classic
    /// fields store one byte per character, and the extras must keep the
    /// record within its 16-bit length field.
    pub fn encode(&self) -> (r: Vec<u8>)
        requires
            self.volume.name.is_ascii(),
            self.target.filename.is_ascii(),
            self.extra@.len() < 0x1000,
            forall|i: int| 0 <= i < self.extra@.len() ==> (#[trigger] self.extra@[i]).data@.len()
                < 0x8000,
            spec_alias_total(spec_extra_views(self.extra@)) <= 0xFFFF,
        ensures
            r@ == spec_alias_bytes(self),
    {
        let total = self.total_len();
        let mut out: Vec<u8> = Vec::new();
        push_be32(&mut out, 0);
        push_be16(&mut out, total);
        push_be16(&mut out, self.version);
        push_be16(&mut out, if self.is_directory_flag() { 1 } else { 0 });
        let vol_len = name_len(self.volume.name.as_str(), 27);
        out.push(vol_len);
        push_fixed_name(&mut out, self.volume.name.as_str(), 27);
        push_be32(&mut out, self.volume.created_apple);
        proof {
            reveal_strlit("H+");
        }
        let sig = crate::dsstore::ascii_bytes("H+");
        crate::dsstore::append_bytes(&mut out, &sig);
        push_be16(&mut out, 0);
        push_be32(&mut out, self.parent.id);
        let file_len = name_len(self.target.filename.as_str(), 63);
        out.push(file_len);
        push_fixed_name(&mut out, self.target.filename.as_str(), 63);
        push_be32(&mut out, self.target.id);
        push_be32(&mut out, self.target.created_apple);
        push_zeros(&mut out, 8);
        push_be16(&mut out, 0xFFFF);
        push_be16(&mut out, 0xFFFF);
        push_be32(&mut out, 0x00000D02);
        push_be16(&mut out, 0);
        push_zeros(&mut out, 10);
        let ghost header = out@;
        let n = self.extra.len();
        let mut i: usize = 0;
        proof {
            assert(spec_extra_views(self.extra@).subrange(0, 0) =~= Seq::<(int, Seq<u8>)>::empty());
            assert(out@ =~= header + spec_extras_bytes(
                spec_extra_views(self.extra@).subrange(0, 0),
            ));
        }
        while i < n
            invariant
                n == self.extra@.len(),
                i <= n,
                forall|j: int| 0 <= j < n ==> (#[trigger] self.extra@[j]).data@.len() < 0x8000,
                out@ == header + spec_extras_bytes(spec_extra_views(self.extra@).subrange(
                    0,
                    i as int,
                )),
            decreases n - i,
        {
            proof {
                assert(spec_extra_views(self.extra@).subrange(0, i + 1).drop_last()
                    =~= spec_extra_views(self.extra@).subrange(0, i as int));
                assert(spec_extra_views(self.extra@).subrange(0, i + 1).last()
                    == spec_extra_views(self.extra@)[i as int]);
            }
            let item = &self.extra[i];
            push_be16(&mut out, item.kind);
            push_be16(&mut out, (item.data.len() % 0x10000) as u16);
            crate::dsstore::append_bytes(&mut out, &item.data);
            if item.data.len() % 2 == 1 {
                out.push(0);
            }
            proof {
                assert(out@ =~= header + spec_extras_bytes(
                    spec_extra_views(self.extra@).subrange(0, i + 1),
                ));
            }
            i = i + 1;
        }
        proof {
            assert(spec_extra_views(self.extra@).subrange(0, n as int) =~= spec_extra_views(
                self.extra@,
            ));
        }
        push_be16(&mut out, 0xFFFF);
        push_be16(&mut out, 0);
        proof {
            assert(out@ =~= spec_alias_bytes(self));
        }
        out
    }

    /// The record's total length, as its 16-bit length field stores it.
    fn total_len(&self) -> (r: u16)
        requires
            self.extra@.len() < 0x1000,
            forall|i: int| 0 <= i < self.extra@.len() ==> (#[trigger] self.extra@[i]).data@.len()
                < 0x8000,
            spec_alias_total(spec_extra_views(self.extra@)) <= 0xFFFF,
        ensures
            r as int == spec_alias_total(spec_extra_views(self.extra@)) % 0x10000,
    {
        let n = self.extra.len();
        let mut total: usize = 154;
        let mut i: usize = 0;
        proof {
            assert(spec_extra_views(self.extra@).subrange(0, 0) =~= Seq::<(int, Seq<u8>)>::empty());
            lemma_alias_total_monotonic(spec_extra_views(self.extra@), 0);
        }
        while i < n
            invariant
                n == self.extra@.len(),
                n < 0x1000,
                i <= n,
                forall|j: int| 0 <= j < n ==> (#[trigger] self.extra@[j]).data@.len() < 0x8000,
                spec_alias_total(spec_extra_views(self.extra@)) <= 0xFFFF,
                total as int == spec_alias_total(spec_extra_views(self.extra@).subrange(
                    0,
                    i as int,
                )),
                total <= 0xFFFF,
            decreases n - i,
        {
            proof {
                assert(spec_extra_views(self.extra@).subrange(0, i + 1).drop_last()
                    =~= spec_extra_views(self.extra@).subrange(0, i as int));
                assert(spec_extra_views(self.extra@).subrange(0, i + 1).last()
                    == spec_extra_views(self.extra@)[i as int]);
                lemma_alias_total_monotonic(spec_extra_views(self.extra@), i + 1);
            }
            let len = self.extra[i].data.len();
            total = total + 4 + len + (len % 2);
            i = i + 1;
        }
        proof {
            assert(spec_extra_views(self.extra@).subrange(0, n as int) =~= spec_extra_views(
                self.extra@,
            ));
        }
        (total % 0x10000) as u16
    }
}

/// A prefix of the extras never makes the record longer than the whole.
proof fn lemma_alias_total_monotonic(items: Seq<(int, Seq<u8>)>, k: int)
    requires
        0 <= k <= items.len(),
    ensures
        spec_alias_total(items.subrange(0, k)) <= spec_alias_total(items),
    decreases items.len() - k,
{
    if k < items.len() {
        lemma_alias_total_monotonic(items, k + 1);
        assert(items.subrange(0, k + 1).drop_last() =~= items.subrange(0, k));
        assert(items.subrange(0, k + 1).last() == items[k]);
    } else {
        assert(items.subrange(0, k) =~= items);
    }
}

/// The stored length of a name field.
fn name_len(name: &str, width: usize) -> (r: u8)
    requires
        width <= 63,
    ensures
        r as int == spec_name_len(name@, width as int),
{
    let n = name.unicode_len();
    if n <= width {
        n as u8
    } else {
        width as u8
    }
}

/// The directory flag of the fixed header.
impl AliasInfo {
    fn is_directory_flag(&self) -> (r: bool)
        ensures
            r == self.target.is_directory,
    {
        self.target.is_directory
    }
}

} // verus!
