//! The partition-entry array and its entries.
use vstd::prelude::*;

use crate::bytes::{le64, push_u16, push_u64, read_u16, read_u64, u16_at, u64_at};
use crate::crc::{crc32, crc32_of};
use crate::guid::{efi_system_partition_type, efi_system_partition_type_spec, guid_at, Guid};
use crate::layout::PARTITION_ARRAY_NUM_LBA;
use crate::header::GptHeader;
use crate::Error;

verus! {

/// Attribute bit of a partition that the platform requires.
pub const REQUIRED_PARTITION_BIT: u64 = 0;

/// Bytes that one entry needs: two GUIDs, three `u64`, a 72-byte name.
pub const MIN_PARTITION_ENTRY_SIZE: u32 = 128;
/// UTF-16 code units in the name field.
pub const NAME_UNITS: usize = 36;

/// The text that lossy UTF-16 decoding gives for `units` (each unpaired
/// surrogate becomes U+FFFD).
pub uninterp spec fn utf16_lossy_of(units: Seq<u16>) -> Seq<char>;

/// Relies on String::from_utf16_lossy: the text depends on the code units
/// alone, and no units give the empty text.
#[verifier::external_body]
fn decode_utf16_lossy(units: &[u16]) -> (r: String)
    ensures
        r@ == utf16_lossy_of(units@),
        units@.len() == 0 ==> r@.len() == 0,
{
    String::from_utf16_lossy(units)
}

/// The UTF-16 code units of `s`.
pub uninterp spec fn utf16_of(s: Seq<char>) -> Seq<u16>;

/// Relies on str::encode_utf16: the code units depend on the text alone.
#[verifier::external_body]
fn encode_utf16(s: &str) -> (r: Vec<u16>)
    ensures
        r@ == utf16_of(s@),
{
    s.encode_utf16().collect()
}

/// The 72-byte name field holding the first 36 of `units`, little-endian,
/// padded with zero units.
pub open spec fn name_field(units: Seq<u16>) -> Seq<u8> {
    Seq::new(
        72,
        |i: int|
            {
                let u: u16 = if i / 2 < units.len() {
                    units[i / 2]
                } else {
                    0u16
                };
                if i % 2 == 0 {
                    u as u8
                } else {
                    (u >> 8u16) as u8
                }
            },
    )
}

/// The 128 bytes of an entry; a name longer than 36 code units is cut.
pub open spec fn entry_encoding(e: PartitionEntryView) -> Seq<u8> {
    e.partition_type_guid.encoding() + e.unique_partition_guid.encoding() + le64(e.starting_lba)
        + le64(e.ending_lba) + le64(e.attributes) + name_field(utf16_of(e.partition_name))
}

/// One decoded partition entry.
#[derive(Debug)]
pub struct PartitionEntry {
    pub partition_type_guid: Guid,
    pub unique_partition_guid: Guid,
    pub starting_lba: u64,
    pub ending_lba: u64,
    pub attributes: u64,
    pub partition_name: String,
}

/// What a partition entry holds, with its name as text.
pub struct PartitionEntryView {
    pub partition_type_guid: Guid,
    pub unique_partition_guid: Guid,
    pub starting_lba: u64,
    pub ending_lba: u64,
    pub attributes: u64,
    pub partition_name: Seq<char>,
}

impl View for PartitionEntry {
    type V = PartitionEntryView;

    open spec fn view(&self) -> PartitionEntryView {
        PartitionEntryView {
            partition_type_guid: self.partition_type_guid,
            unique_partition_guid: self.unique_partition_guid,
            starting_lba: self.starting_lba,
            ending_lba: self.ending_lba,
            attributes: self.attributes,
            partition_name: self.partition_name@,
        }
    }
}

pub open spec fn views_of(v: Seq<PartitionEntry>) -> Seq<PartitionEntryView> {
    v.map_values(|e: PartitionEntry| e@)
}

/// The 36 code units of the name field of the entry at `s[off..]`.
pub open spec fn name_units(s: Seq<u8>, off: int) -> Seq<u16> {
    Seq::new(36, |i: int| u16_at(s, off + 56 + 2 * i))
}

/// The code units before the first zero unit.
pub open spec fn until_nul(u: Seq<u16>) -> Seq<u16>
    decreases u.len(),
{
    if u.len() == 0 || u[0] == 0 {
        Seq::empty()
    } else {
        seq![u[0]] + until_nul(u.drop_first())
    }
}

/// The entry stored at `s[off..off + 128]`.
pub open spec fn entry_at(s: Seq<u8>, off: int) -> PartitionEntryView {
    PartitionEntryView {
        partition_type_guid: guid_at(s, off),
        unique_partition_guid: guid_at(s, off + 16),
        starting_lba: u64_at(s, off + 32),
        ending_lba: u64_at(s, off + 40),
        attributes: u64_at(s, off + 48),
        partition_name: utf16_lossy_of(until_nul(name_units(s, off))),
    }
}

/// The `count` entries of an array whose entries are `entry_size` bytes apart.
pub open spec fn entries_of(raw: Seq<u8>, entry_size: int, count: int) -> Seq<PartitionEntryView> {
    Seq::new(count as nat, |i: int| entry_at(raw, i * entry_size))
}

/// What decoding the partition-entry array `raw` of `header` gives: a
/// checksum mismatch first, then an entry size too small for an entry
/// (only where there are entries to decode), else its entries.
pub open spec fn parse_entry_array(raw: Seq<u8>, header: GptHeader) -> Result<
    Seq<PartitionEntryView>,
    Error,
> {
    let computed = crc32_of(raw);
    let expected = header.partition_entry_array_crc32;
    if computed != expected {
        Err(Error::PartitionEntryArrayChecksumMismatch { computed, expected })
    } else if header.number_of_partition_entries > 0 && header.size_of_partition_entry
        < MIN_PARTITION_ENTRY_SIZE {
        Err(Error::InvalidPartitionEntrySize(header.size_of_partition_entry))
    } else {
        Ok(entries_of(raw, header.size_of_partition_entry as int, header.number_of_partition_entries as int))
    }
}

proof fn lemma_until_nul(u: Seq<u16>, n: int)
    requires
        0 <= n <= u.len(),
        forall|j: int| 0 <= j < n ==> u[j] != 0,
        n == u.len() || u[n] == 0,
    ensures
        until_nul(u) == u.subrange(0, n),
    decreases n,
{
    if n > 0 {
        lemma_until_nul(u.drop_first(), n - 1);
        assert(until_nul(u) =~= u.subrange(0, n));
    } else {
        assert(until_nul(u) =~= u.subrange(0, n));
    }
}

/// Number of code units of the name of the entry at `bytes[off..]` before
/// the first zero unit.
fn name_len(bytes: &[u8], off: usize) -> (n: usize)
    requires
        off + 128 <= bytes.len(),
    ensures
        n <= 36,
        forall|j: int| 0 <= j < n ==> name_units(bytes@, off as int)[j] != 0,
        n == 36 || name_units(bytes@, off as int)[n as int] == 0,
{
    let mut k: usize = 0;
    while k < NAME_UNITS
        invariant
            k <= 36,
            off + 128 <= bytes.len(),
            forall|j: int| 0 <= j < k ==> name_units(bytes@, off as int)[j] != 0,
        decreases 36 - k,
    {
        if read_u16(bytes, off + 56 + 2 * k) == 0 {
            return k;
        }
        k += 1;
    }
    k
}

impl PartitionEntry {
    /// The 128 bytes of this entry; a name longer than 36 code units is cut.
    pub open spec fn encoding(&self) -> Seq<u8> {
        entry_encoding(self@)
    }

    /// Appends the 128 bytes of this entry to `out`.
    pub fn encode_into(&self, out: &mut Vec<u8>)
        ensures
            final(out)@ == old(out)@ + self.encoding(),
    {
        self.partition_type_guid.encode_into(out);
        self.unique_partition_guid.encode_into(out);
        push_u64(out, self.starting_lba);
        push_u64(out, self.ending_lba);
        push_u64(out, self.attributes);
        let units = encode_utf16(self.partition_name.as_str());
        let ghost fields = out@;
        let ghost field = name_field(units@);
        let mut k: usize = 0;
        while k < NAME_UNITS
            invariant
                k <= 36,
                field == name_field(units@),
                out@ == fields + field.subrange(0, 2 * k as int),
            decreases 36 - k,
        {
            let u: u16 = if k < units.len() {
                units[k]
            } else {
                0
            };
            push_u16(out, u);
            assert(field.subrange(0, 2 * (k + 1)) =~= field.subrange(0, 2 * k as int)
                + crate::bytes::le16(u));
            k += 1;
        }
        assert(field.subrange(0, 72) =~= field);
        assert(out@ =~= old(out)@ + self.encoding());
    }

    /// The entry of the one partition of a fresh disk: an EFI system
    /// partition of `partition_size_in_lba` blocks that starts right after
    /// the MBR, the primary header and the primary array, marked required.
    pub fn new_first_partition_with_size_in_lba(
        partition_size_in_lba: u64,
        unique_partition_guid: Guid,
        partition_name: String,
    ) -> (e: PartitionEntry)
        requires
            1 <= partition_size_in_lba <= u64::MAX - (1 + PARTITION_ARRAY_NUM_LBA),
        ensures
            e.partition_type_guid == efi_system_partition_type_spec(),
            e.unique_partition_guid == unique_partition_guid,
            e.starting_lba == 2 + PARTITION_ARRAY_NUM_LBA,
            e.ending_lba == 2 + PARTITION_ARRAY_NUM_LBA + partition_size_in_lba - 1,
            e.attributes == 1,
            e.partition_name@ == partition_name@,
    {
        let starting_lba = 2 + PARTITION_ARRAY_NUM_LBA;
        assert(1u64 << 0u64 == 1) by (bit_vector);
        PartitionEntry {
            partition_type_guid: efi_system_partition_type(),
            unique_partition_guid,
            starting_lba,
            ending_lba: starting_lba + (partition_size_in_lba - 1),
            attributes: 1u64 << REQUIRED_PARTITION_BIT,
            partition_name,
        }
    }

    /// The byte range `[starting_lba * 512, (ending_lba + 1) * 512)` of the
    /// partition.
    pub fn partition_byte_range(&self) -> (r: core::ops::Range<u64>)
        requires
            (self.ending_lba + 1) * 512 <= u64::MAX,
            self.starting_lba * 512 <= u64::MAX,
        ensures
            r.start == self.starting_lba * 512,
            r.end == (self.ending_lba + 1) * 512,
    {
        core::ops::Range { start: self.starting_lba * 512, end: (self.ending_lba + 1) * 512 }
    }

    /// Decodes the entry at `bytes[off..off + 128]`; its name is the text of
    /// the UTF-16 code units before the first zero unit.
    pub fn parse(bytes: &[u8], off: usize) -> (e: PartitionEntry)
        requires
            off + 128 <= bytes.len(),
        ensures
            e@ == entry_at(bytes@, off as int),
    {
        let n = name_len(bytes, off);
        let mut units: Vec<u16> = Vec::with_capacity(n);
        let mut k: usize = 0;
        while k < n
            invariant
                k <= n <= 36,
                off + 128 <= bytes.len(),
                units@ =~= name_units(bytes@, off as int).subrange(0, k as int),
            decreases n - k,
        {
            units.push(read_u16(bytes, off + 56 + 2 * k));
            k += 1;
        }
        proof {
            lemma_until_nul(name_units(bytes@, off as int), n as int);
        }
        PartitionEntry {
            partition_type_guid: Guid::parse(bytes, off),
            unique_partition_guid: Guid::parse(bytes, off + 16),
            starting_lba: read_u64(bytes, off + 32),
            ending_lba: read_u64(bytes, off + 40),
            attributes: read_u64(bytes, off + 48),
            partition_name: decode_utf16_lossy(units.as_slice()),
        }
    }

    /// Checks the array's checksum against `header`, then decodes its
    /// `number_of_partition_entries` entries of `size_of_partition_entry`
    /// bytes each.
    pub fn parse_array(raw: &[u8], header: &GptHeader) -> (r: Result<Vec<PartitionEntry>, Error>)
        requires
            raw@.len() == header.array_len(),
        ensures
            match r {
                Ok(v) => parse_entry_array(raw@, *header) == Ok::<Seq<PartitionEntryView>, Error>(views_of(v@)),
                Err(e) => parse_entry_array(raw@, *header) == Err::<Seq<PartitionEntryView>, Error>(e),
            },
    {
        let computed_crc32 = crc32(raw);
        if computed_crc32 != header.partition_entry_array_crc32 {
            return Err(
                Error::PartitionEntryArrayChecksumMismatch {
                    computed: computed_crc32,
                    expected: header.partition_entry_array_crc32,
                },
            );
        }
        if header.number_of_partition_entries > 0 && header.size_of_partition_entry
            < MIN_PARTITION_ENTRY_SIZE {
            return Err(Error::InvalidPartitionEntrySize(header.size_of_partition_entry));
        }
        let size = header.size_of_partition_entry as usize;
        let count = header.number_of_partition_entries as usize;
        let ghost expect = entries_of(raw@, size as int, count as int);
        assert(parse_entry_array(raw@, *header) == Ok::<Seq<PartitionEntryView>, Error>(expect));
        let mut entries: Vec<PartitionEntry> = Vec::new();
        let mut i: usize = 0;
        let mut off: usize = 0;
        while i < count
            invariant
                i <= count,
                count > 0 ==> size >= 128,
                raw.len() == size * count,
                off == i * size,
                expect == entries_of(raw@, size as int, count as int),
                parse_entry_array(raw@, *header) == Ok::<Seq<PartitionEntryView>, Error>(expect),
                views_of(entries@) =~= expect.subrange(0, i as int),
            decreases count - i,
        {
            assert(off + size <= raw@.len()) by (nonlinear_arith)
                requires
                    off == i * size,
                    i < count,
                    raw@.len() == size * count,
            ;
            let e = PartitionEntry::parse(raw, off);
            let ghost before = entries@;
            entries.push(e);
            assert(views_of(entries@) =~= views_of(before).push(e@));
            assert(expect[i as int] == entry_at(raw@, off as int));
            assert(expect.subrange(0, i + 1) =~= expect.subrange(0, i as int).push(e@));
            assert(off + size == (i + 1) * size) by (nonlinear_arith)
                requires
                    off == i * size,
            ;
            off = off + size;
            i += 1;
        }
        assert(expect.subrange(0, count as int) =~= expect);
        Ok(entries)
    }

    /// Whether two entries hold the same values.
    pub fn same_as(&self, other: &PartitionEntry) -> (r: bool)
        ensures
            r == (self@ == other@),
    {
        self.partition_type_guid == other.partition_type_guid && self.unique_partition_guid
            == other.unique_partition_guid && self.starting_lba == other.starting_lba
            && self.ending_lba == other.ending_lba && self.attributes == other.attributes
            && self.partition_name == other.partition_name
    }

    /// Whether two arrays hold the same entries in the same order.
    pub fn arrays_match(a: &Vec<PartitionEntry>, b: &Vec<PartitionEntry>) -> (r: bool)
        ensures
            r == (views_of(a@) == views_of(b@)),
    {
        if a.len() != b.len() {
            assert(views_of(a@).len() != views_of(b@).len());
            return false;
        }
        let mut i: usize = 0;
        while i < a.len()
            invariant
                i <= a@.len() == b@.len(),
                forall|j: int| 0 <= j < i ==> a@[j]@ == b@[j]@,
            decreases a@.len() - i,
        {
            if !a[i].same_as(&b[i]) {
                assert(views_of(a@)[i as int] != views_of(b@)[i as int]);
                return false;
            }
            i += 1;
        }
        assert(views_of(a@) =~= views_of(b@));
        true
    }
}

} // verus!
