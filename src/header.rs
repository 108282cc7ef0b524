//! The primary and backup GPT headers.
use vstd::prelude::*;

use crate::bytes::{
    le32, le64, lemma_u16_in, lemma_u32_in, lemma_u64_in, push_u32, push_u64, read_u32, read_u64,
    u32_at, u64_at,
};
use crate::crc::{crc32, crc32_of, lemma_crc32_detects_bit_flip};
use crate::guid::{guid_at, Guid};
use crate::layout::{NUMBER_OF_PARTITION_ENTRIES, PARTITION_ARRAY_NUM_LBA, SIZE_OF_PARTITION_ENTRY};
use crate::Error;

verus! {

/// "EFI PART" read as a little-endian `u64`.
pub const REQUIRED_SIGNATURE: u64 = 0x5452415020494645;
/// Revision 1.0.
pub const THIS_REVISION: u32 = 0x10000;
pub const MIN_HEADER_SIZE: u32 = 92;
pub const MAX_HEADER_SIZE: u32 = 512;

/// A decoded GPT header.
#[derive(Debug, Clone, Copy, PartialEq, Eq, Structural)]
pub struct GptHeader {
    pub revision: u32,
    pub header_size: u32,
    pub header_crc32: u32,
    pub my_lba: u64,
    pub alternate_lba: u64,
    pub first_usable_lba: u64,
    pub last_usable_lba: u64,
    pub disk_guid: Guid,
    pub partition_entry_lba: u64,
    pub number_of_partition_entries: u32,
    pub size_of_partition_entry: u32,
    pub partition_entry_array_crc32: u32,
}

/// The header whose fields `raw` stores at their offsets.
pub open spec fn header_at(raw: Seq<u8>) -> GptHeader {
    GptHeader {
        revision: u32_at(raw, 8),
        header_size: u32_at(raw, 12),
        header_crc32: u32_at(raw, 16),
        my_lba: u64_at(raw, 24),
        alternate_lba: u64_at(raw, 32),
        first_usable_lba: u64_at(raw, 40),
        last_usable_lba: u64_at(raw, 48),
        disk_guid: guid_at(raw, 56),
        partition_entry_lba: u64_at(raw, 72),
        number_of_partition_entries: u32_at(raw, 80),
        size_of_partition_entry: u32_at(raw, 84),
        partition_entry_array_crc32: u32_at(raw, 88),
    }
}

/// The bytes that the header checksum covers: the first `header_size`
/// bytes of the block, with the checksum field read as zero.
pub open spec fn checksummed_bytes(raw: Seq<u8>, header_size: int) -> Seq<u8> {
    Seq::new(header_size as nat, |i: int| if 16 <= i < 20 { 0u8 } else { raw[i] })
}

/// The header checksum that `raw` should carry for a header of
/// `header_size` bytes.
pub open spec fn header_checksum(raw: Seq<u8>, header_size: int) -> u32 {
    crc32_of(checksummed_bytes(raw, header_size))
}

/// What decoding a 512-byte logical block as a GPT header gives: the first
/// check that fails, in the order signature, revision, header size,
/// checksum, reserved field, zero padding after the header; else the header.
pub open spec fn parse_header(raw: Seq<u8>) -> Result<GptHeader, Error> {
    let signature = u64_at(raw, 0);
    let revision = u32_at(raw, 8);
    let header_size = u32_at(raw, 12);
    let expected = u32_at(raw, 16);
    let computed = header_checksum(raw, header_size as int);
    if signature != REQUIRED_SIGNATURE {
        Err(Error::InvalidSignature(signature))
    } else if revision != THIS_REVISION {
        Err(Error::IncorrectRevision(revision))
    } else if header_size < MIN_HEADER_SIZE || header_size > MAX_HEADER_SIZE {
        Err(Error::InvalidHeaderSize(header_size))
    } else if computed != expected {
        Err(Error::HeaderChecksumMismatch { computed, expected })
    } else if u32_at(raw, 20) != 0 {
        Err(Error::UnexpectedNonZeroValue)
    } else if exists|i: int| header_size <= i < 512 && raw[i] != 0 {
        Err(Error::UnexpectedNonZeroValue)
    } else {
        Ok(header_at(raw))
    }
}

/// The permissive mirror check: one of the two LBA back-references, or the
/// disk GUID, agrees.
pub open spec fn headers_mirror(header: GptHeader, backup: GptHeader) -> bool {
    header.my_lba == backup.alternate_lba || header.alternate_lba == backup.my_lba
        || header.disk_guid == backup.disk_guid
}

/// Whether every byte of the block from `start` on is zero.
fn zero_from(raw: &[u8], start: usize) -> (r: bool)
    requires
        raw@.len() == 512,
        start <= 512,
    ensures
        r == (forall|j: int| start <= j < 512 ==> raw@[j] == 0),
{
    let mut i: usize = start;
    while i < 512
        invariant
            start <= i <= 512,
            raw@.len() == 512,
            forall|j: int| start <= j < i ==> raw@[j] == 0,
        decreases 512 - i,
    {
        if raw[i] != 0 {
            return false;
        }
        i += 1;
    }
    true
}

impl GptHeader {
    /// The fresh primary header of a disk of `disk_size_in_lba` blocks laid
    /// out with one partition-entry array on each side.
    pub open spec fn primary(disk_size_in_lba: u64, disk_guid: Guid) -> GptHeader {
        GptHeader {
            revision: THIS_REVISION,
            header_size: MIN_HEADER_SIZE,
            header_crc32: 0,
            my_lba: 1,
            alternate_lba: (disk_size_in_lba - 1) as u64,
            first_usable_lba: (2 + PARTITION_ARRAY_NUM_LBA) as u64,
            last_usable_lba: (disk_size_in_lba - 1 - PARTITION_ARRAY_NUM_LBA - 1) as u64,
            disk_guid,
            partition_entry_lba: 2,
            number_of_partition_entries: NUMBER_OF_PARTITION_ENTRIES,
            size_of_partition_entry: SIZE_OF_PARTITION_ENTRY,
            partition_entry_array_crc32: 0,
        }
    }

    /// The 512-byte block of this header: every field at its offset, the
    /// reserved field and everything after the 92 bytes of fields zero.
    pub open spec fn encoding(self) -> Seq<u8> {
        let head = le64(REQUIRED_SIGNATURE) + le32(self.revision) + le32(self.header_size) + le32(
            self.header_crc32,
        ) + le32(0);
        let lbas = le64(self.my_lba) + le64(self.alternate_lba) + le64(self.first_usable_lba) + le64(
            self.last_usable_lba,
        );
        let tail = le64(self.partition_entry_lba) + le32(self.number_of_partition_entries) + le32(
            self.size_of_partition_entry,
        ) + le32(self.partition_entry_array_crc32);
        head + lbas + self.disk_guid.encoding() + tail + Seq::new(420, |i: int| 0u8)
    }

    /// This header with both checksums made to match its own encoding and
    /// the partition-entry array `array`.
    pub open spec fn sealed(self, array: Seq<u8>) -> GptHeader {
        let with_array = GptHeader { partition_entry_array_crc32: crc32_of(array), ..self };
        GptHeader {
            header_crc32: header_checksum(with_array.encoding(), self.header_size as int),
            ..with_array
        }
    }

    /// Encodes this header as a 512-byte logical block.
    pub fn encode(&self) -> (r: Vec<u8>)
        ensures
            r@ == self.encoding(),
    {
        let mut out: Vec<u8> = Vec::with_capacity(512);
        push_u64(&mut out, REQUIRED_SIGNATURE);
        push_u32(&mut out, self.revision);
        push_u32(&mut out, self.header_size);
        push_u32(&mut out, self.header_crc32);
        push_u32(&mut out, 0);
        push_u64(&mut out, self.my_lba);
        push_u64(&mut out, self.alternate_lba);
        push_u64(&mut out, self.first_usable_lba);
        push_u64(&mut out, self.last_usable_lba);
        self.disk_guid.encode_into(&mut out);
        push_u64(&mut out, self.partition_entry_lba);
        push_u32(&mut out, self.number_of_partition_entries);
        push_u32(&mut out, self.size_of_partition_entry);
        push_u32(&mut out, self.partition_entry_array_crc32);
        let ghost fields = out@;
        let mut i: usize = 0;
        while i < 420
            invariant
                i <= 420,
                out@ == fields + Seq::new(i as nat, |j: int| 0u8),
            decreases 420 - i,
        {
            out.push(0);
            i += 1;
            assert(out@ =~= fields + Seq::new(i as nat, |j: int| 0u8));
        }
        assert(out@ =~= self.encoding());
        out
    }

    /// This header with the checksum of the partition-entry array `array`
    /// and then its own header checksum filled in.
    pub fn seal(&self, array: &[u8]) -> (h: GptHeader)
        requires
            self.header_size <= 512,
        ensures
            h == self.sealed(array@),
            h.header_crc32 == header_checksum(h.encoding(), h.header_size as int),
    {
        let with_array = GptHeader { partition_entry_array_crc32: crc32(array), ..*self };
        let block = with_array.encode();
        proof {
            lemma_encoding_len(with_array);
        }
        let header_crc32 = Self::crc32_from_logical_block(block.as_slice(), self.header_size);
        let h = GptHeader { header_crc32, ..with_array };
        proof {
            lemma_checksum_ignores_crc_field(with_array, header_crc32);
        }
        h
    }

    /// The backup header of the same disk: it lies in the last block, names
    /// the primary as its alternate, and its array lies just before it.
    pub open spec fn backup(disk_size_in_lba: u64, disk_guid: Guid) -> GptHeader {
        GptHeader {
            my_lba: (disk_size_in_lba - 1) as u64,
            alternate_lba: 1,
            partition_entry_lba: (disk_size_in_lba - 1 - PARTITION_ARRAY_NUM_LBA) as u64,
            ..Self::primary(disk_size_in_lba, disk_guid)
        }
    }

    /// Builds the backup header of a disk of `disk_size_in_lba` blocks; the
    /// two checksum fields are left zero.
    pub fn new_backup(disk_size_in_lba: u64, disk_guid: Guid) -> (h: Self)
        requires
            disk_size_in_lba >= 2 + PARTITION_ARRAY_NUM_LBA,
        ensures
            h == Self::backup(disk_size_in_lba, disk_guid),
    {
        let primary = Self::new_primary(disk_size_in_lba, disk_guid);
        GptHeader {
            my_lba: disk_size_in_lba - 1,
            alternate_lba: 1,
            partition_entry_lba: disk_size_in_lba - 1 - PARTITION_ARRAY_NUM_LBA,
            ..primary
        }
    }

    /// Size in bytes of the partition-entry array this header describes.
    pub open spec fn array_len(self) -> int {
        self.size_of_partition_entry * self.number_of_partition_entries
    }

    /// Builds the primary header of a disk of `disk_size_in_lba` blocks; the
    /// two checksum fields are left zero.
    pub fn new_primary(disk_size_in_lba: u64, disk_guid: Guid) -> (h: Self)
        requires
            disk_size_in_lba >= 2 + PARTITION_ARRAY_NUM_LBA,
        ensures
            h == Self::primary(disk_size_in_lba, disk_guid),
    {
        GptHeader {
            revision: THIS_REVISION,
            header_size: MIN_HEADER_SIZE,
            header_crc32: 0,
            my_lba: 1,
            alternate_lba: disk_size_in_lba - 1,
            first_usable_lba: 2 + PARTITION_ARRAY_NUM_LBA,
            last_usable_lba: disk_size_in_lba - 1 - PARTITION_ARRAY_NUM_LBA - 1,
            disk_guid,
            partition_entry_lba: 2,
            number_of_partition_entries: NUMBER_OF_PARTITION_ENTRIES,
            size_of_partition_entry: SIZE_OF_PARTITION_ENTRY,
            partition_entry_array_crc32: 0,
        }
    }

    /// CRC-32 of the first `header_size` bytes of a logical block with the
    /// checksum field zeroed.
    pub fn crc32_from_logical_block(logical_block: &[u8], header_size: u32) -> (r: u32)
        requires
            logical_block@.len() == 512,
            header_size <= 512,
        ensures
            r == header_checksum(logical_block@, header_size as int),
    {
        let mut copy: Vec<u8> = Vec::with_capacity(header_size as usize);
        let mut i: usize = 0;
        while i < header_size as usize
            invariant
                i <= header_size <= 512,
                logical_block@.len() == 512,
                copy@ =~= checksummed_bytes(logical_block@, header_size as int).subrange(
                    0,
                    i as int,
                ),
            decreases header_size - i,
        {
            if 16 <= i && i < 20 {
                copy.push(0);
            } else {
                copy.push(logical_block[i]);
            }
            i += 1;
        }
        assert(copy@ =~= checksummed_bytes(logical_block@, header_size as int));
        crc32(copy.as_slice())
    }

    /// Decodes and checks a 512-byte logical block as a GPT header.
    pub fn parse(raw: &[u8]) -> (r: Result<Self, Error>)
        requires
            raw@.len() == 512,
        ensures
            r == parse_header(raw@),
    {
        let signature = read_u64(raw, 0);
        if signature != REQUIRED_SIGNATURE {
            return Err(Error::InvalidSignature(signature));
        }
        let revision = read_u32(raw, 8);
        if revision != THIS_REVISION {
            return Err(Error::IncorrectRevision(revision));
        }
        let header_size = read_u32(raw, 12);
        if header_size < MIN_HEADER_SIZE || header_size > MAX_HEADER_SIZE {
            return Err(Error::InvalidHeaderSize(header_size));
        }
        let header_crc32 = read_u32(raw, 16);
        let computed_crc32 = Self::crc32_from_logical_block(raw, header_size);
        if computed_crc32 != header_crc32 {
            return Err(Error::HeaderChecksumMismatch { computed: computed_crc32, expected: header_crc32 });
        }
        if read_u32(raw, 20) != 0 {
            return Err(Error::UnexpectedNonZeroValue);
        }
        let h = GptHeader {
            revision,
            header_size,
            header_crc32,
            my_lba: read_u64(raw, 24),
            alternate_lba: read_u64(raw, 32),
            first_usable_lba: read_u64(raw, 40),
            last_usable_lba: read_u64(raw, 48),
            disk_guid: Guid::parse(raw, 56),
            partition_entry_lba: read_u64(raw, 72),
            number_of_partition_entries: read_u32(raw, 80),
            size_of_partition_entry: read_u32(raw, 84),
            partition_entry_array_crc32: read_u32(raw, 88),
        };
        if !zero_from(raw, header_size as usize) {
            return Err(Error::UnexpectedNonZeroValue);
        }
        Ok(h)
    }

    /// The byte range `[start, end)` of the partition-entry array.
    pub fn partition_entry_array_byte_range(&self) -> (r: core::ops::Range<u64>)
        requires
            self.partition_entry_lba * 512 + self.array_len() <= u64::MAX,
        ensures
            r.start == self.partition_entry_lba * 512,
            r.end == self.partition_entry_lba * 512 + self.array_len(),
    {
        let start = self.partition_entry_lba * 512;
        let size = self.size_of_partition_entry as u64 * self.number_of_partition_entries as u64;
        core::ops::Range { start, end: start + size }
    }

    /// Fails unless `backup` mirrors `header` in at least one way: its
    /// alternate LBA names the primary, the primary's alternate LBA names it,
    /// or the disk GUIDs agree.
    pub fn compare_header_and_backup_header(header: &Self, backup: &Self) -> (r: Result<(), Error>)
        ensures
            r == (if headers_mirror(*header, *backup) {
                Ok(())
            } else {
                Err(Error::HeaderDoesNotMatchBackup)
            }),
    {
        if header.my_lba == backup.alternate_lba || header.alternate_lba == backup.my_lba
            || header.disk_guid == backup.disk_guid {
            Ok(())
        } else {
            Err(Error::HeaderDoesNotMatchBackup)
        }
    }
}

/// Checksum sensitivity: flipping any one bit of a valid header's first
/// `header_size` bytes after the checksum field makes decoding fail with a
/// checksum mismatch. (A flip in the signature, revision or size field is
/// reported by the check on that field, which comes first.)
pub proof fn lemma_header_bit_flip_detected(raw: Seq<u8>, pos: int, bit: u8)
    requires
        raw.len() == 512,
        parse_header(raw) is Ok,
        20 <= pos < u32_at(raw, 12),
        bit < 8,
    ensures
        parse_header(raw.update(pos, raw[pos] ^ (1u8 << bit))) == Err::<GptHeader, Error>(
            Error::HeaderChecksumMismatch {
                computed: header_checksum(
                    raw.update(pos, raw[pos] ^ (1u8 << bit)),
                    u32_at(raw, 12) as int,
                ),
                expected: u32_at(raw, 16),
            },
        ),
        header_checksum(raw.update(pos, raw[pos] ^ (1u8 << bit)), u32_at(raw, 12) as int)
            != u32_at(raw, 16),
{
    let flipped = raw.update(pos, raw[pos] ^ (1u8 << bit));
    let header_size = u32_at(raw, 12) as int;
    assert(u64_at(flipped, 0) == u64_at(raw, 0));
    assert(u32_at(flipped, 8) == u32_at(raw, 8));
    assert(u32_at(flipped, 12) == u32_at(raw, 12));
    assert(u32_at(flipped, 16) == u32_at(raw, 16));
    let c = checksummed_bytes(raw, header_size);
    assert(checksummed_bytes(flipped, header_size) =~= c.update(pos, c[pos] ^ (1u8 << bit)));
    lemma_crc32_detects_bit_flip(c, pos, bit);
}

/// Every header encodes to 512 bytes, with the 92 bytes of fields first.
pub proof fn lemma_encoding_len(h: GptHeader)
    ensures
        h.encoding().len() == 512,
        forall|i: int| 92 <= i < 512 ==> #[trigger] h.encoding()[i] == 0,
{
    assert(le64(0).len() == 8 && le32(0).len() == 4);
    assert(h.disk_guid.encoding().len() == 16) by {
        assert(le64(h.disk_guid.data4).len() == 8);
    }
}

/// The header checksum does not depend on the value in the checksum field.
pub proof fn lemma_checksum_ignores_crc_field(h: GptHeader, c: u32)
    requires
        h.header_size <= 512,
    ensures
        header_checksum(GptHeader { header_crc32: c, ..h }.encoding(), h.header_size as int)
            == header_checksum(h.encoding(), h.header_size as int),
{
    let g = GptHeader { header_crc32: c, ..h };
    lemma_encoding_len(h);
    lemma_encoding_len(g);
    let (e, f) = (h.encoding(), g.encoding());
    assert forall|i: int| 0 <= i < 512 && !(16 <= i < 20) implies e[i] == f[i] by {
        assert(le64(0).len() == 8 && le32(0).len() == 4);
    }
    assert(checksummed_bytes(e, h.header_size as int) =~= checksummed_bytes(f, h.header_size as int));
}

/// Round trip: a header with the current revision, a valid size and a
/// matching header checksum decodes from its own encoding to itself.
pub proof fn lemma_header_round_trip(h: GptHeader)
    requires
        h.revision == THIS_REVISION,
        MIN_HEADER_SIZE <= h.header_size <= MAX_HEADER_SIZE,
        h.header_crc32 == header_checksum(h.encoding(), h.header_size as int),
    ensures
        parse_header(h.encoding()) == Ok::<GptHeader, Error>(h),
{
    let e = h.encoding();
    lemma_encoding_len(h);
    assert(le64(0).len() == 8 && le32(0).len() == 4);
    assert(e.subrange(0, 8) =~= le64(REQUIRED_SIGNATURE));
    lemma_u64_in(e, 0, REQUIRED_SIGNATURE);
    assert(e.subrange(8, 12) =~= le32(h.revision));
    lemma_u32_in(e, 8, h.revision);
    assert(e.subrange(12, 16) =~= le32(h.header_size));
    lemma_u32_in(e, 12, h.header_size);
    assert(e.subrange(16, 20) =~= le32(h.header_crc32));
    lemma_u32_in(e, 16, h.header_crc32);
    assert(e.subrange(20, 24) =~= le32(0));
    lemma_u32_in(e, 20, 0);
    assert(e.subrange(24, 32) =~= le64(h.my_lba));
    lemma_u64_in(e, 24, h.my_lba);
    assert(e.subrange(32, 40) =~= le64(h.alternate_lba));
    lemma_u64_in(e, 32, h.alternate_lba);
    assert(e.subrange(40, 48) =~= le64(h.first_usable_lba));
    lemma_u64_in(e, 40, h.first_usable_lba);
    assert(e.subrange(48, 56) =~= le64(h.last_usable_lba));
    lemma_u64_in(e, 48, h.last_usable_lba);
    let g = h.disk_guid;
    assert(e.subrange(56, 60) =~= le32(g.data1));
    lemma_u32_in(e, 56, g.data1);
    assert(e.subrange(60, 62) =~= crate::bytes::le16(g.data2));
    lemma_u16_in(e, 60, g.data2);
    assert(e.subrange(62, 64) =~= crate::bytes::le16(g.data3));
    lemma_u16_in(e, 62, g.data3);
    assert(e.subrange(64, 72) =~= le64(g.data4));
    lemma_u64_in(e, 64, g.data4);
    assert(e.subrange(72, 80) =~= le64(h.partition_entry_lba));
    lemma_u64_in(e, 72, h.partition_entry_lba);
    assert(e.subrange(80, 84) =~= le32(h.number_of_partition_entries));
    lemma_u32_in(e, 80, h.number_of_partition_entries);
    assert(e.subrange(84, 88) =~= le32(h.size_of_partition_entry));
    lemma_u32_in(e, 84, h.size_of_partition_entry);
    assert(e.subrange(88, 92) =~= le32(h.partition_entry_array_crc32));
    lemma_u32_in(e, 88, h.partition_entry_array_crc32);
    assert(header_at(e) == h);
}

/// Mirror symmetry: a backup built from a primary header by swapping its
/// two LBAs and keeping its disk GUID passes the mirror check against the
/// primary, whichever of the two is taken as primary.
pub proof fn lemma_mirror_symmetric(header: GptHeader, backup: GptHeader)
    requires
        backup.my_lba == header.alternate_lba,
        backup.alternate_lba == header.my_lba,
        backup.disk_guid == header.disk_guid,
    ensures
        headers_mirror(header, backup),
        headers_mirror(backup, header),
{
}

} // verus!
