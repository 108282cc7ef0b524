//! The protective MBR in logical block 0.
use vstd::prelude::*;

use crate::bytes::{
    le16, le24, le32, lemma_le16_decodes, lemma_u16_encodes, lemma_u24_encodes, lemma_u32_encodes, push_u16, push_u24,
    push_u32, read_u16, read_u24, read_u32, u16_at, u24_at, u32_at,
};
use crate::Error;

verus! {

pub const BOOT_CODE_SIZE: usize = 440;
pub const PARTITION_RECORD_COUNT: usize = 4;
pub const REQUIRED_SIGNATURE: u16 = 0xAA55;
pub const UNIQUE_MBR_SIGNATURE_OFFSET: usize = 440;
pub const PARTITION_RECORD_OFFSET: usize = 446;
pub const PARTITION_RECORD_SIZE: usize = 16;
pub const SIGNATURE_OFFSET: usize = 510;
pub const OS_TYPE_GPT_PROTECTIVE: u8 = 0xEE;
pub const PARTITION_RECORD_MAX_ENDING_CHS: u32 = 0xFF_FFFF;
pub const PARTITION_RECORD_MAX_SIZE_IN_LBA: u32 = 0xFFFF_FFFF;

/// The 512 bytes of the protective MBR of a disk of `disk_size_in_lba`
/// blocks.
pub open spec fn protective_mbr_encoding(disk_size_in_lba: u64) -> Seq<u8> {
    let zero = MbrPartitionRecord {
        boot_indicator: 0,
        starting_chs: 0,
        os_type: 0,
        ending_chs: 0,
        starting_lba: 0,
        size_in_lba: 0,
    };
    Seq::new(440, |i: int| 0u8) + le32(0) + seq![0u8, 0u8] + MbrPartitionRecord::protective(
        disk_size_in_lba,
    ).encoding() + zero.encoding() + zero.encoding() + zero.encoding() + le16(REQUIRED_SIGNATURE)
}

/// One of the four legacy partition records.
#[derive(Debug, Clone, Copy, PartialEq, Eq, Structural)]
pub struct MbrPartitionRecord {
    pub boot_indicator: u8,
    pub starting_chs: u32,
    pub os_type: u8,
    pub ending_chs: u32,
    pub starting_lba: u32,
    pub size_in_lba: u32,
}

/// The record stored at `s[off..off + 16]`.
pub open spec fn record_at(s: Seq<u8>, off: int) -> MbrPartitionRecord {
    MbrPartitionRecord {
        boot_indicator: s[off],
        starting_chs: u24_at(s, off + 1),
        os_type: s[off + 4],
        ending_chs: u24_at(s, off + 5),
        starting_lba: u32_at(s, off + 8),
        size_in_lba: u32_at(s, off + 12),
    }
}

pub open spec fn min_int(a: int, b: int) -> int {
    if a <= b {
        a
    } else {
        b
    }
}

impl MbrPartitionRecord {
    /// The 16 bytes of this record; the CHS fields keep their low three bytes.
    pub open spec fn encoding(self) -> Seq<u8> {
        seq![self.boot_indicator] + le24(self.starting_chs) + seq![self.os_type] + le24(
            self.ending_chs,
        ) + le32(self.starting_lba) + le32(self.size_in_lba)
    }

    pub open spec fn is_zeroed(self) -> bool {
        self == MbrPartitionRecord {
            boot_indicator: 0,
            starting_chs: 0,
            os_type: 0,
            ending_chs: 0,
            starting_lba: 0,
            size_in_lba: 0,
        }
    }

    /// The protective record that covers a disk of `disk_size_in_lba` blocks.
    pub open spec fn protective(disk_size_in_lba: u64) -> MbrPartitionRecord {
        MbrPartitionRecord {
            boot_indicator: 0,
            starting_chs: 512,
            os_type: OS_TYPE_GPT_PROTECTIVE,
            ending_chs: min_int(disk_size_in_lba * 512 - 1, 0xFF_FFFF) as u32,
            starting_lba: 1,
            size_in_lba: min_int(disk_size_in_lba - 1, 0xFFFF_FFFF) as u32,
        }
    }

    pub fn zeroed() -> (r: Self)
        ensures
            r.is_zeroed(),
    {
        MbrPartitionRecord {
            boot_indicator: 0,
            starting_chs: 0,
            os_type: 0,
            ending_chs: 0,
            starting_lba: 0,
            size_in_lba: 0,
        }
    }

    /// The protective record for a disk of `disk_size_in_lba` blocks: it
    /// starts at LBA 1 and covers the rest of the disk, clamped to what the
    /// record's fields can hold.
    pub fn new_protective_with_disk_size_in_lba(disk_size_in_lba: u64) -> (r: Self)
        requires
            disk_size_in_lba >= 1,
        ensures
            r == Self::protective(disk_size_in_lba),
    {
        let size_in_lba: u32 = if disk_size_in_lba - 1 > PARTITION_RECORD_MAX_SIZE_IN_LBA as u64 {
            PARTITION_RECORD_MAX_SIZE_IN_LBA
        } else {
            (disk_size_in_lba - 1) as u32
        };
        // disk_size_in_lba * 512 - 1 exceeds the CHS maximum from 0x8000 blocks on
        let ending_chs: u32 = if disk_size_in_lba >= 0x8000 {
            PARTITION_RECORD_MAX_ENDING_CHS
        } else {
            (disk_size_in_lba * 512 - 1) as u32
        };
        MbrPartitionRecord {
            boot_indicator: 0,
            starting_chs: 512,
            starting_lba: 1,
            os_type: OS_TYPE_GPT_PROTECTIVE,
            size_in_lba,
            ending_chs,
        }
    }

    /// Decodes the record at `raw[off..off + 16]`.
    pub fn parse(raw: &[u8], off: usize) -> (r: Self)
        requires
            off + 16 <= raw.len(),
        ensures
            r == record_at(raw@, off as int),
            r.encoding() == raw@.subrange(off as int, off + 16),
    {
        let r = MbrPartitionRecord {
            boot_indicator: raw[off],
            starting_chs: read_u24(raw, off + 1),
            os_type: raw[off + 4],
            ending_chs: read_u24(raw, off + 5),
            starting_lba: read_u32(raw, off + 8),
            size_in_lba: read_u32(raw, off + 12),
        };
        proof {
            lemma_u24_encodes(raw@, off + 1);
            lemma_u24_encodes(raw@, off + 5);
            lemma_u32_encodes(raw@, off + 8);
            lemma_u32_encodes(raw@, off + 12);
            assert(r.encoding() =~= raw@.subrange(off as int, off + 16));
        }
        r
    }

    /// Appends the 16 bytes of this record to `out`.
    pub fn encode_into(&self, out: &mut Vec<u8>)
        ensures
            final(out)@ == old(out)@ + self.encoding(),
    {
        out.push(self.boot_indicator);
        push_u24(out, self.starting_chs);
        out.push(self.os_type);
        push_u24(out, self.ending_chs);
        push_u32(out, self.starting_lba);
        push_u32(out, self.size_in_lba);
        assert(out@ =~= old(out)@ + self.encoding());
    }
}

/// The legacy boot sector that a GPT disk carries in logical block 0.
#[derive(Debug, Clone, Copy)]
pub struct Mbr {
    pub boot_code: [u8; 440],
    pub unique_mbr_disk_signature: u32,
    pub partition_record: [MbrPartitionRecord; 4],
    pub signature: u16,
}

impl Mbr {
    /// The 512 bytes of this boot sector; the two bytes between the disk
    /// signature and the partition records are zero.
    pub open spec fn encoding(&self) -> Seq<u8> {
        self.boot_code@ + le32(self.unique_mbr_disk_signature) + seq![0u8, 0u8]
            + self.partition_record@[0].encoding()
            + self.partition_record@[1].encoding() + self.partition_record@[2].encoding()
            + self.partition_record@[3].encoding() + le16(self.signature)
    }

    /// `self` holds the fields that `raw` stores at their offsets.
    pub open spec fn decoded_from(&self, raw: Seq<u8>) -> bool {
        &&& self.boot_code@ == raw.subrange(0, 440)
        &&& self.unique_mbr_disk_signature == u32_at(raw, 440)
        &&& forall|i: int|
            0 <= i < 4 ==> #[trigger] self.partition_record@[i] == record_at(raw, 446 + 16 * i)
        &&& self.signature == u16_at(raw, 510)
    }

    /// A protective MBR for a disk of `disk_size_in_lba` blocks: zeroed boot
    /// code and disk signature, the protective record first, three zeroed
    /// records, and the required signature.
    pub fn new_protective_with_disk_size_in_lba(disk_size_in_lba: u64) -> (m: Self)
        requires
            disk_size_in_lba >= 1,
        ensures
            m.boot_code@ == Seq::new(440, |i: int| 0u8),
            m.unique_mbr_disk_signature == 0,
            m.partition_record@[0] == MbrPartitionRecord::protective(disk_size_in_lba),
            m.partition_record@[1].is_zeroed(),
            m.partition_record@[2].is_zeroed(),
            m.partition_record@[3].is_zeroed(),
            m.signature == REQUIRED_SIGNATURE,
            m.encoding() == protective_mbr_encoding(disk_size_in_lba),
    {
        let m = Mbr {
            boot_code: [0u8; 440],
            unique_mbr_disk_signature: 0,
            partition_record: [
                MbrPartitionRecord::new_protective_with_disk_size_in_lba(disk_size_in_lba),
                MbrPartitionRecord::zeroed(),
                MbrPartitionRecord::zeroed(),
                MbrPartitionRecord::zeroed(),
            ],
            signature: REQUIRED_SIGNATURE,
        };
        assert(m.boot_code@ =~= Seq::new(440, |i: int| 0u8));
        m
    }

    /// The 512-byte encoding of this boot sector.
    pub fn encode(&self) -> (r: Vec<u8>)
        ensures
            r@ == self.encoding(),
            r@.len() == 512,
    {
        let mut out: Vec<u8> = Vec::with_capacity(512);
        let mut i: usize = 0;
        while i < BOOT_CODE_SIZE
            invariant
                i <= 440,
                out@ == self.boot_code@.subrange(0, i as int),
            decreases 440 - i,
        {
            out.push(self.boot_code[i]);
            assert(out@ =~= self.boot_code@.subrange(0, i + 1));
            i += 1;
        }
        assert(out@ =~= self.boot_code@);
        push_u32(&mut out, self.unique_mbr_disk_signature);
        out.push(0);
        out.push(0);
        self.partition_record[0].encode_into(&mut out);
        self.partition_record[1].encode_into(&mut out);
        self.partition_record[2].encode_into(&mut out);
        self.partition_record[3].encode_into(&mut out);
        push_u16(&mut out, self.signature);
        proof {
            lemma_encoding_len(*self);
        }
        out
    }

    /// Decodes a 512-byte boot sector; fails unless its last two bytes hold
    /// the required signature.
    pub fn parse(raw: &[u8]) -> (r: Result<Self, Error>)
        requires
            raw@.len() == 512,
        ensures
            match r {
                Ok(m) => u16_at(raw@, 510) == REQUIRED_SIGNATURE && m.decoded_from(raw@),
                Err(e) => u16_at(raw@, 510) != REQUIRED_SIGNATURE && e == Error::InvalidMbrSignature(
                    u16_at(raw@, 510),
                ),
            },
    {
        let mut boot_code = [0u8; 440];
        let mut i: usize = 0;
        while i < BOOT_CODE_SIZE
            invariant
                i <= 440,
                raw@.len() == 512,
                boot_code@.len() == 440,
                forall|j: int| 0 <= j < i ==> boot_code@[j] == raw@[j],
            decreases 440 - i,
        {
            boot_code[i] = raw[i];
            i += 1;
        }
        assert(boot_code@ =~= raw@.subrange(0, 440));
        let unique_mbr_disk_signature = read_u32(raw, UNIQUE_MBR_SIGNATURE_OFFSET);
        let r0 = MbrPartitionRecord::parse(raw, PARTITION_RECORD_OFFSET);
        let r1 = MbrPartitionRecord::parse(raw, PARTITION_RECORD_OFFSET + PARTITION_RECORD_SIZE);
        let r2 = MbrPartitionRecord::parse(raw, PARTITION_RECORD_OFFSET + 2 * PARTITION_RECORD_SIZE);
        let r3 = MbrPartitionRecord::parse(raw, PARTITION_RECORD_OFFSET + 3 * PARTITION_RECORD_SIZE);
        let signature = read_u16(raw, SIGNATURE_OFFSET);
        if signature == REQUIRED_SIGNATURE {
            let m = Mbr {
                boot_code,
                unique_mbr_disk_signature,
                partition_record: [r0, r1, r2, r3],
                signature,
            };
            assert(m.decoded_from(raw@));
            Ok(m)
        } else {
            Err(Error::InvalidMbrSignature(signature))
        }
    }
}

/// A boot sector that holds the fields stored in 512 bytes, two of which
/// (between disk signature and records) are zero, encodes to exactly those
/// bytes.
pub proof fn lemma_decoded_encodes(m: Mbr, raw: Seq<u8>)
    requires
        raw.len() == 512,
        raw[444] == 0,
        raw[445] == 0,
        m.decoded_from(raw),
    ensures
        m.encoding() == raw,
{
    lemma_u32_encodes(raw, 440);
    lemma_u16_encodes(raw, 510);
    assert forall|i: int| 0 <= i < 4 implies #[trigger] m.partition_record@[i].encoding()
        == raw.subrange(446 + 16 * i, 446 + 16 * i + 16) by {
        let off = 446 + 16 * i;
        lemma_u24_encodes(raw, off + 1);
        lemma_u24_encodes(raw, off + 5);
        lemma_u32_encodes(raw, off + 8);
        lemma_u32_encodes(raw, off + 12);
        assert(m.partition_record@[i] == record_at(raw, off));
        assert(m.partition_record@[i].encoding() =~= raw.subrange(off, off + 16));
    }
    let r = m.partition_record@;
    lemma_encoding_len(m);
    assert(r[0].encoding() == raw.subrange(446, 462));
    assert(m.boot_code@ + le32(m.unique_mbr_disk_signature) + seq![0u8, 0u8] =~= raw.subrange(
        0,
        446,
    ));
    assert(raw.subrange(0, 446) + r[0].encoding() =~= raw.subrange(0, 462));
    assert(raw.subrange(0, 462) + r[1].encoding() =~= raw.subrange(0, 478));
    assert(raw.subrange(0, 478) + r[2].encoding() =~= raw.subrange(0, 494));
    assert(raw.subrange(0, 494) + r[3].encoding() =~= raw.subrange(0, 510));
    assert(raw.subrange(0, 510) + le16(m.signature) =~= raw);
}

/// Every boot sector encodes to 512 bytes.
pub proof fn lemma_encoding_len(m: Mbr)
    ensures
        m.encoding().len() == 512,
{
    assert(m.boot_code@.len() == 440);
    lemma_record_encoding_len(m.partition_record@[0]);
    lemma_record_encoding_len(m.partition_record@[1]);
    lemma_record_encoding_len(m.partition_record@[2]);
    lemma_record_encoding_len(m.partition_record@[3]);
    assert(le32(m.unique_mbr_disk_signature).len() == 4);
    assert(le16(m.signature).len() == 2);
    assert(seq![0u8, 0u8].len() == 2);
}

/// Every partition record encodes to 16 bytes.
pub proof fn lemma_record_encoding_len(r: MbrPartitionRecord)
    ensures
        r.encoding().len() == 16,
{
    assert(le24(r.starting_chs).len() == 3);
    assert(le32(r.starting_lba).len() == 4);
}

/// Round trip: the encoding of a boot sector that carries the required
/// signature decodes successfully, and whatever it decodes to encodes to the
/// same bytes again.
pub proof fn lemma_mbr_round_trip(m: Mbr, parsed: Mbr)
    requires
        m.signature == REQUIRED_SIGNATURE,
        parsed.decoded_from(m.encoding()),
    ensures
        u16_at(m.encoding(), 510) == REQUIRED_SIGNATURE,
        parsed.encoding() == m.encoding(),
{
    let e = m.encoding();
    lemma_encoding_len(m);
    assert(e.subrange(510, 512) =~= le16(m.signature));
    assert(e[444] == 0 && e[445] == 0) by {
        assert(m.boot_code@.len() == 440);
    }
    lemma_le16_decodes(m.signature);
    lemma_decoded_encodes(parsed, e);
}

} // verus!
