//! The partition table of a new disk image that holds one partition.
use vstd::prelude::*;

use crate::bytes::{le16, le32, lemma_u16_in, u16_at};
use crate::entry::{entries_of, entry_encoding, parse_entry_array, PartitionEntry, PartitionEntryView};
use crate::header::{lemma_checksum_ignores_crc_field, lemma_encoding_len, lemma_header_round_trip, parse_header};
use crate::info::{block_of, range_of, read_gpt, GptView};
use crate::mbr::{lemma_record_encoding_len, MbrPartitionRecord, REQUIRED_SIGNATURE};
use crate::guid::{efi_system_partition_type_spec, Guid};
use crate::header::GptHeader;
use crate::layout::{PARTITION_ARRAY_NUM_LBA, disk_blocks, disk_size_in_lba, num_logical_blocks, size_in_bytes_to_num_logical_blocks};
use crate::mbr::{protective_mbr_encoding, Mbr};

verus! {

/// The blocks of a new disk's partition table and where they go: the MBR
/// in block 0, the primary header in block 1, the entry array in block 2
/// and again in the block before the last, the backup header in the last
/// block. The partition itself starts at block 3.
pub struct GptBlocks {
    pub disk_size_in_lba: u64,
    pub mbr: Vec<u8>,
    pub primary_header: Vec<u8>,
    pub partition_entry_array: Vec<u8>,
    pub backup_header: Vec<u8>,
}

/// The one entry of a new disk whose partition holds `partition_size_bytes`.
pub open spec fn first_entry(
    partition_size_bytes: u64,
    unique_partition_guid: Guid,
    partition_name: Seq<char>,
) -> PartitionEntryView {
    PartitionEntryView {
        partition_type_guid: efi_system_partition_type_spec(),
        unique_partition_guid,
        starting_lba: 3,
        ending_lba: (3 + num_logical_blocks(partition_size_bytes) - 1) as u64,
        attributes: 1,
        partition_name,
    }
}

/// The 512-byte entry array of a new disk: its one entry, then three
/// unused (zero) entries.
pub open spec fn new_entry_array(
    partition_size_bytes: u64,
    unique_partition_guid: Guid,
    partition_name: Seq<char>,
) -> Seq<u8> {
    entry_encoding(first_entry(partition_size_bytes, unique_partition_guid, partition_name))
        + Seq::new(384, |i: int| 0u8)
}

/// Builds every block of the partition table of a new disk whose one
/// partition holds `partition_size_bytes` bytes (at least one), with both
/// checksums of both headers filled in.
pub fn new_gpt_blocks(
    partition_size_bytes: u64,
    disk_guid: Guid,
    unique_partition_guid: Guid,
    partition_name: String,
) -> (r: GptBlocks)
    requires
        partition_size_bytes > 0,
    ensures
        ({
            let d = disk_blocks(partition_size_bytes) as u64;
            let array = new_entry_array(partition_size_bytes, unique_partition_guid, partition_name@);
            &&& r.disk_size_in_lba == d
            &&& r.mbr@ == protective_mbr_encoding(d)
            &&& r.partition_entry_array@ == array
            &&& r.primary_header@ == GptHeader::primary(d, disk_guid).sealed(array).encoding()
            &&& r.backup_header@ == GptHeader::backup(d, disk_guid).sealed(array).encoding()
        }),
{
    let ghost name = partition_name@;
    let d = disk_size_in_lba(partition_size_bytes);
    let blocks = size_in_bytes_to_num_logical_blocks(partition_size_bytes);
    let mbr = Mbr::new_protective_with_disk_size_in_lba(d).encode();
    let entry = PartitionEntry::new_first_partition_with_size_in_lba(
        blocks,
        unique_partition_guid,
        partition_name,
    );
    let mut array: Vec<u8> = Vec::with_capacity(512);
    entry.encode_into(&mut array);
    assert(entry@ == first_entry(partition_size_bytes, unique_partition_guid, name));
    let ghost encoded = array@;
    let mut i: usize = 0;
    while i < 384
        invariant
            i <= 384,
            array@ == encoded + Seq::new(i as nat, |j: int| 0u8),
        decreases 384 - i,
    {
        array.push(0);
        i += 1;
        assert(array@ =~= encoded + Seq::new(i as nat, |j: int| 0u8));
    }
    let primary = GptHeader::new_primary(d, disk_guid).seal(array.as_slice());
    let backup = GptHeader::new_backup(d, disk_guid).seal(array.as_slice());
    GptBlocks {
        disk_size_in_lba: d,
        mbr,
        primary_header: primary.encode(),
        partition_entry_array: array,
        backup_header: backup.encode(),
    }
}

/// A new disk's image: its partition table around a zeroed partition.
pub open spec fn new_image(
    partition_size_bytes: u64,
    disk_guid: Guid,
    unique_partition_guid: Guid,
    partition_name: Seq<char>,
) -> Seq<u8> {
    let d = disk_blocks(partition_size_bytes) as u64;
    let array = new_entry_array(partition_size_bytes, unique_partition_guid, partition_name);
    protective_mbr_encoding(d) + GptHeader::primary(d, disk_guid).sealed(array).encoding() + array
        + Seq::new((num_logical_blocks(partition_size_bytes) * 512) as nat, |i: int| 0u8) + array
        + GptHeader::backup(d, disk_guid).sealed(array).encoding()
}

proof fn lemma_sealed_round_trip(h: GptHeader, array: Seq<u8>)
    requires
        h.revision == crate::header::THIS_REVISION,
        h.header_size == crate::header::MIN_HEADER_SIZE,
    ensures
        parse_header(h.sealed(array).encoding()) == Ok::<GptHeader, crate::Error>(h.sealed(array)),
{
    let with_array = GptHeader { partition_entry_array_crc32: crate::crc::crc32_of(array), ..h };
    lemma_checksum_ignores_crc_field(with_array, h.sealed(array).header_crc32);
    assert(GptHeader { header_crc32: h.sealed(array).header_crc32, ..with_array } == h.sealed(array));
    lemma_header_round_trip(h.sealed(array));
}

/// Where the six parts of an image of four single blocks around a run of
/// whole blocks `z` stand.
proof fn lemma_image_slices(a: Seq<u8>, b: Seq<u8>, c: Seq<u8>, z: Seq<u8>, e: Seq<u8>)
    requires
        a.len() == 512,
        b.len() == 512,
        c.len() == 512,
        e.len() == 512,
    ensures
        ({
            let image = a + b + c + z + c + e;
            &&& image.len() == 2560 + z.len()
            &&& image.subrange(0, 512) == a
            &&& image.subrange(512, 1024) == b
            &&& image.subrange(1024, 1536) == c
            &&& image.subrange(1536 + z.len() as int, 2048 + z.len() as int) == c
            &&& image.subrange(2048 + z.len() as int, 2560 + z.len() as int) == e
        }),
{
    let image = a + b + c + z + c + e;
    assert(image.subrange(0, 512) =~= a);
    assert(image.subrange(512, 1024) =~= b);
    assert(image.subrange(1024, 1536) =~= c);
    assert(image.subrange(1536 + z.len() as int, 2048 + z.len() as int) =~= c);
    assert(image.subrange(2048 + z.len() as int, 2560 + z.len() as int) =~= e);
}

proof fn lemma_protective_mbr(d: u64)
    ensures
        protective_mbr_encoding(d).len() == 512,
        u16_at(protective_mbr_encoding(d), 510) == REQUIRED_SIGNATURE,
{
    let mbr = protective_mbr_encoding(d);
    let zero = MbrPartitionRecord {
        boot_indicator: 0,
        starting_chs: 0,
        os_type: 0,
        ending_chs: 0,
        starting_lba: 0,
        size_in_lba: 0,
    };
    lemma_record_encoding_len(zero);
    lemma_record_encoding_len(MbrPartitionRecord::protective(d));
    assert(le32(0).len() == 4 && le16(REQUIRED_SIGNATURE).len() == 2);
    assert(mbr.len() == 512);
    assert(mbr.subrange(510, 512) =~= le16(REQUIRED_SIGNATURE));
    lemma_u16_in(mbr, 510, REQUIRED_SIGNATURE);
}

proof fn lemma_entry_array_len(
    partition_size_bytes: u64,
    unique_partition_guid: Guid,
    partition_name: Seq<char>,
)
    ensures
        new_entry_array(partition_size_bytes, unique_partition_guid, partition_name).len() == 512,
{
    let first = first_entry(partition_size_bytes, unique_partition_guid, partition_name);
    assert(first.partition_type_guid.encoding().len() == 16) by {
        assert(crate::bytes::le64(first.partition_type_guid.data4).len() == 8);
    }
    assert(first.unique_partition_guid.encoding().len() == 16) by {
        assert(crate::bytes::le64(first.unique_partition_guid.data4).len() == 8);
    }
    assert(crate::bytes::le64(0).len() == 8);
    assert(entry_encoding(first).len() == 128);
}

/// An image laid out as a new disk's reads back once each of its blocks
/// decodes on its own.
proof fn lemma_layout_reads_back(
    image: Seq<u8>,
    mbr: Seq<u8>,
    hb: Seq<u8>,
    array: Seq<u8>,
    z: Seq<u8>,
    bb: Seq<u8>,
    h: GptHeader,
    b: GptHeader,
    entries: Seq<PartitionEntryView>,
)
    requires
        image == mbr + hb + array + z + array + bb,
        mbr.len() == 512,
        hb.len() == 512,
        array.len() == 512,
        bb.len() == 512,
        z.len() == (h.alternate_lba - 4) * 512,
        h.alternate_lba >= 4,
        u16_at(mbr, 510) == REQUIRED_SIGNATURE,
        parse_header(hb) == Ok::<GptHeader, crate::Error>(h),
        parse_header(bb) == Ok::<GptHeader, crate::Error>(b),
        h.my_lba == 1,
        h.partition_entry_lba == 2,
        b.partition_entry_lba == h.alternate_lba - 1,
        h.array_len() == 512,
        h.disk_guid == b.disk_guid,
        parse_entry_array(array, h) == Ok::<Seq<PartitionEntryView>, crate::Error>(entries),
    ensures
        read_gpt(image) == Ok::<GptView, crate::Error>(
            GptView { header: h, backup_header: b, entries },
        ),
{
    lemma_image_slices(mbr, hb, array, z, bb);
    assert(u16_at(image, 510) == u16_at(mbr, 510)) by {
        assert(image[510] == image.subrange(0, 512)[510]);
        assert(image[511] == image.subrange(0, 512)[511]);
    }
    assert(block_of(image, 1) == hb);
    assert(block_of(image, h.alternate_lba as int) == bb);
    assert(range_of(image, 1024, 512) == array);
    assert(range_of(image, b.partition_entry_lba * 512, 512) == array);
}

/// A new disk reads back: the image made of the blocks that
/// `new_gpt_blocks` builds, placed where they belong around a zeroed
/// partition, passes every check and yields both headers and the entries
/// of the new entry array.
pub proof fn lemma_new_image_reads_back(
    partition_size_bytes: u64,
    disk_guid: Guid,
    unique_partition_guid: Guid,
    partition_name: Seq<char>,
)
    requires
        partition_size_bytes > 0,
    ensures
        ({
            let d = disk_blocks(partition_size_bytes) as u64;
            let array = new_entry_array(partition_size_bytes, unique_partition_guid, partition_name);
            read_gpt(new_image(partition_size_bytes, disk_guid, unique_partition_guid, partition_name))
                == Ok::<GptView, crate::Error>(
                GptView {
                    header: GptHeader::primary(d, disk_guid).sealed(array),
                    backup_header: GptHeader::backup(d, disk_guid).sealed(array),
                    entries: entries_of(array, 128, 4),
                },
            )
        }),
{
    let n = num_logical_blocks(partition_size_bytes);
    assert(1 <= n <= 0x80_0000_0000_0000) by (nonlinear_arith)
        requires
            n == (partition_size_bytes + 511) / 512,
            0 < partition_size_bytes <= 0xFFFF_FFFF_FFFF_FFFF,
    ;
    let d = disk_blocks(partition_size_bytes) as u64;
    assert(d == n + 5);
    let array = new_entry_array(partition_size_bytes, unique_partition_guid, partition_name);
    let h = GptHeader::primary(d, disk_guid).sealed(array);
    let b = GptHeader::backup(d, disk_guid).sealed(array);
    let mbr = protective_mbr_encoding(d);
    let z = Seq::new((n * 512) as nat, |i: int| 0u8);
    lemma_protective_mbr(d);
    lemma_encoding_len(h);
    lemma_encoding_len(b);
    lemma_entry_array_len(partition_size_bytes, unique_partition_guid, partition_name);
    lemma_sealed_round_trip(GptHeader::primary(d, disk_guid), array);
    lemma_sealed_round_trip(GptHeader::backup(d, disk_guid), array);
    assert(parse_entry_array(array, h) == Ok::<Seq<PartitionEntryView>, crate::Error>(
        entries_of(array, 128, 4),
    ));
    lemma_layout_reads_back(
        new_image(partition_size_bytes, disk_guid, unique_partition_guid, partition_name),
        mbr,
        h.encoding(),
        array,
        z,
        b.encoding(),
        h,
        b,
        entries_of(array, 128, 4),
    );
}

} // verus!
