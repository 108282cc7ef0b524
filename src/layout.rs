//! Disk geometry for an image that holds one partition.
use vstd::prelude::*;

use crate::guid::Guid;
use crate::header::GptHeader;

verus! {

pub const NUMBER_OF_PARTITION_ENTRIES: u32 = 4;
pub const SIZE_OF_PARTITION_ENTRY: u32 = 128;
/// Logical blocks taken by one partition-entry array of four 128-byte
/// entries: `(4 * 128 - 1) / 512 + 1`.
pub const PARTITION_ARRAY_NUM_LBA: u64 = 1;

/// Logical blocks needed for `size` bytes: `size` divided by the block
/// size, rounded up (so an empty size takes no block).
pub open spec fn num_logical_blocks(size: u64) -> int {
    (size + 511) / 512
}

/// Blocks of a disk that holds the MBR, both headers, both partition-entry
/// arrays and one partition of `partition_size_bytes` bytes.
pub open spec fn disk_blocks(partition_size_bytes: u64) -> int {
    1 + 1 + PARTITION_ARRAY_NUM_LBA + num_logical_blocks(partition_size_bytes)
        + PARTITION_ARRAY_NUM_LBA + 1
}

/// The entry array of four 128-byte entries takes exactly
/// `PARTITION_ARRAY_NUM_LBA` blocks.
pub proof fn lemma_partition_array_blocks()
    ensures
        PARTITION_ARRAY_NUM_LBA == num_logical_blocks(
            (NUMBER_OF_PARTITION_ENTRIES * SIZE_OF_PARTITION_ENTRY) as u64,
        ),
{
}

pub fn size_in_bytes_to_num_logical_blocks(size: u64) -> (r: u64)
    ensures
        r == num_logical_blocks(size),
        size > 0 ==> r == (size - 1) / 512 + 1,
{
    if size == 0 {
        0
    } else {
        (size - 1) / 512 + 1
    }
}

/// Blocks of a disk that holds the MBR, the primary header and array, one
/// partition of `partition_size_bytes` bytes, the backup array and header.
pub fn disk_size_in_lba(partition_size_bytes: u64) -> (r: u64)
    ensures
        r == disk_blocks(partition_size_bytes),
{
    1 // mbr
     + 1 // primary gpt header
     + PARTITION_ARRAY_NUM_LBA + size_in_bytes_to_num_logical_blocks(partition_size_bytes)
        + PARTITION_ARRAY_NUM_LBA // backup partition array
     + 1 // backup gpt header
}

/// Layout invariant: a larger partition never needs a smaller disk, and the
/// primary header made for the disk that a partition needs has a usable
/// range that is not empty.
pub proof fn lemma_layout_invariant(smaller: u64, larger: u64, disk_guid: Guid)
    requires
        0 < smaller <= larger,
    ensures
        disk_blocks(smaller) <= disk_blocks(larger),
        GptHeader::primary(disk_blocks(smaller) as u64, disk_guid).first_usable_lba
            <= GptHeader::primary(disk_blocks(smaller) as u64, disk_guid).last_usable_lba,
{
    assert((smaller + 511) / 512 <= (larger + 511) / 512) by (nonlinear_arith)
        requires
            0 < smaller <= larger,
    ;
}

} // verus!
