//! Protective MBR and GUID Partition Table codec and validator.
//!
//! The library decodes, checks and encodes the partition-table layer of a
//! raw disk image: the protective MBR in logical block 0, the primary and
//! backup GPT headers, and the partition-entry arrays they reference.
use vstd::prelude::*;

pub mod bytes;
pub mod create;
pub mod crc;
pub mod entry;
pub mod fat;
pub mod guid;
pub mod header;
pub mod info;
pub mod layout;
pub mod mbr;

pub use crc::crc32;
pub use create::{new_gpt_blocks, GptBlocks};
pub use entry::PartitionEntry;
pub use fat::{Bpb, BpbError, Directory, Fat};
pub use guid::Guid;
pub use header::GptHeader;
pub use info::{first_partition_byte_range, gpt_info, write_header, GptInfo};
pub use layout::{disk_size_in_lba, size_in_bytes_to_num_logical_blocks};
pub use mbr::{Mbr, MbrPartitionRecord};

verus! {

/// Size of one logical block in bytes.
pub const LOGICAL_BLOCK_SIZE: u64 = 512;

/// Every way in which reading or checking a partition table can fail.
#[derive(Debug, Clone, Copy, PartialEq, Eq, Structural)]
pub enum Error {
    /// A structure that the table references lies (partly) past the end of
    /// the image, or its position does not fit in 64 bits.
    ImageTooShort,
    /// The header does not start with "EFI PART"; carries what it starts with.
    InvalidSignature(u64),
    /// The header revision is not 1.0.
    IncorrectRevision(u32),
    /// The header size is outside 92..=512.
    InvalidHeaderSize(u32),
    /// The primary header does not name block 1 as its own.
    UnexpectedMyLba(u64),
    /// A header's alternate LBA is not the one expected.
    UnexpectedAlternateLba(u64),
    /// The backup header mirrors the primary in no way.
    HeaderDoesNotMatchBackup,
    /// A reserved field or the padding after the header is not zero.
    UnexpectedNonZeroValue,
    HeaderChecksumMismatch { computed: u32, expected: u32 },
    PartitionEntryArrayChecksumMismatch { computed: u32, expected: u32 },
    /// An array with entries whose entry size is too small to hold one
    /// partition entry.
    InvalidPartitionEntrySize(u32),
    /// The partition-entry array holds no entries.
    NoPartitions,
    /// Block 0 does not end in 0xAA55; carries what it ends in.
    InvalidMbrSignature(u16),
    /// The backup partition-entry array decodes to other entries.
    BackupPartitionArrayDoesNotMatch,
}

} // verus!
