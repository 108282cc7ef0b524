//! Reading and cross-checking the whole partition table of a disk image.
use vstd::prelude::*;

use crate::bytes::u16_at;
use crate::entry::{parse_entry_array, views_of, PartitionEntry, PartitionEntryView};
use crate::header::{headers_mirror, parse_header, GptHeader};
use crate::layout::disk_size_in_lba;
use crate::layout::disk_blocks;
use crate::mbr::{protective_mbr_encoding, Mbr, REQUIRED_SIGNATURE};
use crate::Error;

verus! {

/// Whether `image` holds the `len` bytes from byte `start` on.
pub open spec fn has_range(image: Seq<u8>, start: int, len: int) -> bool {
    start + len <= image.len()
}

/// The `len` bytes of `image` from byte `start` on.
pub open spec fn range_of(image: Seq<u8>, start: int, len: int) -> Seq<u8> {
    image.subrange(start, start + len)
}

/// Logical block `lba` of `image`.
pub open spec fn block_of(image: Seq<u8>, lba: int) -> Seq<u8> {
    range_of(image, lba * 512, 512)
}

/// What a successful read of a partition table finds.
pub struct GptView {
    pub header: GptHeader,
    pub backup_header: GptHeader,
    pub entries: Seq<PartitionEntryView>,
}

/// The outcome of the two partition-entry arrays, once both headers passed.
pub open spec fn read_arrays(image: Seq<u8>, header: GptHeader, backup: GptHeader) -> Result<
    GptView,
    Error,
> {
    let len = header.array_len();
    let primary_start = header.partition_entry_lba * 512;
    let backup_start = backup.partition_entry_lba * 512;
    if !has_range(image, primary_start, len) {
        Err(Error::ImageTooShort)
    } else {
        match parse_entry_array(range_of(image, primary_start, len), header) {
            Err(e) => Err(e),
            Ok(entries) => if !has_range(image, backup_start, len) {
                Err(Error::ImageTooShort)
            } else {
                match parse_entry_array(range_of(image, backup_start, len), header) {
                    Err(e) => Err(e),
                    Ok(backup_entries) => if backup_entries != entries {
                        Err(Error::BackupPartitionArrayDoesNotMatch)
                    } else {
                        Ok(GptView { header, backup_header: backup, entries })
                    },
                }
            },
        }
    }
}

/// The outcome of reading the partition table of `image`: the MBR in block
/// 0, the primary header in block 1 (which must name block 1 as its own),
/// the backup header at the primary's alternate LBA (which must mirror the
/// primary), then the primary array and the backup array, both of the
/// primary's shape and checked against the primary's checksum, which must
/// decode to the same entries.
pub open spec fn read_gpt(image: Seq<u8>) -> Result<GptView, Error> {
    if !has_range(image, 0, 512) {
        Err(Error::ImageTooShort)
    } else if u16_at(image, 510) != REQUIRED_SIGNATURE {
        Err(Error::InvalidMbrSignature(u16_at(image, 510)))
    } else if !has_range(image, 512, 512) {
        Err(Error::ImageTooShort)
    } else {
        match parse_header(block_of(image, 1)) {
            Err(e) => Err(e),
            Ok(header) => if header.my_lba != 1 {
                Err(Error::UnexpectedMyLba(header.my_lba))
            } else if !has_range(image, header.alternate_lba * 512, 512) {
                Err(Error::ImageTooShort)
            } else {
                match parse_header(block_of(image, header.alternate_lba as int)) {
                    Err(e) => Err(e),
                    Ok(backup) => if !headers_mirror(header, backup) {
                        Err(Error::HeaderDoesNotMatchBackup)
                    } else {
                        read_arrays(image, header, backup)
                    },
                }
            },
        }
    }
}

/// Array equality: once both headers passed and both partition-entry
/// arrays decode, the read succeeds exactly when the two arrays decode to
/// the same entries, and an entry that differs in any field (an LBA, a
/// GUID, the name) makes it fail with `BackupPartitionArrayDoesNotMatch`.
pub proof fn lemma_backup_array_match(image: Seq<u8>, header: GptHeader, backup: GptHeader, i: int)
    requires
        has_range(image, header.partition_entry_lba * 512, header.array_len()),
        has_range(image, backup.partition_entry_lba * 512, header.array_len()),
        parse_entry_array(
            range_of(image, header.partition_entry_lba * 512, header.array_len()),
            header,
        ) is Ok,
        parse_entry_array(
            range_of(image, backup.partition_entry_lba * 512, header.array_len()),
            header,
        ) is Ok,
    ensures
        ({
            let primary = parse_entry_array(
                range_of(image, header.partition_entry_lba * 512, header.array_len()),
                header,
            )->Ok_0;
            let mirrored = parse_entry_array(
                range_of(image, backup.partition_entry_lba * 512, header.array_len()),
                header,
            )->Ok_0;
            &&& primary == mirrored ==> read_arrays(image, header, backup) == Ok::<GptView, Error>(
                GptView { header, backup_header: backup, entries: primary },
            )
            &&& (0 <= i < primary.len() && primary[i] != mirrored[i]) ==> read_arrays(
                image,
                header,
                backup,
            ) == Err::<GptView, Error>(Error::BackupPartitionArrayDoesNotMatch)
        }),
{
}

/// The byte range of the first partition, `[starting_lba * 512,
/// (ending_lba + 1) * 512)`; none without partitions, and a range whose
/// end does not fit in 64 bits lies past the end of any image.
pub open spec fn first_partition_range(entries: Seq<PartitionEntryView>) -> Result<(u64, u64), Error> {
    if entries.len() == 0 {
        Err(Error::NoPartitions)
    } else if entries[0].starting_lba * 512 > u64::MAX || (entries[0].ending_lba + 1) * 512
        > u64::MAX {
        Err(Error::ImageTooShort)
    } else {
        Ok(((entries[0].starting_lba * 512) as u64, ((entries[0].ending_lba + 1) * 512) as u64))
    }
}

/// The checked partition table of a disk image.
#[derive(Debug)]
pub struct GptInfo {
    pub mbr: Mbr,
    pub header: GptHeader,
    pub backup_header: GptHeader,
    pub partition_entry_array: Vec<PartitionEntry>,
}

impl GptInfo {
    pub open spec fn view_of(&self) -> GptView {
        GptView {
            header: self.header,
            backup_header: self.backup_header,
            entries: views_of(self.partition_entry_array@),
        }
    }

    /// The byte range of the first partition entry.
    pub fn first_partition_byte_range(&self) -> (r: Result<core::ops::Range<u64>, Error>)
        ensures
            match r {
                Ok(range) => first_partition_range(views_of(self.partition_entry_array@)) == Ok::<
                    (u64, u64),
                    Error,
                >((range.start, range.end)),
                Err(e) => first_partition_range(views_of(self.partition_entry_array@)) == Err::<
                    (u64, u64),
                    Error,
                >(e),
            },
    {
        if self.partition_entry_array.len() == 0 {
            return Err(Error::NoPartitions);
        }
        let first = &self.partition_entry_array[0];
        assert(views_of(self.partition_entry_array@)[0] == first@);
        if first.starting_lba > u64::MAX / 512 || first.ending_lba >= u64::MAX / 512 {
            return Err(Error::ImageTooShort);
        }
        Ok(first.partition_byte_range())
    }
}

/// The `len` bytes of `image` from block `lba` on, if the image holds them.
fn bytes_at<'a>(image: &'a [u8], lba: u64, len: u64) -> (r: Option<&'a [u8]>)
    ensures
        match r {
            Some(s) => has_range(image@, lba * 512, len as int) && s@ == range_of(
                image@,
                lba * 512,
                len as int,
            ),
            None => !has_range(image@, lba * 512, len as int),
        },
{
    let n = image.len() as u64;
    if lba > n / 512 {
        assert(lba * 512 > n) by (nonlinear_arith)
            requires
                lba > n / 512,
        ;
        return None;
    }
    assert(lba * 512 <= n) by (nonlinear_arith)
        requires
            lba <= n / 512,
    ;
    let start = lba * 512;
    if len > n - start {
        return None;
    }
    Some(vstd::slice::slice_subrange(image, start as usize, (start + len) as usize))
}

/// Reads and cross-checks the partition table of a disk image.
pub fn gpt_info(image: &[u8]) -> (r: Result<GptInfo, Error>)
    ensures
        match r {
            Ok(info) => read_gpt(image@) == Ok::<GptView, Error>(info.view_of())
                && info.mbr.decoded_from(range_of(image@, 0, 512)),
            Err(e) => read_gpt(image@) == Err::<GptView, Error>(e),
        },
{
    // the MBR
    let raw = match bytes_at(image, 0, 512) {
        Some(raw) => raw,
        None => return Err(Error::ImageTooShort),
    };
    let mbr = match Mbr::parse(raw) {
        Ok(mbr) => mbr,
        Err(e) => return Err(e),
    };
    // the primary header
    let raw = match bytes_at(image, 1, 512) {
        Some(raw) => raw,
        None => return Err(Error::ImageTooShort),
    };
    let header = match GptHeader::parse(raw) {
        Ok(h) => h,
        Err(e) => return Err(e),
    };
    if header.my_lba != 1 {
        return Err(Error::UnexpectedMyLba(header.my_lba));
    }
    // the backup header
    let raw = match bytes_at(image, header.alternate_lba, 512) {
        Some(raw) => raw,
        None => return Err(Error::ImageTooShort),
    };
    let backup_header = match GptHeader::parse(raw) {
        Ok(h) => h,
        Err(e) => return Err(e),
    };
    if let Err(e) = GptHeader::compare_header_and_backup_header(&header, &backup_header) {
        return Err(e);
    }
    // the primary partition-entry array
    assert(header.size_of_partition_entry * header.number_of_partition_entries <= u64::MAX)
        by (nonlinear_arith)
        requires
            header.size_of_partition_entry <= u32::MAX,
            header.number_of_partition_entries <= u32::MAX,
    ;
    let len = header.size_of_partition_entry as u64 * header.number_of_partition_entries as u64;
    let raw = match bytes_at(image, header.partition_entry_lba, len) {
        Some(raw) => raw,
        None => return Err(Error::ImageTooShort),
    };
    let partition_entry_array = match PartitionEntry::parse_array(raw, &header) {
        Ok(v) => v,
        Err(e) => return Err(e),
    };
    // the backup partition-entry array, of the primary's shape
    let raw = match bytes_at(image, backup_header.partition_entry_lba, len) {
        Some(raw) => raw,
        None => return Err(Error::ImageTooShort),
    };
    let backup_partition_entry_array = match PartitionEntry::parse_array(raw, &header) {
        Ok(v) => v,
        Err(e) => return Err(e),
    };
    if !PartitionEntry::arrays_match(&backup_partition_entry_array, &partition_entry_array) {
        return Err(Error::BackupPartitionArrayDoesNotMatch);
    }
    Ok(GptInfo { mbr, header, backup_header, partition_entry_array })
}

/// The byte range of the first partition of a disk image.
pub fn first_partition_byte_range(image: &[u8]) -> (r: Result<core::ops::Range<u64>, Error>)
    ensures
        match read_gpt(image@) {
            Err(e) => r == Err::<core::ops::Range<u64>, Error>(e),
            Ok(v) => match r {
                Ok(range) => first_partition_range(v.entries) == Ok::<(u64, u64), Error>(
                    (range.start, range.end),
                ),
                Err(e) => first_partition_range(v.entries) == Err::<(u64, u64), Error>(e),
            },
        },
{
    match gpt_info(image) {
        Ok(info) => info.first_partition_byte_range(),
        Err(e) => Err(e),
    }
}

/// Appends the protective MBR of a disk that holds one partition of
/// `partition_size_bytes` bytes to `out`.
pub fn write_header(out: &mut Vec<u8>, partition_size_bytes: u64)
    ensures
        final(out)@ == old(out)@ + protective_mbr_encoding(disk_blocks(partition_size_bytes) as u64),
{
    let disk_size_in_lba = disk_size_in_lba(partition_size_bytes);
    let encoded = Mbr::new_protective_with_disk_size_in_lba(disk_size_in_lba).encode();
    let mut i: usize = 0;
    while i < encoded.len()
        invariant
            i <= encoded@.len(),
            out@ == old(out)@ + encoded@.subrange(0, i as int),
        decreases encoded@.len() - i,
    {
        out.push(encoded[i]);
        i += 1;
        assert(out@ =~= old(out)@ + encoded@.subrange(0, i as int));
    }
    assert(encoded@.subrange(0, encoded@.len() as int) =~= encoded@);
}

} // verus!
