use mini_gpt::guid::efi_system_partition_type;
use mini_gpt::{
    crc32, disk_size_in_lba, first_partition_byte_range, gpt_info, size_in_bytes_to_num_logical_blocks,
    write_header, Error, GptHeader, Guid, Mbr, MbrPartitionRecord, PartitionEntry,
};

fn put_u16(b: &mut [u8], off: usize, x: u16) {
    b[off..off + 2].copy_from_slice(&x.to_le_bytes());
}

fn put_u32(b: &mut [u8], off: usize, x: u32) {
    b[off..off + 4].copy_from_slice(&x.to_le_bytes());
}

fn put_u64(b: &mut [u8], off: usize, x: u64) {
    b[off..off + 8].copy_from_slice(&x.to_le_bytes());
}

fn disk_guid() -> Guid {
    Guid { data1: 0x01020304, data2: 0x0506, data3: 0x0708, data4: 0x100F0E0D0C0B0A09 }
}

fn guid_bytes(g: &Guid) -> Vec<u8> {
    let mut v = Vec::new();
    g.encode_into(&mut v);
    v
}

/// One 128-byte partition entry.
fn entry_bytes(start: u64, end: u64, name: &str) -> Vec<u8> {
    let mut e = vec![0u8; 128];
    e[0..16].copy_from_slice(&guid_bytes(&efi_system_partition_type()));
    e[16..32].copy_from_slice(&guid_bytes(&Guid { data1: 7, data2: 8, data3: 9, data4: 10 }));
    put_u64(&mut e, 32, start);
    put_u64(&mut e, 40, end);
    put_u64(&mut e, 48, 1);
    for (i, u) in name.encode_utf16().enumerate() {
        put_u16(&mut e, 56 + 2 * i, u);
    }
    e
}

/// A 512-byte GPT header block with a correct checksum.
fn header_block(my_lba: u64, alternate_lba: u64, entry_lba: u64, entries: u32, array_crc: u32) -> Vec<u8> {
    let mut b = vec![0u8; 512];
    put_u64(&mut b, 0, 0x5452415020494645);
    put_u32(&mut b, 8, 0x10000);
    put_u32(&mut b, 12, 92);
    put_u64(&mut b, 24, my_lba);
    put_u64(&mut b, 32, alternate_lba);
    put_u64(&mut b, 40, 3);
    put_u64(&mut b, 48, 10);
    b[56..72].copy_from_slice(&guid_bytes(&disk_guid()));
    put_u64(&mut b, 72, entry_lba);
    put_u32(&mut b, 80, entries);
    put_u32(&mut b, 84, 128);
    put_u32(&mut b, 88, array_crc);
    let crc = crc32(&b[0..92]);
    put_u32(&mut b, 16, crc);
    b
}

/// A 14-block image: MBR, primary header, primary array (4 entries),
/// partition in blocks 3..=10, backup array in 12, backup header in 13.
fn image_with(primary_array: &[u8], backup_array: &[u8], entries: u32) -> Vec<u8> {
    let mut img = vec![0u8; 14 * 512];
    let mut mbr = Vec::new();
    write_header(&mut mbr, 8 * 512);
    img[0..512].copy_from_slice(&mbr);
    let crc = crc32(primary_array);
    img[512..1024].copy_from_slice(&header_block(1, 13, 2, entries, crc));
    img[1024..1024 + primary_array.len()].copy_from_slice(primary_array);
    img[12 * 512..12 * 512 + backup_array.len()].copy_from_slice(backup_array);
    img[13 * 512..14 * 512].copy_from_slice(&header_block(13, 1, 12, entries, crc));
    img
}

fn array(name: &str) -> Vec<u8> {
    let mut a = entry_bytes(3, 10, name);
    a.resize(512, 0);
    a
}

#[test]
fn spot_check() {
    assert_eq!(crc32(&[0x68, 0x65, 0x6C, 0x6C, 0x6F]), 0x3610A686);
}

#[test]
fn crc32_of_empty_input_is_zero() {
    assert_eq!(crc32(&[]), 0);
    assert_eq!(crc32(b"123456789"), 0xCBF43926);
}

#[test]
fn logical_block_counts() {
    assert_eq!(size_in_bytes_to_num_logical_blocks(512), 1);
    assert_eq!(size_in_bytes_to_num_logical_blocks(513), 2);
    assert_eq!(size_in_bytes_to_num_logical_blocks(1), 1);
    assert_eq!(size_in_bytes_to_num_logical_blocks(0), 0);
    assert_eq!(size_in_bytes_to_num_logical_blocks(u64::MAX), 1 << 55);
}

#[test]
fn disk_size_grows_with_partition() {
    assert_eq!(disk_size_in_lba(512), 6);
    assert_eq!(disk_size_in_lba(1024), 7);
    assert_eq!(disk_size_in_lba(0), 5);
    let mut last = 0;
    for size in [1u64, 511, 512, 513, 4096, 1 << 20, u64::MAX] {
        let d = disk_size_in_lba(size);
        assert!(d >= last);
        last = d;
        let h = GptHeader::new_primary(d, disk_guid());
        assert!(h.first_usable_lba <= h.last_usable_lba);
    }
}

#[test]
fn primary_header_layout() {
    let h = GptHeader::new_primary(14, disk_guid());
    assert_eq!(h.my_lba, 1);
    assert_eq!(h.alternate_lba, 13);
    assert_eq!(h.first_usable_lba, 3);
    assert_eq!(h.last_usable_lba, 11);
    assert_eq!(h.partition_entry_lba, 2);
    assert_eq!(h.number_of_partition_entries, 4);
    assert_eq!(h.size_of_partition_entry, 128);
}

#[test]
fn protective_record_values() {
    let r = MbrPartitionRecord::new_protective_with_disk_size_in_lba(6);
    assert_eq!(r.boot_indicator, 0);
    assert_eq!(r.starting_chs, 512);
    assert_eq!(r.starting_lba, 1);
    assert_eq!(r.os_type, 0xEE);
    assert_eq!(r.size_in_lba, 5);
    assert_eq!(r.ending_chs, 6 * 512 - 1);
    let big = MbrPartitionRecord::new_protective_with_disk_size_in_lba(1 << 40);
    assert_eq!(big.size_in_lba, 0xFFFF_FFFF);
    assert_eq!(big.ending_chs, 0xFF_FFFF);
    let edge = MbrPartitionRecord::new_protective_with_disk_size_in_lba(0x8000);
    assert_eq!(edge.ending_chs, 0xFF_FFFF);
    let below = MbrPartitionRecord::new_protective_with_disk_size_in_lba(0x7FFF);
    assert_eq!(below.ending_chs, 0x7FFF * 512 - 1);
}

#[test]
fn mbr_round_trip() {
    let m = Mbr::new_protective_with_disk_size_in_lba(100);
    let e = m.encode();
    assert_eq!(e.len(), 512);
    let p = Mbr::parse(&e).unwrap();
    assert_eq!(p.encode(), e);
    let mut other = e.clone();
    other[0] = 0xFA;
    other[440] = 0x12;
    other[462] = 0x80;
    let q = Mbr::parse(&other).unwrap();
    assert_eq!(q.boot_code[0], 0xFA);
    assert_eq!(q.unique_mbr_disk_signature, 0x12);
    assert_eq!(q.partition_record[1].boot_indicator, 0x80);
    assert_eq!(Mbr::parse(&q.encode()).unwrap().encode(), q.encode());
}

#[test]
fn zeroed_mbr_lacks_signature() {
    let zero = [0u8; 512];
    assert!(matches!(Mbr::parse(&zero), Err(Error::InvalidMbrSignature(0))));
}

#[test]
fn write_header_emits_protective_mbr() {
    let mut out = vec![1u8, 2];
    write_header(&mut out, 512);
    assert_eq!(out.len(), 514);
    assert_eq!(&out[0..2], &[1, 2]);
    let mbr = &out[2..];
    assert_eq!(&mbr[510..512], &[0x55, 0xAA]);
    assert_eq!(mbr[446 + 4], 0xEE);
    // six blocks: the record covers five of them
    assert_eq!(&mbr[446 + 12..446 + 16], &5u32.to_le_bytes());
    assert_eq!(&mbr[446 + 8..446 + 12], &1u32.to_le_bytes());
}

#[test]
fn reads_valid_image() {
    let img = image_with(&array("EFI"), &array("EFI"), 4);
    let info = gpt_info(&img).unwrap();
    assert_eq!(info.header.my_lba, 1);
    assert_eq!(info.backup_header.my_lba, 13);
    assert_eq!(info.header.disk_guid, disk_guid());
    assert_eq!(info.partition_entry_array.len(), 4);
    let first = &info.partition_entry_array[0];
    assert_eq!(first.partition_name, "EFI");
    assert_eq!(first.partition_type_guid, efi_system_partition_type());
    assert_eq!(info.partition_entry_array[1].partition_name, "");
    assert_eq!(info.first_partition_byte_range().unwrap(), 3 * 512..11 * 512);
    assert_eq!(first_partition_byte_range(&img).unwrap(), 3 * 512..11 * 512);
}

#[test]
fn header_bit_flip_is_a_checksum_mismatch() {
    let img = image_with(&array("EFI"), &array("EFI"), 4);
    for pos in [20usize, 24, 40, 56, 80, 91] {
        for bit in 0..8 {
            let mut bad = img.clone();
            bad[512 + pos] ^= 1 << bit;
            match gpt_info(&bad) {
                Err(Error::HeaderChecksumMismatch { computed, expected }) => assert_ne!(computed, expected),
                other => panic!("unexpected result {:?}", other.map(|_| ())),
            }
        }
    }
}

#[test]
fn header_checks_in_order() {
    let img = image_with(&array("EFI"), &array("EFI"), 4);
    let mut bad = img.clone();
    bad[512] = b'X';
    assert!(matches!(gpt_info(&bad), Err(Error::InvalidSignature(_))));
    let mut bad = img.clone();
    bad[512 + 8] = 1;
    assert!(matches!(gpt_info(&bad), Err(Error::IncorrectRevision(0x10001))));
    let mut bad = img.clone();
    bad[512 + 12] = 91;
    assert!(matches!(gpt_info(&bad), Err(Error::InvalidHeaderSize(91))));
    let mut bad = img.clone();
    bad[512 + 200] = 1;
    assert!(matches!(gpt_info(&bad), Err(Error::UnexpectedNonZeroValue)));
    let mut bad = img.clone();
    let block = header_block(2, 13, 2, 4, crc32(&array("EFI")));
    bad[512..1024].copy_from_slice(&block);
    assert!(matches!(gpt_info(&bad), Err(Error::UnexpectedMyLba(2))));
}

#[test]
fn reserved_field_must_be_zero() {
    let mut b = header_block(1, 13, 2, 4, 0);
    put_u32(&mut b, 20, 5);
    put_u32(&mut b, 16, 0);
    let crc = crc32(&b[0..92]);
    put_u32(&mut b, 16, crc);
    assert!(matches!(GptHeader::parse(&b), Err(Error::UnexpectedNonZeroValue)));
}

#[test]
fn mirror_check_is_symmetric_and_permissive() {
    let h = GptHeader::new_primary(14, disk_guid());
    let mut b = h;
    b.my_lba = h.alternate_lba;
    b.alternate_lba = h.my_lba;
    assert!(GptHeader::compare_header_and_backup_header(&h, &b).is_ok());
    assert!(GptHeader::compare_header_and_backup_header(&b, &h).is_ok());
    let mut stranger = b;
    stranger.my_lba = 99;
    stranger.alternate_lba = 98;
    assert!(GptHeader::compare_header_and_backup_header(&h, &stranger).is_ok());
    stranger.disk_guid = Guid { data1: 0, data2: 0, data3: 0, data4: 0 };
    assert!(matches!(
        GptHeader::compare_header_and_backup_header(&h, &stranger),
        Err(Error::HeaderDoesNotMatchBackup)
    ));
}

#[test]
fn backup_array_must_match() {
    let primary = array("EFI");
    let same = array("EFI");
    assert!(PartitionEntry::arrays_match(
        &PartitionEntry::parse_array(&primary, &GptHeader::parse(&header_block(1, 13, 2, 4, crc32(&primary))).unwrap()).unwrap(),
        &PartitionEntry::parse_array(&same, &GptHeader::parse(&header_block(1, 13, 2, 4, crc32(&same))).unwrap()).unwrap(),
    ));
    // the backup array keeps the primary's checksum, so a different backup
    // array is caught by its checksum first
    let mut renamed = array("EFJ");
    assert!(matches!(
        gpt_info(&image_with(&primary, &renamed, 4)),
        Err(Error::PartitionEntryArrayChecksumMismatch { .. })
    ));
    renamed = entry_bytes(3, 11, "EFI");
    renamed.resize(512, 0);
    let h = GptHeader::parse(&header_block(1, 13, 2, 4, crc32(&renamed))).unwrap();
    let a = PartitionEntry::parse_array(&primary, &GptHeader::parse(&header_block(1, 13, 2, 4, crc32(&primary))).unwrap()).unwrap();
    let b = PartitionEntry::parse_array(&renamed, &h).unwrap();
    assert!(!PartitionEntry::arrays_match(&a, &b));
}

#[test]
fn array_checksum_mismatch() {
    let mut img = image_with(&array("EFI"), &array("EFI"), 4);
    img[1024 + 60] ^= 1;
    assert!(matches!(gpt_info(&img), Err(Error::PartitionEntryArrayChecksumMismatch { .. })));
}

#[test]
fn no_partitions() {
    let img = image_with(&[], &[], 0);
    let info = gpt_info(&img).unwrap();
    assert_eq!(info.partition_entry_array.len(), 0);
    assert!(matches!(info.first_partition_byte_range(), Err(Error::NoPartitions)));
    assert!(matches!(first_partition_byte_range(&img), Err(Error::NoPartitions)));
}

#[test]
fn short_images() {
    assert!(matches!(gpt_info(&[0u8; 100]), Err(Error::ImageTooShort)));
    let img = image_with(&array("EFI"), &array("EFI"), 4);
    assert!(matches!(gpt_info(&img[0..13 * 512]), Err(Error::ImageTooShort)));
}

#[test]
fn guid_text_and_encoding() {
    assert_eq!(efi_system_partition_type().to_hyphenated_string(), "c12a7328-f81f-11d2-ba4b-00a0c93ec93b");
    let b = guid_bytes(&efi_system_partition_type());
    assert_eq!(b, vec![0x28, 0x73, 0x2A, 0xC1, 0x1F, 0xF8, 0xD2, 0x11, 0xBA, 0x4B, 0x00, 0xA0, 0xC9, 0x3E, 0xC9, 0x3B]);
    assert_eq!(Guid::parse(&b, 0), efi_system_partition_type());
}

#[test]
fn partition_name_decoding() {
    let e = entry_bytes(1, 2, "Basic data");
    let p = PartitionEntry::parse(&e, 0);
    assert_eq!(p.partition_name, "Basic data");
    let mut odd = entry_bytes(1, 2, "");
    put_u16(&mut odd, 56, 0xD800);
    put_u16(&mut odd, 58, 0x41);
    assert_eq!(PartitionEntry::parse(&odd, 0).partition_name, "\u{FFFD}A");
    let full: String = std::iter::repeat('x').take(36).collect();
    assert_eq!(PartitionEntry::parse(&entry_bytes(1, 2, &full), 0).partition_name, full);
}

#[test]
fn first_partition_entry_constructor() {
    let e = PartitionEntry::new_first_partition_with_size_in_lba(8, disk_guid(), String::from("boot"));
    assert_eq!(e.starting_lba, 3);
    assert_eq!(e.ending_lba, 10);
    assert_eq!(e.attributes, 1);
    assert_eq!(e.partition_type_guid, efi_system_partition_type());
    assert_eq!(e.partition_byte_range(), 3 * 512..11 * 512);
}

#[test]
fn header_encode_round_trip() {
    let array = array("EFI");
    let h = GptHeader::new_primary(14, disk_guid()).seal(&array);
    assert_eq!(h.partition_entry_array_crc32, crc32(&array));
    assert_ne!(h.header_crc32, 0);
    let block = h.encode();
    assert_eq!(block.len(), 512);
    assert_eq!(&block[0..8], b"EFI PART");
    assert_eq!(GptHeader::parse(&block).unwrap(), h);
    assert_eq!(block, header_block(1, 13, 2, 4, crc32(&array)).iter().enumerate().map(|(i, b)| {
        // the test builder writes usable LBAs 3 and 10; the primary layout has 3 and 11
        if i == 48 { 11 } else if (16..20).contains(&i) { block[i] } else { *b }
    }).collect::<Vec<u8>>());
}

#[test]
fn every_single_bit_flip_is_caught() {
    let array = array("EFI");
    let block = GptHeader::new_primary(14, disk_guid()).seal(&array).encode();
    for pos in 20..92 {
        for bit in 0..8 {
            let mut bad = block.clone();
            bad[pos] ^= 1 << bit;
            assert!(matches!(GptHeader::parse(&bad), Err(Error::HeaderChecksumMismatch { .. })));
        }
    }
}

#[test]
fn new_table_reads_back() {
    let size = 3 * 512 + 7;
    let blocks = mini_gpt::new_gpt_blocks(size, disk_guid(), Guid { data1: 9, data2: 9, data3: 9, data4: 9 }, String::from("ESP"));
    assert_eq!(blocks.disk_size_in_lba, 9);
    let mut image = Vec::new();
    image.extend_from_slice(&blocks.mbr);
    image.extend_from_slice(&blocks.primary_header);
    image.extend_from_slice(&blocks.partition_entry_array);
    image.resize(image.len() + 4 * 512, 0);
    image.extend_from_slice(&blocks.partition_entry_array);
    image.extend_from_slice(&blocks.backup_header);
    assert_eq!(image.len(), 9 * 512);
    let info = gpt_info(&image).unwrap();
    assert_eq!(info.header.alternate_lba, 8);
    assert_eq!(info.backup_header.my_lba, 8);
    assert_eq!(info.backup_header.partition_entry_lba, 7);
    assert_eq!(info.partition_entry_array[0].partition_name, "ESP");
    assert_eq!(info.partition_entry_array[0].ending_lba, 6);
    assert_eq!(info.first_partition_byte_range().unwrap(), 3 * 512..7 * 512);
    let mut written = Vec::new();
    write_header(&mut written, size);
    assert_eq!(written, blocks.mbr);
}

#[test]
fn long_partition_names_are_cut() {
    let long: String = std::iter::repeat('n').take(40).collect();
    let e = PartitionEntry::new_first_partition_with_size_in_lba(1, disk_guid(), long);
    let mut bytes = Vec::new();
    e.encode_into(&mut bytes);
    assert_eq!(bytes.len(), 128);
    let back = PartitionEntry::parse(&bytes, 0);
    assert_eq!(back.partition_name.len(), 36);
    assert_eq!(back.starting_lba, 3);
    assert_eq!(back.ending_lba, 3);
}

#[test]
fn smallest_disk_headers() {
    let h = GptHeader::new_primary(3, disk_guid());
    assert_eq!(h.alternate_lba, 2);
    assert_eq!(h.first_usable_lba, 3);
    assert_eq!(h.last_usable_lba, 0);
    let b = GptHeader::new_backup(3, disk_guid());
    assert_eq!(b.my_lba, 2);
    assert_eq!(b.partition_entry_lba, 1);
    let e = PartitionEntry::new_first_partition_with_size_in_lba(u64::MAX - 2, disk_guid(), String::new());
    assert_eq!(e.ending_lba, u64::MAX);
}

#[test]
fn small_entry_size_without_entries_is_empty() {
    let mut h = GptHeader::new_primary(14, disk_guid());
    h.number_of_partition_entries = 0;
    h.size_of_partition_entry = 64;
    let h = h.seal(&[]);
    assert_eq!(PartitionEntry::parse_array(&[], &h).unwrap().len(), 0);
    let mut b = GptHeader::new_backup(14, disk_guid());
    b.number_of_partition_entries = 0;
    b.size_of_partition_entry = 64;
    let b = b.seal(&[]);
    let mut img = vec![0u8; 14 * 512];
    let mut mbr = Vec::new();
    write_header(&mut mbr, 8 * 512);
    img[0..512].copy_from_slice(&mbr);
    img[512..1024].copy_from_slice(&h.encode());
    img[13 * 512..].copy_from_slice(&b.encode());
    let info = gpt_info(&img).unwrap();
    assert_eq!(info.partition_entry_array.len(), 0);
    assert!(matches!(info.first_partition_byte_range(), Err(Error::NoPartitions)));
}

#[test]
fn small_entry_size_with_entries_is_rejected() {
    let raw = vec![0u8; 4 * 64];
    let mut h = GptHeader::new_primary(14, disk_guid());
    h.size_of_partition_entry = 64;
    let h = h.seal(&raw);
    assert!(matches!(PartitionEntry::parse_array(&raw, &h), Err(Error::InvalidPartitionEntrySize(64))));
}
