use mini_gpt::fat::Error as FatError;
use mini_gpt::{BpbError, Fat};

fn boot_sector() -> Vec<u8> {
    let mut b = vec![0u8; 512];
    b[11..13].copy_from_slice(&512u16.to_le_bytes());
    b[13] = 4;
    b[14..16].copy_from_slice(&1u16.to_le_bytes());
    b[16] = 2;
    b[17..19].copy_from_slice(&512u16.to_le_bytes());
    b[22..24].copy_from_slice(&9u16.to_le_bytes());
    b[510] = 0x55;
    b[511] = 0xAA;
    b
}

#[test]
fn fixed_root_directory() {
    let raw = boot_sector();
    let fat = Fat::new(&raw).unwrap();
    assert_eq!(fat.bpb().bytes_per_sector, 512);
    let d = fat.root_directory();
    assert_eq!(d.start, (1 + 2 * 9) * 512);
    assert_eq!(d.end, (1 + 2 * 9) * 512 + 512 * 32);
}

#[test]
fn fat32_root_directory() {
    let mut raw = boot_sector();
    raw[17..19].copy_from_slice(&0u16.to_le_bytes());
    raw[22..24].copy_from_slice(&0u16.to_le_bytes());
    raw[36..40].copy_from_slice(&100u32.to_le_bytes());
    raw[44..48].copy_from_slice(&3u32.to_le_bytes());
    let fat = Fat::new(&raw).unwrap();
    let d = fat.root_directory();
    let start = (1 + 2 * 100) * 512 + 4 * 512;
    assert_eq!(d.start, start);
    assert_eq!(d.end, start + 4 * 512);
}

#[test]
fn bad_boot_sectors() {
    assert!(matches!(Fat::new(&[0u8; 10]), Err(FatError::Bpb(BpbError::TooShort))));
    assert!(matches!(Fat::new(&[0u8; 512]), Err(FatError::Bpb(BpbError::InvalidSignature(0)))));
    let mut raw = boot_sector();
    raw[13] = 0;
    assert!(matches!(Fat::new(&raw), Err(FatError::Bpb(BpbError::ZeroSectorsPerCluster))));
    let mut raw = boot_sector();
    raw[17..19].copy_from_slice(&0u16.to_le_bytes());
    assert!(matches!(Fat::new(&raw), Err(FatError::Bpb(BpbError::InvalidRootCluster(0)))));
}
