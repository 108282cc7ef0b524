//! The boot parameter block of a FAT file system found inside a partition,
//! as far as locating its root directory needs it.
use vstd::prelude::*;

use crate::bytes::{read_u16, read_u32, u16_at, u32_at};

verus! {

/// The fields of a boot parameter block that locate the file system's
/// regions.
#[derive(Debug, Clone, Copy, PartialEq, Eq, Structural)]
pub struct Bpb {
    pub bytes_per_sector: u16,
    pub sectors_per_cluster: u8,
    pub reserved_sector_count: u16,
    pub num_fats: u8,
    pub root_entry_count: u16,
    pub total_sectors_16: u16,
    pub fat_size_16: u16,
    pub total_sectors_32: u32,
    pub fat_size_32: u32,
    pub root_cluster: u32,
}

/// Why a boot sector is not a usable boot parameter block.
#[derive(Debug, Clone, Copy, PartialEq, Eq, Structural)]
pub enum BpbError {
    /// Fewer than 512 bytes.
    TooShort,
    InvalidSignature(u16),
    ZeroBytesPerSector,
    ZeroSectorsPerCluster,
    /// A FAT32 root directory must start at cluster 2 or later.
    InvalidRootCluster(u32),
}

#[derive(Debug, Clone, Copy, PartialEq, Eq, Structural)]
pub enum Error {
    Bpb(BpbError),
}

/// The byte range `[start, end)` of a directory's first region, relative to
/// the start of the file system.
#[derive(Debug, Clone, Copy, PartialEq, Eq, Structural)]
pub struct Directory {
    pub start: u64,
    pub end: u64,
}

/// The boot parameter block stored in `raw`.
pub open spec fn bpb_at(raw: Seq<u8>) -> Bpb {
    Bpb {
        bytes_per_sector: u16_at(raw, 11),
        sectors_per_cluster: raw[13],
        reserved_sector_count: u16_at(raw, 14),
        num_fats: raw[16],
        root_entry_count: u16_at(raw, 17),
        total_sectors_16: u16_at(raw, 19),
        fat_size_16: u16_at(raw, 22),
        total_sectors_32: u32_at(raw, 32),
        fat_size_32: u32_at(raw, 36),
        root_cluster: u32_at(raw, 44),
    }
}

/// What reading a boot parameter block from `raw` gives.
pub open spec fn parse_bpb(raw: Seq<u8>) -> Result<Bpb, BpbError> {
    let b = bpb_at(raw);
    if raw.len() < 512 {
        Err(BpbError::TooShort)
    } else if u16_at(raw, 510) != 0xAA55 {
        Err(BpbError::InvalidSignature(u16_at(raw, 510)))
    } else if b.bytes_per_sector == 0 {
        Err(BpbError::ZeroBytesPerSector)
    } else if b.sectors_per_cluster == 0 {
        Err(BpbError::ZeroSectorsPerCluster)
    } else if b.root_entry_count == 0 && b.root_cluster < 2 {
        Err(BpbError::InvalidRootCluster(b.root_cluster))
    } else {
        Ok(b)
    }
}

impl Bpb {
    /// Sectors per FAT: the 16-bit field, or the FAT32 field where it is zero.
    pub open spec fn fat_size(self) -> int {
        if self.fat_size_16 != 0 {
            self.fat_size_16 as int
        } else {
            self.fat_size_32 as int
        }
    }

    /// Byte offset of the fixed root directory (FAT12/16): after the
    /// reserved sectors and the FATs.
    pub open spec fn root_dir_offset(self) -> int {
        (self.reserved_sector_count + self.num_fats * self.fat_size()) * self.bytes_per_sector
    }

    /// The root directory's first region: the fixed region of
    /// `root_entry_count` 32-byte entries, or for FAT32 (no fixed region)
    /// the first cluster of the root directory's cluster chain.
    pub open spec fn root_region(self) -> (int, int) {
        if self.root_entry_count != 0 {
            (self.root_dir_offset(), self.root_dir_offset() + self.root_entry_count * 32)
        } else {
            let cluster_bytes = self.sectors_per_cluster * self.bytes_per_sector;
            let start = self.root_dir_offset() + (self.root_cluster - 2) * cluster_bytes;
            (start, start + cluster_bytes)
        }
    }

    /// Reads the boot parameter block from the first sector of a FAT file
    /// system.
    pub fn new(raw: &[u8]) -> (r: Result<Bpb, BpbError>)
        ensures
            r == parse_bpb(raw@),
    {
        if raw.len() < 512 {
            return Err(BpbError::TooShort);
        }
        let signature = read_u16(raw, 510);
        if signature != 0xAA55 {
            return Err(BpbError::InvalidSignature(signature));
        }
        let b = Bpb {
            bytes_per_sector: read_u16(raw, 11),
            sectors_per_cluster: raw[13],
            reserved_sector_count: read_u16(raw, 14),
            num_fats: raw[16],
            root_entry_count: read_u16(raw, 17),
            total_sectors_16: read_u16(raw, 19),
            fat_size_16: read_u16(raw, 22),
            total_sectors_32: read_u32(raw, 32),
            fat_size_32: read_u32(raw, 36),
            root_cluster: read_u32(raw, 44),
        };
        if b.bytes_per_sector == 0 {
            return Err(BpbError::ZeroBytesPerSector);
        }
        if b.sectors_per_cluster == 0 {
            return Err(BpbError::ZeroSectorsPerCluster);
        }
        if b.root_entry_count == 0 && b.root_cluster < 2 {
            return Err(BpbError::InvalidRootCluster(b.root_cluster));
        }
        Ok(b)
    }

    /// The root directory's first region, relative to the start of `raw`.
    pub fn root_directory(&self, raw: &[u8]) -> (d: Directory)
        requires
            parse_bpb(raw@) == Ok::<Bpb, BpbError>(*self),
        ensures
            d.start == self.root_region().0,
            d.end == self.root_region().1,
    {
        let fat_size: u64 = if self.fat_size_16 != 0 {
            self.fat_size_16 as u64
        } else {
            self.fat_size_32 as u64
        };
        let bps = self.bytes_per_sector as u64;
        assert(self.num_fats * fat_size <= 0xFF * 0xFFFF_FFFFu64) by (nonlinear_arith)
            requires
                self.num_fats <= 0xFF,
                fat_size <= 0xFFFF_FFFF,
        ;
        let sectors = self.reserved_sector_count as u64 + self.num_fats as u64 * fat_size;
        assert(sectors * bps <= 0x100_0000_0000 * 0xFFFF) by (nonlinear_arith)
            requires
                sectors <= 0x100_0000_0000,
                bps <= 0xFFFF,
        ;
        let offset = sectors * bps;
        if self.root_entry_count != 0 {
            Directory { start: offset, end: offset + self.root_entry_count as u64 * 32 }
        } else {
            assert(self.sectors_per_cluster * bps <= 0xFF * 0xFFFF) by (nonlinear_arith)
                requires
                    self.sectors_per_cluster <= 0xFF,
                    bps <= 0xFFFF,
            ;
            let cluster_bytes = self.sectors_per_cluster as u64 * bps;
            assert((self.root_cluster - 2) * cluster_bytes <= 0x1_0000_0000 * 0x100 * 0x1_0000)
                by (nonlinear_arith)
                requires
                    self.root_cluster <= 0xFFFF_FFFF,
                    2 <= self.root_cluster,
                    cluster_bytes == self.sectors_per_cluster * bps,
                    self.sectors_per_cluster <= 0xFF,
                    bps <= 0xFFFF,
            ;
            let start = offset + (self.root_cluster as u64 - 2) * cluster_bytes;
            Directory { start, end: start + cluster_bytes }
        }
    }
}

/// A FAT file system held in memory.
pub struct Fat<'a> {
    raw: &'a [u8],
    bpb: Bpb,
}

impl<'a> Fat<'a> {
    pub closed spec fn raw_bytes(&self) -> Seq<u8> {
        self.raw@
    }

    pub closed spec fn bpb_spec(&self) -> Bpb {
        self.bpb
    }

    /// The boot parameter block was read from the bytes held.
    pub open spec fn wf(&self) -> bool {
        parse_bpb(self.raw_bytes()) == Ok::<Bpb, BpbError>(self.bpb_spec())
    }

    /// Opens the file system whose bytes are `raw`.
    pub fn new(raw: &'a [u8]) -> (r: Result<Self, Error>)
        ensures
            match r {
                Ok(fat) => fat.wf() && fat.raw_bytes() == raw@,
                Err(Error::Bpb(e)) => parse_bpb(raw@) == Err::<Bpb, BpbError>(e),
            },
    {
        match Bpb::new(raw) {
            Ok(bpb) => Ok(Fat { raw, bpb }),
            Err(e) => Err(Error::Bpb(e)),
        }
    }

    pub fn bpb(&self) -> (b: &Bpb)
        ensures
            *b == self.bpb_spec(),
    {
        &self.bpb
    }

    /// The first region of the root directory.
    pub fn root_directory(&self) -> (d: Directory)
        requires
            self.wf(),
        ensures
            d.start == self.bpb_spec().root_region().0,
            d.end == self.bpb_spec().root_region().1,
    {
        self.bpb.root_directory(self.raw)
    }
}

} // verus!
