//! GUIDs: the on-disk little-endian 128-bit form and the conventional
//! four-field form (32-bit, 16-bit, 16-bit words, then eight bytes as stored).
use vstd::prelude::*;

use crate::bytes::{le16, le32, le64, push_u16, push_u32, push_u64, read_u16, read_u32, read_u64, u16_at, u32_at, u64_at};

verus! {

/// A GUID in its four-field form. `data4` holds the last eight bytes in the
/// order in which they are stored, packed little-endian.
#[derive(Debug, Clone, Copy, PartialEq, Eq, Structural)]
pub struct Guid {
    pub data1: u32,
    pub data2: u16,
    pub data3: u16,
    pub data4: u64,
}

/// Partition type of an EFI system partition,
/// C12A7328-F81F-11D2-BA4B-00A0C93EC93B.
pub open spec fn efi_system_partition_type_spec() -> Guid {
    Guid { data1: 0xC12A7328, data2: 0xF81F, data3: 0x11D2, data4: 0x3BC93EC9A0004BBA }
}

pub fn efi_system_partition_type() -> (g: Guid)
    ensures
        g == efi_system_partition_type_spec(),
{
    Guid { data1: 0xC12A7328, data2: 0xF81F, data3: 0x11D2, data4: 0x3BC93EC9A0004BBA }
}

/// The GUID stored at `s[off..off + 16]`.
pub open spec fn guid_at(s: Seq<u8>, off: int) -> Guid {
    Guid {
        data1: u32_at(s, off),
        data2: u16_at(s, off + 4),
        data3: u16_at(s, off + 6),
        data4: u64_at(s, off + 8),
    }
}

/// Big-endian bytes of `x`.
pub open spec fn be32(x: u32) -> Seq<u8> {
    seq![(x >> 24u32) as u8, (x >> 16u32) as u8, (x >> 8u32) as u8, x as u8]
}

/// Big-endian bytes of `x`.
pub open spec fn be16(x: u16) -> Seq<u8> {
    seq![(x >> 8u16) as u8, x as u8]
}

/// The sixteen bytes in the order of the textual form: the three words
/// big-endian, then the last eight bytes as stored.
pub open spec fn field_order_bytes(data1: u32, data2: u16, data3: u16, data4: u64) -> Seq<u8> {
    be32(data1) + be16(data2) + be16(data3) + le64(data4)
}

/// The lowercase hyphenated text (8-4-4-4-12 hex digits) of sixteen bytes.
pub uninterp spec fn hyphenated_of(bytes: Seq<u8>) -> Seq<char>;

/// Relies on uuid::Uuid::from_fields, which places `d1`, `d2`, `d3`
/// big-endian and then the eight bytes of `d4` as given, and on
/// Uuid::to_hyphenated, whose text of those bytes is 36 characters long.
#[verifier::external_body]
fn uuid_hyphenated(d1: u32, d2: u16, d3: u16, d4: u64) -> (r: String)
    ensures
        r@ == hyphenated_of(field_order_bytes(d1, d2, d3, d4)),
        r@.len() == 36,
{
    match uuid::Uuid::from_fields(d1, d2, d3, &d4.to_le_bytes()) {
        Ok(u) => u.to_hyphenated().to_string(),
        Err(_) => String::new(),
    }
}

impl Guid {
    /// The sixteen on-disk bytes of this GUID.
    pub open spec fn encoding(self) -> Seq<u8> {
        le32(self.data1) + le16(self.data2) + le16(self.data3) + le64(self.data4)
    }

    /// Decodes the GUID stored at `raw[off..off + 16]`.
    pub fn parse(raw: &[u8], off: usize) -> (g: Guid)
        requires
            off + 16 <= raw.len(),
        ensures
            g == guid_at(raw@, off as int),
    {
        Guid {
            data1: read_u32(raw, off),
            data2: read_u16(raw, off + 4),
            data3: read_u16(raw, off + 6),
            data4: read_u64(raw, off + 8),
        }
    }

    /// Appends the sixteen on-disk bytes of this GUID to `out`.
    pub fn encode_into(&self, out: &mut Vec<u8>)
        ensures
            final(out)@ == old(out)@ + self.encoding(),
    {
        push_u32(out, self.data1);
        push_u16(out, self.data2);
        push_u16(out, self.data3);
        push_u64(out, self.data4);
        assert(out@ =~= old(out)@ + self.encoding());
    }

    /// The conventional hyphenated text of this GUID.
    pub fn to_hyphenated_string(&self) -> (r: String)
        ensures
            r@ == hyphenated_of(field_order_bytes(self.data1, self.data2, self.data3, self.data4)),
            r@.len() == 36,
    {
        uuid_hyphenated(self.data1, self.data2, self.data3, self.data4)
    }
}

} // verus!
