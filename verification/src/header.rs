//! The fixed 32-byte file header.

use vstd::prelude::*;

use crate::error::DbfError;

verus! {

/// The format-type tags a dBASE family file can carry in its first byte.
/// Only the two dBASE III+ variants are supported for decoding.
#[derive(Clone, Copy, Debug, PartialEq, Eq, Structural)]
pub enum FileType {
    FoxBase,
    DBase3Plus,
    VisualFoxPro,
    VisualFoxProAutoIncrement,
    VisualFoxProVar,
    DBase4SQLTable,
    DBase4SQLSystem,
    DBase3PlusWithMemo,
    DBase4WithMemo,
    DBase4SQLTableWithMemo,
    FoxBaseWithMemo,
    HiPerSix,
    FoxBase2,
}

/// The tag of the known enumeration that a byte selects, if any.
pub open spec fn spec_file_type(val: u8) -> Option<FileType> {
    match val {
        0x02 => Some(FileType::FoxBase),
        0x03 => Some(FileType::DBase3Plus),
        0x30 => Some(FileType::VisualFoxPro),
        0x31 => Some(FileType::VisualFoxProAutoIncrement),
        0x32 => Some(FileType::VisualFoxProVar),
        0x43 => Some(FileType::DBase4SQLTable),
        0x63 => Some(FileType::DBase4SQLSystem),
        0x83 => Some(FileType::DBase3PlusWithMemo),
        0x8B => Some(FileType::DBase4WithMemo),
        0xCB => Some(FileType::DBase4SQLTableWithMemo),
        0xF5 => Some(FileType::FoxBaseWithMemo),
        0xE5 => Some(FileType::HiPerSix),
        0xFB => Some(FileType::FoxBase2),
        _ => None,
    }
}

impl FileType {
    /// Looks the byte up in the known enumeration.
    pub fn from_u8(val: u8) -> (r: Option<FileType>)
        ensures
            r == spec_file_type(val),
    {
        match val {
            0x02 => Some(FileType::FoxBase),
            0x03 => Some(FileType::DBase3Plus),
            0x30 => Some(FileType::VisualFoxPro),
            0x31 => Some(FileType::VisualFoxProAutoIncrement),
            0x32 => Some(FileType::VisualFoxProVar),
            0x43 => Some(FileType::DBase4SQLTable),
            0x63 => Some(FileType::DBase4SQLSystem),
            0x83 => Some(FileType::DBase3PlusWithMemo),
            0x8B => Some(FileType::DBase4WithMemo),
            0xCB => Some(FileType::DBase4SQLTableWithMemo),
            0xF5 => Some(FileType::FoxBaseWithMemo),
            0xE5 => Some(FileType::HiPerSix),
            0xFB => Some(FileType::FoxBase2),
            _ => None,
        }
    }
}

/// The value a pair of bytes holds as a little-endian unsigned 16-bit integer.
pub open spec fn spec_le16(b0: u8, b1: u8) -> int {
    b0 + 0x100 * b1
}

/// The value four bytes hold as a little-endian unsigned 32-bit integer.
pub open spec fn spec_le32(b0: u8, b1: u8, b2: u8, b3: u8) -> int {
    b0 + 0x100 * b1 + 0x1_0000 * b2 + 0x100_0000 * b3
}

/// The last-update date a header carries: three raw bytes, not validated as
/// a calendar date. The year is an offset from 1900.
#[derive(Clone, Copy, Debug, PartialEq, Eq, Structural)]
pub struct UpdateDate {
    pub year: u8,
    pub month: u8,
    pub day: u8,
}

/// The decoded fixed 32-byte file header.
#[derive(Clone, Debug, PartialEq, Eq, Structural)]
pub struct Header {
    pub file_type: FileType,
    pub has_memo: bool,
    pub last_update: UpdateDate,
    pub num_records: u32,
    pub header_bytes: u16,
    pub record_bytes: u16,
    pub incomplete_tx: u8,
    pub encryption_flag: u8,
    pub mdx_flag: u8,
    pub language_driver_id: u8,
}

/// What decoding the header at the start of the stream gives: the structured
/// header, or the reason the stream is rejected.
pub open spec fn spec_read_header(b: Seq<u8>) -> Result<Header, DbfError> {
    if b.len() < 32 {
        Err(DbfError::Stream)
    } else {
        let tag = b[0] & 0x07;
        match spec_file_type(tag) {
            None => Err(DbfError::Format(tag)),
            Some(ft) => {
                if ft != FileType::DBase3Plus && ft != FileType::DBase3PlusWithMemo {
                    Err(DbfError::UnsupportedFormat(tag))
                } else {
                    Ok(
                        Header {
                            file_type: ft,
                            has_memo: b[0] & 0x80 != 0,
                            last_update: UpdateDate { year: b[1], month: b[2], day: b[3] },
                            num_records: spec_le32(b[4], b[5], b[6], b[7]) as u32,
                            header_bytes: spec_le16(b[8], b[9]) as u16,
                            record_bytes: spec_le16(b[10], b[11]) as u16,
                            incomplete_tx: b[14],
                            encryption_flag: b[15],
                            mdx_flag: b[28],
                            language_driver_id: b[29],
                        },
                    )
                }
            },
        }
    }
}

impl Header {
    /// Decodes the 32-byte header at the start of the stream, validating the
    /// format-type tag.
    pub fn read(bytes: &[u8]) -> (r: Result<Header, DbfError>)
        ensures
            r == spec_read_header(bytes@),
    {
        if bytes.len() < 32 {
            return Err(DbfError::Stream);
        }
        let info = bytes[0];
        let tag = info & 0x07;
        let ft = match FileType::from_u8(tag) {
            None => {
                return Err(DbfError::Format(tag));
            },
            Some(ft) => ft,
        };
        if ft != FileType::DBase3Plus && ft != FileType::DBase3PlusWithMemo {
            return Err(DbfError::UnsupportedFormat(tag));
        }
        let num_records = le_u32(bytes[4], bytes[5], bytes[6], bytes[7]);
        let header_bytes = le_u16(bytes[8], bytes[9]);
        let record_bytes = le_u16(bytes[10], bytes[11]);
        Ok(
            Header {
                file_type: ft,
                has_memo: info & 0x80 != 0,
                last_update: UpdateDate { year: bytes[1], month: bytes[2], day: bytes[3] },
                num_records,
                header_bytes,
                record_bytes,
                incomplete_tx: bytes[14],
                encryption_flag: bytes[15],
                mdx_flag: bytes[28],
                language_driver_id: bytes[29],
            },
        )
    }
}

/// The 32 bytes that carry a header's decoded values: the format byte built
/// from the format-type tag and the has-memo bit, every multi-byte integer
/// little-endian, and the reserved bytes zero.
pub open spec fn spec_encode_header(h: Header) -> Seq<u8> {
    seq![
        if h.has_memo { 0x83u8 } else { 0x03u8 },
        h.last_update.year,
        h.last_update.month,
        h.last_update.day,
        (h.num_records % 0x100) as u8,
        ((h.num_records / 0x100) % 0x100) as u8,
        ((h.num_records / 0x1_0000) % 0x100) as u8,
        ((h.num_records / 0x100_0000) % 0x100) as u8,
        (h.header_bytes % 0x100) as u8,
        (h.header_bytes / 0x100) as u8,
        (h.record_bytes % 0x100) as u8,
        (h.record_bytes / 0x100) as u8,
        0u8,
        0u8,
        h.incomplete_tx,
        h.encryption_flag,
        0u8,
        0u8,
        0u8,
        0u8,
        0u8,
        0u8,
        0u8,
        0u8,
        0u8,
        0u8,
        0u8,
        0u8,
        h.mdx_flag,
        h.language_driver_id,
        0u8,
        0u8,
    ]
}

impl Header {
    /// Writes the header back as the 32 bytes it decodes from. Reserved
    /// bytes come out zero, so this is a round trip of interpretation, not
    /// of the raw input.
    pub fn encode(&self) -> (r: Vec<u8>)
        ensures
            r@ == spec_encode_header(*self),
    {
        let mut r: Vec<u8> = Vec::new();
        r.push(if self.has_memo { 0x83 } else { 0x03 });
        r.push(self.last_update.year);
        r.push(self.last_update.month);
        r.push(self.last_update.day);
        r.push((self.num_records % 0x100) as u8);
        r.push(((self.num_records / 0x100) % 0x100) as u8);
        r.push(((self.num_records / 0x1_0000) % 0x100) as u8);
        r.push(((self.num_records / 0x100_0000) % 0x100) as u8);
        r.push((self.header_bytes % 0x100) as u8);
        r.push((self.header_bytes / 0x100) as u8);
        r.push((self.record_bytes % 0x100) as u8);
        r.push((self.record_bytes / 0x100) as u8);
        r.push(0);
        r.push(0);
        r.push(self.incomplete_tx);
        r.push(self.encryption_flag);
        let mut i: usize = 0;
        while i < 12
            invariant
                i <= 12,
                r@.len() == 16 + i,
                r@ == spec_encode_header(*self).take(16).add(Seq::new(i as nat, |j: int| 0u8)),
            decreases 12 - i,
        {
            r.push(0);
            proof {
                assert(r@ =~= spec_encode_header(*self).take(16).add(
                    Seq::new((i + 1) as nat, |j: int| 0u8),
                ));
            }
            i = i + 1;
        }
        r.push(self.mdx_flag);
        r.push(self.language_driver_id);
        r.push(0);
        r.push(0);
        proof {
            assert(r@ =~= spec_encode_header(*self));
        }
        r
    }
}

/// Decoding a header and encoding it again loses nothing: every valid
/// dBASE III+ header (the only kind decoding can give has the plain
/// dBASE III+ format-type tag) comes back from its own encoding unchanged.
pub proof fn lemma_header_round_trip(h: Header)
    requires
        h.file_type == FileType::DBase3Plus,
    ensures
        spec_read_header(spec_encode_header(h)) == Ok::<Header, DbfError>(h),
{
    let b = spec_encode_header(h);
    assert(b.len() == 32);
    if h.has_memo {
        assert(b[0] == 0x83u8);
        assert(0x83u8 & 0x07u8 == 3u8) by (bit_vector);
        assert(0x83u8 & 0x80u8 != 0u8) by (bit_vector);
    } else {
        assert(b[0] == 0x03u8);
        assert(0x03u8 & 0x07u8 == 3u8) by (bit_vector);
        assert(0x03u8 & 0x80u8 == 0u8) by (bit_vector);
    }
    assert(spec_file_type(b[0] & 0x07) == Some(FileType::DBase3Plus));
    lemma_le32_of_bytes(h.num_records);
    lemma_le16_of_bytes(h.header_bytes);
    lemma_le16_of_bytes(h.record_bytes);
    assert(spec_read_header(b) == Ok::<Header, DbfError>(h));
}

/// Splitting a 32-bit value into four little-endian bytes and joining them
/// again gives the value back.
proof fn lemma_le32_of_bytes(n: u32)
    ensures
        spec_le32(
            (n % 0x100) as u8,
            ((n / 0x100) % 0x100) as u8,
            ((n / 0x1_0000) % 0x100) as u8,
            ((n / 0x100_0000) % 0x100) as u8,
        ) == n,
{
    assert((n % 0x100) as u8 + 0x100 * (((n / 0x100) % 0x100) as u8) + 0x1_0000 * (((n / 0x1_0000)
        % 0x100) as u8) + 0x100_0000 * (((n / 0x100_0000) % 0x100) as u8) == n) by (bit_vector);
}

/// Splitting a 16-bit value into two little-endian bytes and joining them
/// again gives the value back.
proof fn lemma_le16_of_bytes(n: u16)
    ensures
        spec_le16((n % 0x100) as u8, (n / 0x100) as u8) == n,
{
    assert((n % 0x100) as u8 + 0x100 * ((n / 0x100) as u8) == n) by (bit_vector);
}

/// How header decoding fails: a format-type tag outside the known
/// enumeration is refused as such, and a recognized tag that is not a
/// dBASE III+ variant is refused as unsupported, never silently degraded.
pub proof fn lemma_header_format_errors(b: Seq<u8>)
    requires
        b.len() >= 32,
    ensures
        spec_file_type(b[0] & 0x07) is None ==> spec_read_header(b) == Err::<
            Header,
            DbfError,
        >(DbfError::Format(b[0] & 0x07)),
        (match spec_file_type(b[0] & 0x07) {
            Some(ft) => ft != FileType::DBase3Plus && ft != FileType::DBase3PlusWithMemo,
            None => false,
        }) ==> spec_read_header(b) == Err::<Header, DbfError>(
            DbfError::UnsupportedFormat(b[0] & 0x07),
        ),
{
}

/// Joins two bytes little-endian.
pub(crate) fn le_u16(b0: u8, b1: u8) -> (r: u16)
    ensures
        r == spec_le16(b0, b1),
{
    b0 as u16 + (b1 as u16) * 0x100
}

/// Joins four bytes little-endian.
fn le_u32(b0: u8, b1: u8, b2: u8, b3: u8) -> (r: u32)
    ensures
        r == spec_le32(b0, b1, b2, b3),
{
    b0 as u32 + (b1 as u32) * 0x100 + (b2 as u32) * 0x1_0000 + (b3 as u32) * 0x100_0000
}

} // verus!
