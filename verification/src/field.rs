//! The 32-byte field descriptors that follow the header.

use vstd::prelude::*;
use vstd::utf8::{decode_utf8, valid_utf8};

use crate::error::DbfError;
use crate::header::spec_le16;
use crate::text::string_from_utf8;

verus! {

/// One decoded field descriptor.
#[derive(Clone, Debug)]
pub struct Field {
    pub name: String,
    pub typ: char,
    pub len: u8,
    pub decimals: u8,
    pub work_area_id: u16,
    pub example: u8,
    pub mdx_flag: u8,
}

/// A field descriptor as the contracts speak of it: the name as its
/// character sequence, the rest as plain values.
pub struct FieldModel {
    pub name: Seq<char>,
    pub typ: char,
    pub len: u8,
    pub decimals: u8,
    pub work_area_id: u16,
    pub example: u8,
    pub mdx_flag: u8,
}

impl View for Field {
    type V = FieldModel;

    open spec fn view(&self) -> FieldModel {
        FieldModel {
            name: self.name@,
            typ: self.typ,
            len: self.len,
            decimals: self.decimals,
            work_area_id: self.work_area_id,
            example: self.example,
            mdx_flag: self.mdx_flag,
        }
    }
}

impl DeepView for Field {
    type V = FieldModel;

    open spec fn deep_view(&self) -> FieldModel {
        self@
    }
}

/// What decoding the 32-byte descriptor at `pos` gives: the name is the text
/// before the first NUL of the 11-byte name slot, and fails if the slot has
/// no NUL or the name is not valid text; multi-byte integers are
/// little-endian; reserved bytes are skipped.
pub open spec fn spec_read_field(b: Seq<u8>, pos: int) -> Result<FieldModel, DbfError> {
    if pos < 0 || pos + 32 > b.len() {
        Err(DbfError::Stream)
    } else {
        let slot = b.subrange(pos, pos + 11);
        match slot.index_of_first(0u8) {
            None => Err(DbfError::MalformedDescriptor),
            Some(z) => {
                let name_bytes = slot.take(z);
                if !valid_utf8(name_bytes) {
                    Err(DbfError::Encoding)
                } else {
                    Ok(
                        FieldModel {
                            name: decode_utf8(name_bytes),
                            typ: b[pos + 11] as char,
                            len: b[pos + 16],
                            decimals: b[pos + 17],
                            work_area_id: spec_le16(b[pos + 18], b[pos + 19]) as u16,
                            example: b[pos + 20],
                            mdx_flag: b[pos + 31],
                        },
                    )
                }
            },
        }
    }
}

impl Field {
    /// Decodes the 32-byte field descriptor at `pos`.
    pub fn read(bytes: &[u8], pos: usize) -> (r: Result<Field, DbfError>)
        ensures
            r matches Ok(f) ==> spec_read_field(bytes@, pos as int) == Ok::<
                FieldModel,
                DbfError,
            >(f@),
            r matches Err(e) ==> spec_read_field(bytes@, pos as int) == Err::<
                FieldModel,
                DbfError,
            >(e),
    {
        if bytes.len() < 32 || pos > bytes.len() - 32 {
            return Err(DbfError::Stream);
        }
        let ghost slot = bytes@.subrange(pos as int, pos as int + 11);
        let n = bytes.len();
        let mut z: usize = 0;
        while z < 11 && bytes[pos + z] != 0
            invariant
                z <= 11,
                n == bytes@.len(),
                pos + 32 <= n,
                slot == bytes@.subrange(pos as int, pos as int + 11),
                forall|j: int| 0 <= j < z ==> slot[j] != 0u8,
            decreases 11 - z,
        {
            z = z + 1;
        }
        proof {
            slot.index_of_first_ensures(0u8);
        }
        if z == 11 {
            return Err(DbfError::MalformedDescriptor);
        }
        proof {
            assert(slot[z as int] == 0u8);
            assert(slot.index_of_first(0u8) == Some(z as int));
        }
        let name_slice = vstd::slice::slice_subrange(bytes, pos, pos + z);
        let name_vec = vstd::slice::slice_to_vec(name_slice);
        proof {
            assert(name_vec@ =~= slot.take(z as int));
        }
        let name = match string_from_utf8(name_vec) {
            None => {
                return Err(DbfError::Encoding);
            },
            Some(s) => s,
        };
        Ok(
            Field {
                name,
                typ: bytes[pos + 11] as char,
                len: bytes[pos + 16],
                decimals: bytes[pos + 17],
                work_area_id: crate::header::le_u16(bytes[pos + 18], bytes[pos + 19]),
                example: bytes[pos + 20],
                mdx_flag: bytes[pos + 31],
            },
        )
    }
}

} // verus!
