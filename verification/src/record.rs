//! Fixed-width records and their typed field values.

use vstd::prelude::*;
use vstd::utf8::{decode_utf8, valid_utf8};

use crate::error::DbfError;
use crate::field::FieldModel;
use crate::text::{lossy_decode, string_from_utf8, string_from_utf8_lossy};

verus! {

/// A decoded field value: one variant per declared type tag, each carried
/// as the raw decoded text.
#[derive(Clone, Debug)]
pub enum DbfType {
    Character(String),
    Numeric(String),
    Float(String),
    Logical(String),
    Date(String),
    Memo(String),
}

/// A field value as the contracts speak of it: the text as its character
/// sequence.
pub enum DbfTypeModel {
    Character(Seq<char>),
    Numeric(Seq<char>),
    Float(Seq<char>),
    Logical(Seq<char>),
    Date(Seq<char>),
    Memo(Seq<char>),
}

impl View for DbfType {
    type V = DbfTypeModel;

    open spec fn view(&self) -> DbfTypeModel {
        match self {
            DbfType::Character(s) => DbfTypeModel::Character(s@),
            DbfType::Numeric(s) => DbfTypeModel::Numeric(s@),
            DbfType::Float(s) => DbfTypeModel::Float(s@),
            DbfType::Logical(s) => DbfTypeModel::Logical(s@),
            DbfType::Date(s) => DbfTypeModel::Date(s@),
            DbfType::Memo(s) => DbfTypeModel::Memo(s@),
        }
    }
}

impl DeepView for DbfType {
    type V = DbfTypeModel;

    open spec fn deep_view(&self) -> DbfTypeModel {
        self@
    }
}

/// One decoded record: the deletion flag and one typed value per field
/// descriptor, in descriptor order.
#[derive(Clone, Debug)]
pub struct Record {
    pub deleted: bool,
    pub data: Vec<DbfType>,
}

/// A record as the contracts speak of it.
pub struct RecordModel {
    pub deleted: bool,
    pub data: Seq<DbfTypeModel>,
}

impl View for Record {
    type V = RecordModel;

    open spec fn view(&self) -> RecordModel {
        RecordModel { deleted: self.deleted, data: self.data.deep_view() }
    }
}

impl DeepView for Record {
    type V = RecordModel;

    open spec fn deep_view(&self) -> RecordModel {
        self@
    }
}

/// The byte a record starts with when it is soft-deleted.
pub open spec fn spec_deletion_marker() -> u8 {
    0x2A
}

/// What a field's bytes decode to under its type tag: character fields
/// decode lossily and cannot fail; the five strict tags fail on invalid
/// text; any other tag is refused outright.
pub open spec fn spec_decode_value(typ: char, bytes: Seq<u8>) -> Result<DbfTypeModel, DbfError> {
    if typ == 'C' {
        Ok(DbfTypeModel::Character(lossy_decode(bytes)))
    } else if typ == 'D' || typ == 'F' || typ == 'L' || typ == 'M' || typ == 'N' {
        if valid_utf8(bytes) {
            Ok(
                if typ == 'D' {
                    DbfTypeModel::Date(decode_utf8(bytes))
                } else if typ == 'F' {
                    DbfTypeModel::Float(decode_utf8(bytes))
                } else if typ == 'L' {
                    DbfTypeModel::Logical(decode_utf8(bytes))
                } else if typ == 'M' {
                    DbfTypeModel::Memo(decode_utf8(bytes))
                } else {
                    DbfTypeModel::Numeric(decode_utf8(bytes))
                },
            )
        } else {
            Err(DbfError::Encoding)
        }
    } else {
        Err(DbfError::UnsupportedFieldType(typ))
    }
}

/// Decodes one field value from its declared-length bytes.
pub(crate) fn decode_value(typ: char, bytes: Vec<u8>) -> (r: Result<DbfType, DbfError>)
    ensures
        r matches Ok(v) ==> spec_decode_value(typ, bytes@) == Ok::<DbfTypeModel, DbfError>(v@),
        r matches Err(e) ==> spec_decode_value(typ, bytes@) == Err::<DbfTypeModel, DbfError>(e),
{
    if typ == 'C' {
        return Ok(DbfType::Character(string_from_utf8_lossy(bytes.as_slice())));
    }
    if typ == 'D' || typ == 'F' || typ == 'L' || typ == 'M' || typ == 'N' {
        let s = match string_from_utf8(bytes) {
            None => {
                return Err(DbfError::Encoding);
            },
            Some(s) => s,
        };
        return Ok(
            if typ == 'D' {
                DbfType::Date(s)
            } else if typ == 'F' {
                DbfType::Float(s)
            } else if typ == 'L' {
                DbfType::Logical(s)
            } else if typ == 'M' {
                DbfType::Memo(s)
            } else {
                DbfType::Numeric(s)
            },
        );
    }
    Err(DbfError::UnsupportedFieldType(typ))
}

/// How many bytes the field values of one record occupy: the sum of the
/// declared lengths.
pub open spec fn spec_values_len(fields: Seq<FieldModel>) -> int
    decreases fields.len(),
{
    if fields.len() == 0 {
        0
    } else {
        fields[0].len + spec_values_len(fields.drop_first())
    }
}

/// How many bytes one whole record occupies: the deletion marker plus every
/// declared field length.
pub open spec fn spec_record_len(fields: Seq<FieldModel>) -> int {
    1 + spec_values_len(fields)
}

/// What decoding the field values at `pos` gives, one value per descriptor
/// in order, each consuming exactly its declared length; and where the
/// cursor stands afterwards. A field whose bytes run past the end of the
/// stream is a truncation, not a clean end.
pub open spec fn spec_read_values(b: Seq<u8>, pos: int, fields: Seq<FieldModel>) -> Result<
    (Seq<DbfTypeModel>, int),
    DbfError,
>
    decreases fields.len(),
{
    if fields.len() == 0 {
        Ok((Seq::empty(), pos))
    } else {
        let f = fields[0];
        if pos < 0 || pos + f.len > b.len() {
            Err(DbfError::Stream)
        } else {
            match spec_decode_value(f.typ, b.subrange(pos, pos + f.len)) {
                Err(e) => Err(e),
                Ok(v) => match spec_read_values(b, pos + f.len, fields.drop_first()) {
                    Err(e) => Err(e),
                    Ok((vs, p2)) => Ok((seq![v] + vs, p2)),
                },
            }
        }
    }
}

/// What decoding one record at `pos` gives: the deletion flag from the
/// marker byte, then the field values; and where the cursor stands
/// afterwards. A cursor already at the end of the stream is the clean
/// end-of-stream condition.
pub open spec fn spec_read_record(b: Seq<u8>, pos: int, fields: Seq<FieldModel>) -> Result<
    (RecordModel, int),
    DbfError,
> {
    if pos < 0 || pos + 1 > b.len() {
        Err(DbfError::EndOfStream)
    } else {
        match spec_read_values(b, pos + 1, fields) {
            Err(e) => Err(e),
            Ok((vs, p2)) => Ok(
                (RecordModel { deleted: b[pos] == spec_deletion_marker(), data: vs }, p2),
            ),
        }
    }
}

/// Field-value byte counts are never negative.
pub proof fn lemma_values_len_nonneg(fields: Seq<FieldModel>)
    ensures
        spec_values_len(fields) >= 0,
    decreases fields.len(),
{
    if fields.len() > 0 {
        lemma_values_len_nonneg(fields.drop_first());
    }
}

/// Successful value decoding yields one value per field and moves the
/// cursor by exactly the declared lengths, staying inside the stream.
pub proof fn lemma_read_values_ok(b: Seq<u8>, pos: int, fields: Seq<FieldModel>)
    ensures
        spec_read_values(b, pos, fields) matches Ok((vs, p2)) ==> vs.len() == fields.len() && p2
            == pos + spec_values_len(fields) && (fields.len() > 0 ==> 0 <= pos && p2 <= b.len()),
    decreases fields.len(),
{
    if fields.len() > 0 {
        let f = fields[0];
        if 0 <= pos && pos + f.len <= b.len() {
            lemma_read_values_ok(b, pos + f.len, fields.drop_first());
            lemma_values_len_nonneg(fields.drop_first());
        }
    }
}

/// Successful record decoding yields one value per field and moves the
/// cursor forward by exactly the record length, staying inside the stream.
pub proof fn lemma_read_record_ok(b: Seq<u8>, pos: int, fields: Seq<FieldModel>)
    ensures
        spec_read_record(b, pos, fields) matches Ok((r, p2)) ==> r.data.len() == fields.len() && p2
            == pos + spec_record_len(fields) && 0 <= pos && pos < p2 <= b.len(),
{
    lemma_read_values_ok(b, pos + 1, fields);
    lemma_values_len_nonneg(fields);
    if fields.len() == 0 {
        assert(spec_values_len(fields) == 0);
    }
}

/// Value decoding never reports the clean end-of-stream condition: its
/// failures are truncation or per-field decode errors.
proof fn lemma_read_values_err(b: Seq<u8>, pos: int, fields: Seq<FieldModel>)
    ensures
        spec_read_values(b, pos, fields) matches Err(e) ==> e != DbfError::EndOfStream,
    decreases fields.len(),
{
    if fields.len() > 0 {
        let f = fields[0];
        if 0 <= pos && pos + f.len <= b.len() {
            lemma_read_values_err(b, pos + f.len, fields.drop_first());
        }
    }
}

/// A stream truncated strictly inside a record — bytes remain, but fewer
/// than one record's worth — never ends cleanly: decoding it fails, and not
/// with the end-of-stream condition.
pub proof fn lemma_truncated_record(b: Seq<u8>, pos: int, fields: Seq<FieldModel>)
    ensures
        0 <= pos < b.len() && b.len() - pos < spec_record_len(fields) ==> (match spec_read_record(
            b,
            pos,
            fields,
        ) {
            Ok(r) => false,
            Err(e) => e != DbfError::EndOfStream,
        }),
{
    if 0 <= pos < b.len() && b.len() - pos < spec_record_len(fields) {
        lemma_read_values_ok(b, pos + 1, fields);
        lemma_read_values_err(b, pos + 1, fields);
    }
}

/// A record whose marker byte is the deletion sentinel reports itself
/// deleted, and one with any other marker byte does not.
pub proof fn lemma_deletion_marker(b: Seq<u8>, pos: int, fields: Seq<FieldModel>)
    ensures
        spec_read_record(b, pos, fields) matches Ok((r, p2)) ==> (r.deleted <==> b[pos]
            == spec_deletion_marker()),
{
}

/// A character field decodes lossily and never fails; a strict field (here
/// the numeric tag) fails on the same invalid bytes with the encoding
/// error.
pub proof fn lemma_lossy_vs_strict(bytes: Seq<u8>)
    ensures
        spec_decode_value('C', bytes) == Ok::<DbfTypeModel, DbfError>(
            DbfTypeModel::Character(lossy_decode(bytes)),
        ),
        !valid_utf8(bytes) ==> spec_decode_value('N', bytes) == Err::<DbfTypeModel, DbfError>(
            DbfError::Encoding,
        ),
{
}

} // verus!
