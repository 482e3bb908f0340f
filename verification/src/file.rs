//! The file session: the decoded header and descriptors together with the
//! byte stream and a cursor, driven forward one record at a time.

use vstd::prelude::*;

use crate::error::DbfError;
use crate::field::{spec_read_field, Field, FieldModel};
use crate::header::{spec_read_header, Header};
use crate::record::{
    decode_value, lemma_read_record_ok, lemma_values_len_nonneg, spec_read_record,
    spec_read_values, spec_record_len, DbfType, DbfTypeModel, Record, RecordModel,
};

verus! {

/// An open dBASE III+ file: the decoded header, the field descriptors in
/// on-disk order, and the byte stream with the cursor at the next record.
pub struct File {
    pub header: Header,
    pub fields: Vec<Field>,
    pub data: Vec<u8>,
    pub pos: usize,
    pub done: bool,
}

/// A session as the contracts speak of it: what was decoded, and where in
/// the stream the cursor stands.
pub struct FileModel {
    pub header: Header,
    pub fields: Seq<FieldModel>,
    pub pos: int,
}

impl File {
    /// The whole byte stream the session owns.
    pub open spec fn stream(&self) -> Seq<u8> {
        self.data@
    }

    /// Where the cursor stands in the stream.
    pub open spec fn cursor(&self) -> int {
        self.pos as int
    }

    /// Whether the record sequence has ended.
    pub open spec fn exhausted(&self) -> bool {
        self.done
    }

    /// The cursor never leaves the stream.
    pub open spec fn wf(&self) -> bool {
        self.cursor() <= self.stream().len()
    }
}

/// What decoding the descriptor table at `pos` gives: descriptors one after
/// the other until a sentinel byte directly follows one (consuming it), or
/// until the stream ends at a descriptor boundary; and where the cursor
/// stands afterwards. At least one descriptor is always read, since the
/// sentinel is only looked for after a descriptor.
pub open spec fn spec_read_fields(b: Seq<u8>, pos: int) -> Result<(Seq<FieldModel>, int), DbfError>
    decreases b.len() - pos,
{
    match spec_read_field(b, pos) {
        Err(e) => Err(e),
        Ok(f) => {
            let next = pos + 32;
            if next >= b.len() {
                Ok((seq![f], next))
            } else if b[next] == 0x0D {
                Ok((seq![f], next + 1))
            } else {
                match spec_read_fields(b, next) {
                    Err(e) => Err(e),
                    Ok((fs, end)) => Ok((seq![f] + fs, end)),
                }
            }
        },
    }
}

/// What opening a byte stream gives: the header, then the descriptor table,
/// then one optional zero pad byte after the sentinel; the cursor ends at
/// the first data record. Header and descriptor failures reject the whole
/// stream.
pub open spec fn spec_open(b: Seq<u8>) -> Result<FileModel, DbfError> {
    match spec_read_header(b) {
        Err(e) => Err(e),
        Ok(h) => match spec_read_fields(b, 32) {
            Err(e) => Err(e),
            Ok((fs, p)) => {
                let p2 = if p < b.len() && b[p] == 0x00 {
                    p + 1
                } else {
                    p
                };
                Ok(FileModel { header: h, fields: fs, pos: p2 })
            },
        },
    }
}

/// Prefixes already-decoded values onto the rest of a value decode.
pub open spec fn spec_with_values(
    vs: Seq<DbfTypeModel>,
    r: Result<(Seq<DbfTypeModel>, int), DbfError>,
) -> Result<(Seq<DbfTypeModel>, int), DbfError> {
    match r {
        Err(e) => Err(e),
        Ok((ws, p)) => Ok((vs + ws, p)),
    }
}

/// Prefixes already-decoded descriptors onto the rest of a table decode.
pub open spec fn spec_with_fields(
    fs: Seq<FieldModel>,
    r: Result<(Seq<FieldModel>, int), DbfError>,
) -> Result<(Seq<FieldModel>, int), DbfError> {
    match r {
        Err(e) => Err(e),
        Ok((gs, p)) => Ok((fs + gs, p)),
    }
}

impl File {
    /// Opens a byte stream as a dBASE III+ file: decodes the header and the
    /// descriptor table, skips an optional zero pad byte, and leaves the
    /// cursor at the first data record. Any header or descriptor failure
    /// rejects the whole stream; no partial session is returned.
    #[verifier::loop_isolation(false)]
    pub fn open(data: Vec<u8>) -> (r: Result<File, DbfError>)
        ensures
            r matches Ok(f) ==> (spec_open(data@) matches Ok(m) && f.header == m.header
                && f.fields.deep_view() == m.fields && f.stream() == data@ && f.cursor() == m.pos
                && !f.exhausted() && f.wf()),
            r matches Err(e) ==> spec_open(data@) == Err::<FileModel, DbfError>(e),
    {
        let ghost b = data@;
        let header = match Header::read(data.as_slice()) {
            Err(e) => {
                return Err(e);
            },
            Ok(h) => h,
        };
        let n = data.len();
        let mut fields: Vec<Field> = Vec::new();
        let mut pos: usize = 32;
        let mut table_done = false;
        proof {
            assert(fields.deep_view() =~= Seq::<FieldModel>::empty());
            if let Ok((gs, p)) = spec_read_fields(b, 32) {
                assert(Seq::<FieldModel>::empty() + gs =~= gs);
            }
        }
        while !table_done
            invariant
                32 <= pos,
                table_done ==> pos <= b.len() && spec_read_fields(b, 32) == Ok::<
                    (Seq<FieldModel>, int),
                    DbfError,
                >((fields.deep_view(), pos as int)),
                !table_done ==> spec_read_fields(b, 32) == spec_with_fields(
                    fields.deep_view(),
                    spec_read_fields(b, pos as int),
                ),
            decreases b.len() - pos + (if table_done {
                0int
            } else {
                1int
            }),
        {
            let ghost fields_before = fields.deep_view();
            let ghost pos_before = pos as int;
            match Field::read(data.as_slice(), pos) {
                Err(e) => {
                    return Err(e);
                },
                Ok(f) => {
                    proof {
                        assert(spec_read_field(b, pos_before) == Ok::<FieldModel, DbfError>(f@));
                        assert(pos_before + 32 <= n);
                    }
                    fields.push(f);
                    proof {
                        assert(fields.deep_view() =~= fields_before + seq![f@]);
                    }
                    pos = pos + 32;
                    if pos >= n {
                        table_done = true;
                        proof {
                            assert(spec_read_fields(b, pos_before) == Ok::<
                                (Seq<FieldModel>, int),
                                DbfError,
                            >((seq![f@], pos as int)));
                            assert(fields_before + seq![f@] =~= fields.deep_view());
                        }
                    } else if data[pos] == 0x0D {
                        pos = pos + 1;
                        table_done = true;
                        proof {
                            assert(spec_read_fields(b, pos_before) == Ok::<
                                (Seq<FieldModel>, int),
                                DbfError,
                            >((seq![f@], pos as int)));
                        }
                    } else {
                        proof {
                            assert(spec_read_fields(b, pos_before) == spec_with_fields(
                                seq![f@],
                                spec_read_fields(b, pos as int),
                            ));
                            if let Ok((gs, p)) = spec_read_fields(b, pos as int) {
                                assert(fields_before + (seq![f@] + gs) =~= (fields_before
                                    + seq![f@]) + gs);
                            }
                        }
                    }
                },
            }
        }
        if pos < n && data[pos] == 0x00 {
            pos = pos + 1;
        }
        Ok(File { header, fields, data, pos, done: false })
    }

    /// The record count the header declares.
    pub fn num_records(&self) -> (r: u64)
        ensures
            r == self.header.num_records as u64,
    {
        self.header.num_records as u64
    }

    /// One step of the record iterator: decodes the record at the cursor.
    /// A clean end of the stream ends the sequence with no error; any
    /// decode failure is handed to the caller for that step and the
    /// sequence is treated as ended, so that a misaligned cursor is never
    /// read again.
    pub fn next_record(&mut self) -> (r: Option<Result<Record, DbfError>>)
        requires
            old(self).wf(),
        ensures
            final(self).wf(),
            final(self).header == old(self).header,
            final(self).fields@ == old(self).fields@,
            final(self).stream() == old(self).stream(),
            old(self).exhausted() ==> r is None && *final(self) == *old(self),
            !old(self).exhausted() ==> (match spec_read_record(
                old(self).stream(),
                old(self).cursor(),
                old(self).fields.deep_view(),
            ) {
                Ok((m, p2)) => (r matches Some(Ok(rec)) && rec@ == m && final(self).cursor() == p2
                    && !final(self).exhausted()),
                Err(e) => if e == DbfError::EndOfStream {
                    r is None && final(self).exhausted()
                } else {
                    (r matches Some(Err(e2)) && e2 == e) && final(self).exhausted()
                },
            }),
    {
        if self.done {
            return None;
        }
        match Record::read(self) {
            Ok(rec) => Some(Ok(rec)),
            Err(e) => {
                self.done = true;
                match e {
                    DbfError::EndOfStream => None,
                    _ => Some(Err(e)),
                }
            },
        }
    }
}

/// What repeatedly decoding records from `pos` to the end of the stream
/// gives: the records in order until the clean end-of-stream condition, or
/// the first failure.
pub open spec fn spec_records(b: Seq<u8>, pos: int, fields: Seq<FieldModel>) -> Result<
    Seq<RecordModel>,
    DbfError,
>
    decreases b.len() - pos when 0 <= pos <= b.len()
{
    match spec_read_record(b, pos, fields) {
        Err(e) => if e == DbfError::EndOfStream {
            Ok(Seq::empty())
        } else {
            Err(e)
        },
        Ok((r, p2)) => if pos < p2 <= b.len() {
            match spec_records(b, p2, fields) {
                Err(e) => Err(e),
                Ok(rs) => Ok(seq![r] + rs),
            }
        } else {
            Ok(seq![r])
        },
    }
}

/// A stream that holds exactly as many well-formed records as fit — the
/// remaining length is a whole multiple of the record length, and each
/// record in it decodes — yields exactly that many records and then ends
/// cleanly.
pub proof fn lemma_exact_records_terminate(b: Seq<u8>, pos: int, fields: Seq<FieldModel>, n: nat)
    requires
        0 <= pos <= b.len(),
        b.len() - pos == n * spec_record_len(fields),
        forall|i: int|
            0 <= i < n ==> #[trigger] spec_read_record(
                b,
                pos + i * spec_record_len(fields),
                fields,
            ) is Ok,
    ensures
        spec_records(b, pos, fields) matches Ok(rs) && rs.len() == n,
    decreases n,
{
    let rl = spec_record_len(fields);
    lemma_values_len_nonneg(fields);
    if n == 0 {
        assert(pos == b.len());
        assert(spec_read_record(b, pos, fields) == Err::<(RecordModel, int), DbfError>(
            DbfError::EndOfStream,
        ));
    } else {
        assert(0 * rl == 0);
        assert(spec_read_record(b, pos + 0 * rl, fields) is Ok);
        lemma_read_record_ok(b, pos, fields);
        let p2 = spec_read_record(b, pos, fields)->Ok_0.1;
        assert(p2 == pos + rl);
        assert((n - 1) * rl == n * rl - rl) by (nonlinear_arith);
        assert(b.len() - p2 == (n - 1) * rl);
        assert forall|i: int| 0 <= i < n - 1 implies #[trigger] spec_read_record(
            b,
            p2 + i * rl,
            fields,
        ) is Ok by {
            assert((i + 1) * rl == i * rl + rl) by (nonlinear_arith);
            assert(p2 + i * rl == pos + (i + 1) * rl);
            assert(spec_read_record(b, pos + (i + 1) * rl, fields) is Ok);
        }
        lemma_exact_records_terminate(b, p2, fields, (n - 1) as nat);
        assert(p2 <= b.len()) by {
            assert((n - 1) * rl >= 0) by (nonlinear_arith)
                requires
                    n >= 1,
                    rl >= 0,
            ;
        }
    }
}

impl Record {
    /// Decodes exactly one record at the session's cursor: one byte as the
    /// deletion marker, then each field's declared-length bytes under its
    /// type tag. On success the cursor ends just past the record; on
    /// failure only the session's stream, shape and exhaustion are
    /// promised unchanged.
    #[verifier::loop_isolation(false)]
    pub fn read(dbf: &mut File) -> (r: Result<Record, DbfError>)
        requires
            old(dbf).wf(),
        ensures
            final(dbf).wf(),
            final(dbf).header == old(dbf).header,
            final(dbf).fields@ == old(dbf).fields@,
            final(dbf).stream() == old(dbf).stream(),
            final(dbf).exhausted() == old(dbf).exhausted(),
            r matches Ok(rec) ==> (spec_read_record(
                old(dbf).stream(),
                old(dbf).cursor(),
                old(dbf).fields.deep_view(),
            ) matches Ok((m, p2)) && rec@ == m && final(dbf).cursor() == p2),
            r matches Err(e) ==> spec_read_record(
                old(dbf).stream(),
                old(dbf).cursor(),
                old(dbf).fields.deep_view(),
            ) matches Err(e2) && e == e2,
    {
        let ghost b = dbf.data@;
        let ghost fm = dbf.fields.deep_view();
        if dbf.pos >= dbf.data.len() {
            return Err(DbfError::EndOfStream);
        }
        let deleted = dbf.data[dbf.pos] == 0x2A;
        dbf.pos = dbf.pos + 1;
        let ghost q0 = dbf.pos as int;
        let num_fields = dbf.fields.len();
        let mut values: Vec<DbfType> = Vec::new();
        let mut i: usize = 0;
        proof {
            assert(values.deep_view() =~= Seq::<DbfTypeModel>::empty());
            assert(fm.skip(0) =~= fm);
            if let Ok((ws, p)) = spec_read_values(b, q0, fm) {
                assert(Seq::<DbfTypeModel>::empty() + ws =~= ws);
            }
        }
        while i < num_fields
            invariant
                i <= num_fields,
                num_fields == dbf.fields.len(),
                dbf.header == old(dbf).header,
                dbf.fields@ == old(dbf).fields@,
                dbf.data@ == b,
                dbf.done == old(dbf).done,
                fm == dbf.fields.deep_view(),
                dbf.pos <= dbf.data.len(),
                values.deep_view().len() == i,
                spec_read_values(b, q0, fm) == spec_with_values(
                    values.deep_view(),
                    spec_read_values(b, dbf.pos as int, fm.skip(i as int)),
                ),
            decreases num_fields - i,
        {
            let f_len = dbf.fields[i].len as usize;
            let f_typ = dbf.fields[i].typ;
            let ghost rest = fm.skip(i as int);
            proof {
                assert(rest.len() == num_fields - i);
                assert(rest[0] == fm[i as int]);
                assert(fm[i as int] == dbf.fields@[i as int]@);
            }
            if dbf.data.len() - dbf.pos < f_len {
                proof {
                    assert(spec_read_values(b, dbf.pos as int, rest) == Err::<
                        (Seq<DbfTypeModel>, int),
                        DbfError,
                    >(DbfError::Stream));
                }
                return Err(DbfError::Stream);
            }
            let chunk_slice = vstd::slice::slice_subrange(
                dbf.data.as_slice(),
                dbf.pos,
                dbf.pos + f_len,
            );
            let chunk = vstd::slice::slice_to_vec(chunk_slice);
            match decode_value(f_typ, chunk) {
                Err(e) => {
                    return Err(e);
                },
                Ok(v) => {
                    let ghost values_before = values.deep_view();
                    values.push(v);
                    dbf.pos = dbf.pos + f_len;
                    i = i + 1;
                    proof {
                        assert(values.deep_view() =~= values_before + seq![v@]);
                        assert(rest.drop_first() =~= fm.skip(i as int));
                        let inner = spec_read_values(b, dbf.pos as int, fm.skip(i as int));
                        if let Ok((ws, p)) = inner {
                            assert(values_before + (seq![v@] + ws) =~= (values_before + seq![v@])
                                + ws);
                        }
                    }
                },
            }
        }
        proof {
            assert(fm.skip(num_fields as int) =~= Seq::<FieldModel>::empty());
            let inner = spec_read_values(b, dbf.pos as int, fm.skip(num_fields as int));
            assert(inner == Ok::<(Seq<DbfTypeModel>, int), DbfError>(
                (Seq::empty(), dbf.pos as int),
            ));
            assert(values.deep_view() + Seq::<DbfTypeModel>::empty()
                =~= values.deep_view());
        }
        Ok(Record { deleted, data: values })
    }
}

} // verus!
