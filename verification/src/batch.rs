//! Row batches and row writers.
//!
//! A [`DataRowBatch`] owns the row descriptor, the format mode, the row
//! counter and the append-only output buffer. A [`DataRowWriter`] stages one
//! row; while it lives it owns the batch, so at most one row can ever be open
//! at a time. Finalization checks that exactly as many columns were written
//! as the descriptor declared when the row was opened, and only then frames
//! the row into the output buffer.

use vstd::prelude::*;
use vstd::string::StringSliceAdditionalSpecFns;
use bytes::BytesMut;
use crate::buffer::{
    buf_bytes, buf_new, buf_len, buf_put_u8, buf_put_slice, buf_append_split, buf_to_vec,
};
use crate::calendar::{
    Date, Timestamp, date_offset, timestamp_offset, date_text, timestamp_text, epoch_days,
    epoch_micros, date_text_bytes, timestamp_text_bytes,
};
use crate::encoding::{
    i16_be, i32_be, i64_be, dec_int, i16_be_vec, i32_be_vec, i64_be_vec, i64_text,
    lemma_dec_int_i64_len,
};

verus! {

/// Largest number of bytes a staged row may hold, so that the frame length
/// (payload plus 4) always fits a signed 32-bit length field.
pub const ROW_CAP: usize = 0x7FFF_FFFB;

/// Per-batch serialization discipline, fixed at construction.
#[derive(Clone, Copy, PartialEq, Eq, Structural, Debug)]
pub enum FormatCode {
    Text,
    Binary,
}

/// One column of a row descriptor. Only the column count matters to the
/// encoder; name and type are carried for the surrounding system.
pub struct FieldDescription {
    pub name: String,
    pub data_type: i32,
}

/// An ordered column list and the format mode shared by the whole row set.
pub struct RowDescription {
    pub fields: Vec<FieldDescription>,
    pub format_code: FormatCode,
}

/// Fatal caller-defect conditions: the encode is aborted, no partial row is
/// ever emitted.
#[derive(Clone, Copy, PartialEq, Eq, Structural, Debug)]
pub enum EncodeError {
    /// The number of values written to a row differs from the column count
    /// its batch's descriptor declared when the row was opened.
    ColumnCountMismatch,
}

/// A length-prefixed value: signed 32-bit big-endian byte count, then the
/// bytes.
pub open spec fn enc_value(data: Seq<u8>) -> Seq<u8> {
    i32_be(data.len() as i32) + data
}

/// A null column: length `-1`, no payload bytes.
pub open spec fn enc_null() -> Seq<u8> {
    i32_be(-1i32)
}

/// A boolean column: `t`/`f` text in Text mode; in Binary mode a single
/// unprefixed byte `1`/`0`.
pub open spec fn enc_bool(mode: FormatCode, v: bool) -> Seq<u8> {
    if mode == FormatCode::Text {
        enc_value(seq![if v { 116u8 } else { 102u8 }])
    } else {
        seq![if v { 1u8 } else { 0u8 }]
    }
}

/// A 16-bit integer column: decimal text or fixed-width big-endian bytes.
pub open spec fn enc_i16(mode: FormatCode, v: i16) -> Seq<u8> {
    if mode == FormatCode::Text {
        enc_value(dec_int(v as int))
    } else {
        enc_value(i16_be(v))
    }
}

/// A 32-bit integer column: decimal text or fixed-width big-endian bytes.
pub open spec fn enc_i32(mode: FormatCode, v: i32) -> Seq<u8> {
    if mode == FormatCode::Text {
        enc_value(dec_int(v as int))
    } else {
        enc_value(i32_be(v))
    }
}

/// A 64-bit integer column: decimal text or fixed-width big-endian bytes.
pub open spec fn enc_i64(mode: FormatCode, v: i64) -> Seq<u8> {
    if mode == FormatCode::Text {
        enc_value(dec_int(v as int))
    } else {
        enc_value(i64_be(v))
    }
}

/// A date column: ISO-8601 text, or the signed 32-bit day offset from
/// 2000-01-01.
pub open spec fn enc_date(mode: FormatCode, d: Date) -> Seq<u8> {
    if mode == FormatCode::Text {
        enc_value(date_text(d))
    } else {
        enc_value(i32_be(date_offset(d) as i32))
    }
}

/// A timestamp column: ISO-8601 text, or the signed 64-bit microsecond
/// offset from 2000-01-01T00:00:00.
pub open spec fn enc_timestamp(mode: FormatCode, t: Timestamp) -> Seq<u8> {
    if mode == FormatCode::Text {
        enc_value(timestamp_text(t))
    } else {
        enc_value(i64_be(timestamp_offset(t) as i64))
    }
}

/// One framed row message: tag `'D'`, signed 32-bit length equal to the
/// payload length plus 4, then the payload.
pub open spec fn row_frame(payload: Seq<u8>) -> Seq<u8> {
    seq![68u8] + i32_be((payload.len() + 4) as i32) + payload
}

/// The concatenation of the framed rows, in creation order.
pub open spec fn frames(payloads: Seq<Seq<u8>>) -> Seq<u8>
    decreases payloads.len(),
{
    if payloads.len() == 0 {
        Seq::empty()
    } else {
        frames(payloads.drop_last()) + row_frame(payloads.last())
    }
}

/// Supports batched rows for e.g. returning portal result sets.
pub struct DataRowBatch {
    row_desc: RowDescription,
    format_code: FormatCode,
    num_rows: usize,
    data: BytesMut,
    row: BytesMut,
    payloads: Ghost<Seq<Seq<u8>>>,
}

/// Leased from a [`DataRowBatch`] to encode a single row; owns the batch
/// until the row is finished, so no second row can be opened meanwhile.
pub struct DataRowWriter {
    current_col: usize,
    ncols: usize,
    batch: DataRowBatch,
}

impl DataRowBatch {
    /// The output buffer's bytes.
    pub closed spec fn out(self) -> Seq<u8> {
        buf_bytes(self.data)
    }

    /// The payloads of the rows written so far, in creation order.
    pub closed spec fn row_payloads(self) -> Seq<Seq<u8>> {
        self.payloads@
    }

    /// The number of rows created so far.
    pub closed spec fn rows(self) -> int {
        self.num_rows as int
    }

    /// The current descriptor's column count.
    pub closed spec fn cols(self) -> int {
        self.row_desc.fields@.len() as int
    }

    /// The batch's format mode.
    pub closed spec fn mode(self) -> FormatCode {
        self.format_code
    }

    /// The batch's current descriptor.
    pub closed spec fn desc(self) -> RowDescription {
        self.row_desc
    }

    /// Structural consistency: the format mode is the descriptor's, the
    /// column count fits the signed 16-bit preamble, the scratch buffer is
    /// empty (no row is being staged), and the output buffer holds exactly
    /// the framed rows written so far.
    pub closed spec fn wf(self) -> bool {
        &&& self.format_code == self.row_desc.format_code
        &&& self.row_desc.fields@.len() <= 32767
        &&& buf_bytes(self.row).len() == 0
        &&& buf_bytes(self.data) == frames(self.payloads@)
        &&& self.num_rows == self.payloads@.len()
    }

    /// Creates a new row batch using the given descriptor, with its format
    /// mode, zero rows and empty buffers.
    pub fn new(row_desc: RowDescription) -> (r: Self)
        requires
            row_desc.fields@.len() <= 32767,
        ensures
            r.wf(),
            r.out() == Seq::<u8>::empty(),
            r.row_payloads() == Seq::<Seq<u8>>::empty(),
            r.rows() == 0,
            r.mode() == row_desc.format_code,
            r.desc() == row_desc,
    {
        let format_code = row_desc.format_code;
        DataRowBatch {
            row_desc,
            format_code,
            num_rows: 0,
            data: buf_new(),
            row: buf_new(),
            payloads: Ghost(Seq::empty()),
        }
    }

    /// Starts writing a new row.
    ///
    /// Increments the row counter at once, stages the signed 16-bit
    /// big-endian column-count preamble, and hands the batch to the returned
    /// [`DataRowWriter`], which is responsible for the actual value encoding.
    pub fn create_row(self) -> (w: DataRowWriter)
        requires
            self.wf(),
            self.rows() < usize::MAX,
        ensures
            w.wf(),
            w.written() == 0,
            w.expected() == self.cols(),
            w.staged() == i16_be(self.cols() as i16),
            w.out() == self.out(),
            w.row_payloads() == self.row_payloads(),
            w.rows() == self.rows() + 1,
            w.mode() == self.mode(),
            w.desc() == self.desc(),
    {
        let mut b = self;
        b.num_rows = b.num_rows + 1;
        let ncols = b.num_cols();
        let pre = i16_be_vec(ncols as i16);
        buf_put_slice(&mut b.row, pre.as_slice());
        let w = DataRowWriter { current_col: 0, ncols, batch: b };
        proof {
            assert(w.staged() =~= i16_be(self.cols() as i16));
        }
        w
    }

    /// Returns the number of rows currently written to this batch.
    pub fn num_rows(&self) -> (r: usize)
        ensures
            r as int == self.rows(),
    {
        self.num_rows
    }

    /// Replaces the descriptor's column list; takes effect for rows created
    /// afterwards only.
    pub fn set_fields(&mut self, fields: Vec<FieldDescription>)
        requires
            old(self).wf(),
            fields@.len() <= 32767,
        ensures
            final(self).wf(),
            final(self).cols() == fields@.len(),
            final(self).desc().fields == fields,
            final(self).desc().format_code == old(self).desc().format_code,
            final(self).out() == old(self).out(),
            final(self).row_payloads() == old(self).row_payloads(),
            final(self).rows() == old(self).rows(),
            final(self).mode() == old(self).mode(),
    {
        self.row_desc.fields = fields
    }

    /// Returns the descriptor of this batch.
    pub fn row_desc(&self) -> (r: &RowDescription)
        ensures
            *r == self.desc(),
    {
        &self.row_desc
    }

    /// Returns the format mode of this batch.
    pub fn format_code(&self) -> (r: FormatCode)
        ensures
            r == self.mode(),
    {
        self.format_code
    }

    /// Copies the output buffer out: back-to-back framed row messages, ready
    /// for verbatim transmission.
    pub fn output(&self) -> (r: Vec<u8>)
        ensures
            r@ == self.out(),
    {
        buf_to_vec(&self.data)
    }

    fn num_cols(&self) -> (r: usize)
        ensures
            r as int == self.cols(),
    {
        self.row_desc.fields.len()
    }
}

/// The parts of a writer's state that value writes never touch.
pub open spec fn ctx_same(a: DataRowWriter, b: DataRowWriter) -> bool {
    &&& a.out() == b.out()
    &&& a.row_payloads() == b.row_payloads()
    &&& a.rows() == b.rows()
    &&& a.mode() == b.mode()
    &&& a.expected() == b.expected()
    &&& a.desc() == b.desc()
}

impl DataRowWriter {
    /// The number of column values written so far.
    pub closed spec fn written(self) -> int {
        self.current_col as int
    }

    /// The column count the descriptor declared when this row was opened.
    pub closed spec fn expected(self) -> int {
        self.ncols as int
    }

    /// The staged row: preamble plus the values written so far.
    pub closed spec fn staged(self) -> Seq<u8> {
        buf_bytes(self.batch.row)
    }

    /// The owned batch's output buffer (untouched while the row is staged).
    pub closed spec fn out(self) -> Seq<u8> {
        self.batch.out()
    }

    /// The owned batch's finished row payloads.
    pub closed spec fn row_payloads(self) -> Seq<Seq<u8>> {
        self.batch.row_payloads()
    }

    /// The owned batch's row count (this row already counted).
    pub closed spec fn rows(self) -> int {
        self.batch.rows()
    }

    /// The batch's format mode.
    pub closed spec fn mode(self) -> FormatCode {
        self.batch.mode()
    }

    /// The batch's current descriptor.
    pub closed spec fn desc(self) -> RowDescription {
        self.batch.desc()
    }

    /// Structural consistency while a row is staged: the batch's output
    /// still holds exactly the finished frames, this row is already counted,
    /// the staged bytes leave room for the 4-byte length of the frame, and
    /// the column counter never exceeds the staged byte count (each value
    /// stages at least one byte).
    pub closed spec fn wf(self) -> bool {
        &&& self.batch.format_code == self.batch.row_desc.format_code
        &&& self.batch.row_desc.fields@.len() <= 32767
        &&& buf_bytes(self.batch.data) == frames(self.batch.payloads@)
        &&& self.batch.num_rows == self.batch.payloads@.len() + 1
        &&& buf_bytes(self.batch.row).len() <= ROW_CAP
        &&& self.current_col <= buf_bytes(self.batch.row).len()
    }

    /// Writes a length-prefixed value for the next column: its signed 32-bit
    /// big-endian byte count, then its bytes.
    pub fn write_value(&mut self, data: &[u8])
        requires
            old(self).wf(),
            old(self).staged().len() + 4 + data@.len() <= ROW_CAP,
        ensures
            final(self).wf(),
            final(self).written() == old(self).written() + 1,
            final(self).staged() == old(self).staged() + enc_value(data@),
            ctx_same(*old(self), *final(self)),
    {
        self.current_col = self.current_col + 1;
        let len_bytes = i32_be_vec(data.len() as i32);
        buf_put_slice(&mut self.batch.row, len_bytes.as_slice());
        buf_put_slice(&mut self.batch.row, data);
        proof {
            assert(buf_bytes(self.batch.row) =~= old(self).staged() + enc_value(data@));
        }
    }

    /// Writes a null value for the next column: length `-1`, no payload.
    pub fn write_null(&mut self)
        requires
            old(self).wf(),
            old(self).staged().len() + 4 <= ROW_CAP,
        ensures
            final(self).wf(),
            final(self).written() == old(self).written() + 1,
            final(self).staged() == old(self).staged() + enc_null(),
            ctx_same(*old(self), *final(self)),
    {
        self.current_col = self.current_col + 1;
        let len_bytes = i32_be_vec(-1);
        buf_put_slice(&mut self.batch.row, len_bytes.as_slice());
    }

    /// Writes a string value for the next column: its UTF-8 bytes, length
    /// prefixed.
    pub fn write_string(&mut self, val: &str)
        requires
            old(self).wf(),
            old(self).staged().len() + 4 + val.spec_bytes().len() <= ROW_CAP,
        ensures
            final(self).wf(),
            final(self).written() == old(self).written() + 1,
            final(self).staged() == old(self).staged() + enc_value(val.spec_bytes()),
            ctx_same(*old(self), *final(self)),
    {
        self.write_value(val.as_bytes());
    }

    /// Writes a bool value for the next column. In Text mode, `t` or `f`,
    /// length prefixed; in Binary mode a single byte `1` or `0` written
    /// without the 4-byte length prefix.
    pub fn write_bool(&mut self, val: bool)
        requires
            old(self).wf(),
            old(self).staged().len() + 5 <= ROW_CAP,
        ensures
            final(self).wf(),
            final(self).written() == old(self).written() + 1,
            final(self).staged() == old(self).staged() + enc_bool(old(self).mode(), val),
            ctx_same(*old(self), *final(self)),
    {
        match self.batch.format_code {
            FormatCode::Text => {
                let mut v: Vec<u8> = Vec::new();
                v.push(if val {
                    116
                } else {
                    102
                });
                proof {
                    assert(v@ =~= seq![if val { 116u8 } else { 102u8 }]);
                }
                self.write_value(v.as_slice());
            },
            FormatCode::Binary => {
                self.current_col = self.current_col + 1;
                buf_put_u8(&mut self.batch.row, if val {
                    1
                } else {
                    0
                });
            },
        }
    }

    /// Writes one value with the encoding the format mode selects: the
    /// decimal text rendering in Text mode, the fixed-width bytes in Binary
    /// mode, either way length prefixed. All typed numeric writers reduce to
    /// this one routine.
    fn write_mode_value(&mut self, text: Vec<u8>, binary: Vec<u8>)
        requires
            old(self).wf(),
            old(self).staged().len() + 4 + text@.len() <= ROW_CAP,
            old(self).staged().len() + 4 + binary@.len() <= ROW_CAP,
        ensures
            final(self).wf(),
            final(self).written() == old(self).written() + 1,
            final(self).staged() == old(self).staged() + (if old(self).mode() == FormatCode::Text {
                enc_value(text@)
            } else {
                enc_value(binary@)
            }),
            ctx_same(*old(self), *final(self)),
    {
        match self.batch.format_code {
            FormatCode::Text => self.write_value(text.as_slice()),
            FormatCode::Binary => self.write_value(binary.as_slice()),
        }
    }

    /// Writes an int2 (signed 16-bit) value for the next column.
    pub fn write_int2(&mut self, val: i16)
        requires
            old(self).wf(),
            old(self).staged().len() + 24 <= ROW_CAP,
        ensures
            final(self).wf(),
            final(self).written() == old(self).written() + 1,
            final(self).staged() == old(self).staged() + enc_i16(old(self).mode(), val),
            ctx_same(*old(self), *final(self)),
    {
        proof {
            lemma_dec_int_i64_len(val as i64);
        }
        let text = i64_text(val as i64);
        let binary = i16_be_vec(val);
        self.write_mode_value(text, binary);
    }

    /// Writes an int4 (signed 32-bit) value for the next column.
    pub fn write_int4(&mut self, val: i32)
        requires
            old(self).wf(),
            old(self).staged().len() + 24 <= ROW_CAP,
        ensures
            final(self).wf(),
            final(self).written() == old(self).written() + 1,
            final(self).staged() == old(self).staged() + enc_i32(old(self).mode(), val),
            ctx_same(*old(self), *final(self)),
    {
        proof {
            lemma_dec_int_i64_len(val as i64);
        }
        let text = i64_text(val as i64);
        let binary = i32_be_vec(val);
        self.write_mode_value(text, binary);
    }

    /// Writes an int8 (signed 64-bit) value for the next column.
    pub fn write_int8(&mut self, val: i64)
        requires
            old(self).wf(),
            old(self).staged().len() + 24 <= ROW_CAP,
        ensures
            final(self).wf(),
            final(self).written() == old(self).written() + 1,
            final(self).staged() == old(self).staged() + enc_i64(old(self).mode(), val),
            ctx_same(*old(self), *final(self)),
    {
        proof {
            lemma_dec_int_i64_len(val);
        }
        let text = i64_text(val);
        let binary = i64_be_vec(val);
        self.write_mode_value(text, binary);
    }

    /// Writes a date value for the next column: ISO-8601 text, or the signed
    /// 32-bit day offset from 2000-01-01.
    pub fn write_date(&mut self, val: Date)
        requires
            old(self).wf(),
            val.valid(),
            old(self).staged().len() + 24 <= ROW_CAP,
        ensures
            final(self).wf(),
            final(self).written() == old(self).written() + 1,
            final(self).staged() == old(self).staged() + enc_date(old(self).mode(), val),
            ctx_same(*old(self), *final(self)),
    {
        match self.batch.format_code {
            FormatCode::Binary => {
                let off = epoch_days(&val);
                self.write_int4(off);
            },
            FormatCode::Text => {
                let text = date_text_bytes(&val);
                self.write_value(text.as_slice());
            },
        }
    }

    /// Writes a timestamp value for the next column: ISO-8601 text, or the
    /// signed 64-bit microsecond offset from 2000-01-01T00:00:00 (the offset
    /// of every valid timestamp fits that count).
    pub fn write_timestamp(&mut self, val: Timestamp)
        requires
            old(self).wf(),
            val.valid(),
            old(self).staged().len() + 30 <= ROW_CAP,
        ensures
            final(self).wf(),
            final(self).written() == old(self).written() + 1,
            final(self).staged() == old(self).staged() + enc_timestamp(old(self).mode(), val),
            ctx_same(*old(self), *final(self)),
    {
        match self.batch.format_code {
            FormatCode::Binary => {
                let micros = epoch_micros(&val);
                self.write_int8(micros);
            },
            FormatCode::Text => {
                let text = timestamp_text_bytes(&val);
                self.write_value(text.as_slice());
            },
        }
    }

    /// Returns the format mode of the owning batch.
    pub fn format_code(&self) -> (r: FormatCode)
        ensures
            r == self.mode(),
    {
        self.batch.format_code
    }

    /// Returns the number of bytes staged for this row so far.
    pub fn staged_len(&self) -> (r: usize)
        requires
            self.wf(),
        ensures
            r as int == self.staged().len(),
    {
        buf_len(&self.batch.row)
    }

    /// Finalizes the row. When exactly as many values were written as the
    /// descriptor declared at row creation, the staged row is appended to
    /// the batch's output as a framed message (tag `'D'`, signed 32-bit
    /// length equal to the payload length plus 4, then the payload), the
    /// scratch buffer is cleared, and the batch is handed back. Otherwise
    /// the whole encode is aborted: the error is returned and no row is
    /// emitted.
    pub fn finish(self) -> (res: Result<DataRowBatch, EncodeError>)
        requires
            self.wf(),
        ensures
            res is Ok <==> self.written() == self.expected(),
            res is Ok ==> (res->Ok_0).wf(),
            res is Ok ==> (res->Ok_0).out() == self.out() + row_frame(self.staged()),
            res is Ok ==> (res->Ok_0).row_payloads() == self.row_payloads().push(self.staged()),
            res is Ok ==> (res->Ok_0).rows() == self.rows(),
            res is Ok ==> (res->Ok_0).mode() == self.mode(),
            res is Ok ==> (res->Ok_0).desc() == self.desc(),
            res is Err ==> res->Err_0 == EncodeError::ColumnCountMismatch,
    {
        if self.current_col != self.ncols {
            return Err(EncodeError::ColumnCountMismatch);
        }
        let mut b = self.batch;
        let ghost payload = buf_bytes(b.row);
        buf_put_u8(&mut b.data, 68);
        let row_len = buf_len(&b.row);
        let len_bytes = i32_be_vec((row_len + 4) as i32);
        buf_put_slice(&mut b.data, len_bytes.as_slice());
        buf_append_split(&mut b.data, &mut b.row);
        b.payloads = Ghost(b.payloads@.push(payload));
        proof {
            assert(b.payloads@.drop_last() =~= self.batch.payloads@);
            assert(buf_bytes(b.data) =~= frames(self.batch.payloads@) + row_frame(payload));
            assert(buf_bytes(b.data) == frames(b.payloads@));
        }
        Ok(b)
    }
}

/// A null column is, in every format mode, exactly the four bytes of the
/// big-endian signed 32-bit length `-1`, with no payload bytes after them.
pub proof fn lemma_null_encoding()
    ensures
        enc_null() =~= seq![255u8, 255u8, 255u8, 255u8],
        enc_null().len() == 4,
{
    reveal_with_fuel(crate::encoding::be_seq, 5);
}

/// A Binary-mode boolean is exactly one byte, `1` or `0`, never length
/// prefixed; a Text-mode boolean is the 4-byte length `1` followed by `t` or
/// `f`.
pub proof fn lemma_bool_encoding(v: bool)
    ensures
        enc_bool(FormatCode::Binary, v) =~= seq![if v { 1u8 } else { 0u8 }],
        enc_bool(FormatCode::Binary, v).len() == 1,
        enc_bool(FormatCode::Text, v) =~= seq![0u8, 0u8, 0u8, 1u8, if v { 116u8 } else { 102u8 }],
{
    reveal_with_fuel(crate::encoding::be_seq, 5);
}

/// The length of one framed row message: 5 bytes of framing (tag and length
/// field) plus the payload.
pub open spec fn framed_len(payloads: Seq<Seq<u8>>) -> int
    decreases payloads.len(),
{
    if payloads.len() == 0 {
        0
    } else {
        framed_len(payloads.drop_last()) + 5 + payloads.last().len()
    }
}

proof fn lemma_frames_len(payloads: Seq<Seq<u8>>)
    ensures
        frames(payloads).len() == framed_len(payloads),
    decreases payloads.len(),
{
    if payloads.len() > 0 {
        lemma_frames_len(payloads.drop_last());
        crate::encoding::lemma_be_seq_len(
            crate::encoding::u32_of_i32((payloads.last().len() + 4) as i32) as nat,
            4,
        );
    }
}

/// The output buffer of a consistent batch is exactly the concatenation of
/// its rows' framed messages, and its length is the sum over the rows of
/// `5 + payload length`.
pub proof fn lemma_output_is_framing(b: DataRowBatch)
    requires
        b.wf(),
    ensures
        b.out() == frames(b.row_payloads()),
        b.out().len() == framed_len(b.row_payloads()),
{
    lemma_frames_len(b.row_payloads());
}

} // verus!
