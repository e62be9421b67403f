use pg_wire::batch::{DataRowBatch, EncodeError, FieldDescription, FormatCode, RowDescription};
use pg_wire::calendar::{Date, Timestamp};

fn desc(n: usize, format_code: FormatCode) -> RowDescription {
    let mut fields = Vec::new();
    for i in 0..n {
        fields.push(FieldDescription {
            name: format!("c{}", i),
            data_type: 25,
        });
    }
    RowDescription { fields, format_code }
}

fn fields(n: usize) -> Vec<FieldDescription> {
    desc(n, FormatCode::Text).fields
}

/// Splits an output buffer into its framed row messages and checks the
/// framing as it goes: tag `'D'`, big-endian i32 length = payload + 4.
fn split_frames(out: &[u8]) -> Vec<Vec<u8>> {
    let mut rows = Vec::new();
    let mut i = 0;
    while i < out.len() {
        assert_eq!(out[i], b'D');
        let len = i32::from_be_bytes([out[i + 1], out[i + 2], out[i + 3], out[i + 4]]) as usize;
        let payload = out[i + 5..i + 1 + len].to_vec();
        assert_eq!(len, payload.len() + 4);
        rows.push(payload);
        i += 1 + len;
    }
    rows
}

#[test]
fn null_row_framing_text_and_binary() {
    for mode in [FormatCode::Text, FormatCode::Binary] {
        let batch = DataRowBatch::new(desc(1, mode));
        let mut row = batch.create_row();
        row.write_null();
        let batch = row.finish().unwrap();
        assert_eq!(
            batch.output(),
            vec![b'D', 0, 0, 0, 10, 0, 1, 0xFF, 0xFF, 0xFF, 0xFF]
        );
        assert_eq!(batch.num_rows(), 1);
    }
}

#[test]
fn bool_binary_single_byte() {
    let batch = DataRowBatch::new(desc(2, FormatCode::Binary));
    let mut row = batch.create_row();
    row.write_bool(true);
    row.write_bool(false);
    let batch = row.finish().unwrap();
    let rows = split_frames(&batch.output());
    assert_eq!(rows, vec![vec![0, 2, 1, 0]]);
}

#[test]
fn bool_text_prefixed() {
    let batch = DataRowBatch::new(desc(2, FormatCode::Text));
    let mut row = batch.create_row();
    row.write_bool(true);
    row.write_bool(false);
    let batch = row.finish().unwrap();
    let rows = split_frames(&batch.output());
    assert_eq!(rows, vec![vec![0, 2, 0, 0, 0, 1, b't', 0, 0, 0, 1, b'f']]);
}

#[test]
fn int_binary_fixed_width() {
    let batch = DataRowBatch::new(desc(3, FormatCode::Binary));
    let mut row = batch.create_row();
    row.write_int2(0x1234);
    row.write_int4(-2);
    row.write_int8(1_000_000);
    let batch = row.finish().unwrap();
    let rows = split_frames(&batch.output());
    assert_eq!(
        rows,
        vec![vec![
            0, 3, //
            0, 0, 0, 2, 0x12, 0x34, //
            0, 0, 0, 4, 0xFF, 0xFF, 0xFF, 0xFE, //
            0, 0, 0, 8, 0, 0, 0, 0, 0, 0x0F, 0x42, 0x40,
        ]]
    );
}

#[test]
fn int_text_decimal() {
    let batch = DataRowBatch::new(desc(3, FormatCode::Text));
    let mut row = batch.create_row();
    row.write_int2(-32768);
    row.write_int4(-42);
    row.write_int8(7);
    let batch = row.finish().unwrap();
    let rows = split_frames(&batch.output());
    let mut expected = vec![0, 3, 0, 0, 0, 6];
    expected.extend_from_slice(b"-32768");
    expected.extend_from_slice(&[0, 0, 0, 3, b'-', b'4', b'2', 0, 0, 0, 1, b'7']);
    assert_eq!(rows, vec![expected]);
}

#[test]
fn string_utf8_prefixed() {
    let batch = DataRowBatch::new(desc(1, FormatCode::Text));
    let mut row = batch.create_row();
    row.write_string("hello");
    let batch = row.finish().unwrap();
    let rows = split_frames(&batch.output());
    assert_eq!(
        rows,
        vec![vec![0, 1, 0, 0, 0, 5, b'h', b'e', b'l', b'l', b'o']]
    );
}

#[test]
fn date_binary_day_offset() {
    let batch = DataRowBatch::new(desc(2, FormatCode::Binary));
    let mut row = batch.create_row();
    row.write_date(Date::new(2000, 1, 2).unwrap());
    row.write_date(Date::new(1999, 12, 31).unwrap());
    let batch = row.finish().unwrap();
    let rows = split_frames(&batch.output());
    assert_eq!(
        rows,
        vec![vec![
            0, 2, //
            0, 0, 0, 4, 0, 0, 0, 1, //
            0, 0, 0, 4, 0xFF, 0xFF, 0xFF, 0xFF,
        ]]
    );
}

#[test]
fn date_text_iso_in_row() {
    let batch = DataRowBatch::new(desc(1, FormatCode::Text));
    let mut row = batch.create_row();
    row.write_date(Date::new(2024, 3, 9).unwrap());
    let batch = row.finish().unwrap();
    let rows = split_frames(&batch.output());
    let mut expected = vec![0, 1, 0, 0, 0, 10];
    expected.extend_from_slice(b"2024-03-09");
    assert_eq!(rows, vec![expected]);
}

#[test]
fn timestamp_binary_micro_offset() {
    let date = Date::new(2000, 1, 1).unwrap();
    let ts = Timestamp::new(date, 0, 0, 1, 0).unwrap();
    let batch = DataRowBatch::new(desc(1, FormatCode::Binary));
    let mut row = batch.create_row();
    row.write_timestamp(ts);
    let batch = row.finish().unwrap();
    let rows = split_frames(&batch.output());
    assert_eq!(
        rows,
        vec![vec![0, 1, 0, 0, 0, 8, 0, 0, 0, 0, 0, 0x0F, 0x42, 0x40]]
    );
}

#[test]
fn float_bytes_round_trip_through_row() {
    let batch = DataRowBatch::new(desc(2, FormatCode::Binary));
    let mut row = batch.create_row();
    row.write_value(&1.5f32.to_be_bytes());
    row.write_value(&(-2.25f64).to_be_bytes());
    let batch = row.finish().unwrap();
    let rows = split_frames(&batch.output());
    let payload = &rows[0];
    assert_eq!(&payload[..2], &[0, 2]);
    assert_eq!(&payload[2..6], &[0, 0, 0, 4]);
    let f4 = f32::from_be_bytes([payload[6], payload[7], payload[8], payload[9]]);
    assert_eq!(f4, 1.5f32);
    assert_eq!(&payload[10..14], &[0, 0, 0, 8]);
    let mut b8 = [0u8; 8];
    b8.copy_from_slice(&payload[14..22]);
    let f8 = f64::from_be_bytes(b8);
    assert_eq!(f8, -2.25f64);
}

#[test]
fn finish_rejects_missing_columns() {
    let batch = DataRowBatch::new(desc(2, FormatCode::Text));
    let mut row = batch.create_row();
    row.write_null();
    let res = row.finish();
    assert!(matches!(res, Err(EncodeError::ColumnCountMismatch)));
}

#[test]
fn finish_rejects_extra_columns() {
    let batch = DataRowBatch::new(desc(1, FormatCode::Text));
    let mut row = batch.create_row();
    row.write_null();
    row.write_null();
    let res = row.finish();
    assert!(matches!(res, Err(EncodeError::ColumnCountMismatch)));
}

#[test]
fn set_fields_affects_later_rows_only() {
    let batch = DataRowBatch::new(desc(2, FormatCode::Text));
    let mut row = batch.create_row();
    row.write_string("a");
    row.write_string("b");
    let mut batch = row.finish().unwrap();
    batch.set_fields(fields(3));
    assert_eq!(batch.row_desc().fields.len(), 3);
    let mut row = batch.create_row();
    row.write_string("c");
    row.write_string("d");
    row.write_string("e");
    let batch = row.finish().unwrap();
    assert_eq!(batch.num_rows(), 2);
    let rows = split_frames(&batch.output());
    assert_eq!(rows.len(), 2);
    assert_eq!(&rows[0][..2], &[0, 2]);
    assert_eq!(&rows[1][..2], &[0, 3]);
}

#[test]
fn output_length_is_sum_of_framing() {
    let batch = DataRowBatch::new(desc(1, FormatCode::Binary));
    let mut row = batch.create_row();
    row.write_int8(99);
    let batch = row.finish().unwrap();
    let mut row = batch.create_row();
    row.write_null();
    let batch = row.finish().unwrap();
    let mut row = batch.create_row();
    row.write_bool(true);
    let batch = row.finish().unwrap();
    let rows = split_frames(&batch.output());
    let expected: usize = rows.iter().map(|p| 5 + p.len()).sum();
    assert_eq!(batch.output().len(), expected);
    // payloads: preamble 2 + (4 + 8), 2 + 4, 2 + 1
    assert_eq!(batch.output().len(), (5 + 14) + (5 + 6) + (5 + 3));
}

#[test]
fn accessors_report_batch_state() {
    let batch = DataRowBatch::new(desc(4, FormatCode::Binary));
    assert_eq!(batch.num_rows(), 0);
    assert!(batch.output().is_empty());
    assert!(matches!(batch.format_code(), FormatCode::Binary));
    assert_eq!(batch.row_desc().fields.len(), 4);
    assert!(matches!(batch.row_desc().format_code, FormatCode::Binary));
}
