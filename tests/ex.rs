use xiv::error::XivError;
use xiv::ex::{
    exh_path, page_paths, pick_locale, read_cell, ExColumn, ExPage, ExVariant, ExdHeader,
    ExdPageReader, ExdRowReader, Exh, Locale, RowSpot, Value, ValueType,
};

fn be16(out: &mut Vec<u8>, v: u16) {
    out.extend_from_slice(&v.to_be_bytes());
}

fn be32(out: &mut Vec<u8>, v: u32) {
    out.extend_from_slice(&v.to_be_bytes());
}

/// Schema bytes: `columns` as (tag, offset), `pages` as (start id, rows), `languages` as codes.
fn exh_bytes(stride: u16, variant: u8, columns: &[(u16, u16)], pages: &[(u32, u32)], languages: &[u16]) -> Vec<u8> {
    let mut f = b"EXHF".to_vec();
    be16(&mut f, 3);
    be16(&mut f, stride);
    be16(&mut f, columns.len() as u16);
    be16(&mut f, pages.len() as u16);
    be16(&mut f, languages.len() as u16);
    be16(&mut f, 0);
    f.push(0);
    f.push(variant);
    be16(&mut f, 0);
    be32(&mut f, pages.iter().map(|p| p.1).sum());
    be32(&mut f, 0);
    be32(&mut f, 0);
    for (tag, offset) in columns {
        be16(&mut f, *tag);
        be16(&mut f, *offset);
    }
    for (start, rows) in pages {
        be32(&mut f, *start);
        be32(&mut f, *rows);
    }
    for l in languages {
        f.extend_from_slice(&l.to_le_bytes());
    }
    f
}

/// Page bytes: each row is (id, sub-row count, body after the 6-byte row header).
fn exd_bytes(rows: &[(u32, u16, Vec<u8>)]) -> Vec<u8> {
    let mut f = b"EXDF".to_vec();
    be16(&mut f, 2);
    be16(&mut f, 0);
    be32(&mut f, 8 * rows.len() as u32);
    f.extend_from_slice(&[0u8; 20]);
    let mut at = 32 + 8 * rows.len() as u32;
    for (id, _, body) in rows {
        be32(&mut f, *id);
        be32(&mut f, at);
        at += 6 + body.len() as u32;
    }
    for (_, count, body) in rows {
        be32(&mut f, body.len() as u32);
        be16(&mut f, *count);
        f.extend_from_slice(body);
    }
    f
}

const RACE_COLUMNS: [(u16, u16); 6] = [(0x0, 0), (0x0, 4), (0x3, 8), (0x4, 10), (0x1b, 12), (0x9, 16)];

fn race_row(masculine: &str, feminine: &str, n: u8, m: i16, flags: u8) -> Vec<u8> {
    let mut cells = Vec::new();
    be32(&mut cells, 0);
    be32(&mut cells, masculine.len() as u32 + 1);
    cells.push(n);
    cells.push(0);
    cells.extend_from_slice(&m.to_be_bytes());
    cells.push(flags);
    cells.extend_from_slice(&[0u8; 3]);
    be32(&mut cells, 0x3f80_0000);
    cells.extend_from_slice(masculine.as_bytes());
    cells.push(0);
    cells.extend_from_slice(feminine.as_bytes());
    cells.push(0);
    cells
}

fn read_all(exh: &Exh, data: Vec<u8>) -> Vec<Result<Vec<Value>, XivError>> {
    let mut page = ExdPageReader::new(exh, data);
    let mut rows = Vec::new();
    while let Some(next) = page.next_row() {
        match next {
            Err(e) => rows.push(Err(e)),
            Ok(spot) => {
                let mut r = ExdRowReader::new(exh, page.exd_data(), spot.id, spot.subid, spot.offset);
                let mut values = Vec::new();
                while r.has_next() {
                    values.push(r.next_value().unwrap());
                }
                rows.push(Ok(values));
            }
        }
    }
    rows
}

#[test]
fn schema_parses() {
    let exh = Exh::from_bytes(&exh_bytes(20, 1, &RACE_COLUMNS, &[(0, 2), (100, 5)], &[1, 2])).unwrap();
    assert_eq!(exh.data_offset, 20);
    assert_eq!(exh.variant, ExVariant::Normal);
    assert_eq!(exh.row_count, 7);
    assert_eq!(exh.columns.len(), 6);
    assert_eq!(exh.columns[4], ExColumn { vtype: ValueType::PackedBool2, offset: 12 });
    assert_eq!(exh.pages, vec![ExPage { start_id: 0, row_count: 2 }, ExPage { start_id: 100, row_count: 5 }]);
    assert_eq!(exh.languages, vec![Locale::Japanese, Locale::English]);
}

#[test]
fn malformed_schemas_are_rejected() {
    let good = exh_bytes(20, 1, &RACE_COLUMNS, &[(0, 2)], &[2]);
    let mut bad = good.clone();
    bad[0] = b'X';
    assert_eq!(Exh::from_bytes(&bad).err(), Some(XivError::Exh));
    assert_eq!(Exh::from_bytes(&good[..good.len() - 1]).err(), Some(XivError::Exh));
    assert_eq!(Exh::from_bytes(&exh_bytes(20, 3, &RACE_COLUMNS, &[], &[])).err(), Some(XivError::Exh));
    assert_eq!(Exh::from_bytes(&exh_bytes(4, 1, &[(0x8, 0)], &[], &[])).err(), Some(XivError::Exh));
    assert_eq!(Exh::from_bytes(&exh_bytes(4, 1, &[], &[], &[9])).err(), Some(XivError::Exh));
}

#[test]
fn normal_rows_bind_in_column_order() {
    let exh = Exh::from_bytes(&exh_bytes(20, 1, &RACE_COLUMNS, &[(0, 2)], &[2])).unwrap();
    let data = exd_bytes(&[
        (1, 1, race_row("Hyur", "Hyur", 1, -2, 0b100)),
        (4, 0, race_row("Miqo'te", "Miqo'te", 4, 300, 0b011)),
    ]);
    let rows = read_all(&exh, data);
    assert_eq!(rows.len(), 2);
    let first = rows[0].as_ref().unwrap();
    assert_eq!(
        first,
        &vec![
            Value::UInt32(1),
            Value::String("Hyur".to_string()),
            Value::String("Hyur".to_string()),
            Value::UInt8(1),
            Value::Int16(-2),
            Value::Bool(true),
            Value::Float(0x3f80_0000),
        ]
    );
    let second = rows[1].as_ref().unwrap();
    assert_eq!(second[0], Value::UInt32(4));
    assert_eq!(second[2], Value::String("Miqo'te".to_string()));
    assert_eq!(second[5], Value::Bool(false));
}

#[test]
fn sub_rows_carry_their_sub_ids() {
    let exh = Exh::from_bytes(&exh_bytes(4, 2, &[(0x7, 0)], &[(0, 2)], &[])).unwrap();
    let mut two = Vec::new();
    be16(&mut two, 0);
    be32(&mut two, 10);
    be16(&mut two, 1);
    be32(&mut two, 11);
    let mut one = Vec::new();
    be16(&mut one, 5);
    be32(&mut one, 20);
    let data = exd_bytes(&[(7, 2, two), (8, 0, Vec::new()), (9, 1, one)]);
    let rows: Vec<Vec<Value>> = read_all(&exh, data).into_iter().map(Result::unwrap).collect();
    assert_eq!(
        rows,
        vec![
            vec![Value::UInt32(7), Value::UInt16(0), Value::UInt32(10)],
            vec![Value::UInt32(7), Value::UInt16(1), Value::UInt32(11)],
            vec![Value::UInt32(9), Value::UInt16(5), Value::UInt32(20)],
        ]
    );
}

#[test]
fn page_reader_reports_then_stops() {
    let exh = Exh::from_bytes(&exh_bytes(4, 1, &[(0x7, 0)], &[(0, 1)], &[])).unwrap();
    let mut page = ExdPageReader::new(&exh, b"EXDX".repeat(10));
    assert_eq!(page.next_row(), Some(Err(XivError::ExdFileHeader)));
    assert_eq!(page.next_row(), None);

    let mut data = exd_bytes(&[(3, 1, vec![0, 0, 0, 9])]);
    data.truncate(32 + 8 + 4);
    let mut page = ExdPageReader::new(&exh, data);
    assert_eq!(page.next_row(), Some(Err(XivError::ExdRowHeader)));
    assert_eq!(page.next_row(), None);

    let sub = Exh::from_bytes(&exh_bytes(4, 2, &[(0x7, 0)], &[(0, 1)], &[])).unwrap();
    let mut page = ExdPageReader::new(&sub, exd_bytes(&[(3, 1, vec![0])]));
    assert_eq!(page.next_row(), Some(Err(XivError::ExdSubRowHeader)));
    assert_eq!(page.next_row(), None);

    let mut page = ExdPageReader::new(&exh, exd_bytes(&[(3, 1, vec![0, 0, 0, 9])]));
    assert_eq!(page.next_row(), Some(Ok(RowSpot { id: 3, subid: None, offset: 32 + 8 + 6 })));
    assert_eq!(page.next_row(), None);
    assert_eq!(page.next_row(), None);
}

#[test]
fn row_reader_runs_out_of_columns() {
    let exh = Exh::from_bytes(&exh_bytes(4, 1, &[(0x2, 0)], &[(0, 1)], &[])).unwrap();
    let data = [0xfeu8, 0, 0, 0];
    let mut r = ExdRowReader::new(&exh, &data, 5, None, 0);
    assert_eq!(r.next_value(), Ok(Value::UInt32(5)));
    assert_eq!(r.next_value(), Ok(Value::Int8(-2)));
    assert!(!r.has_next());
    assert!(matches!(r.next_value(), Err(XivError::ExdDeserialization(_))));
}

#[test]
fn cells_decode_by_type() {
    let data = [0x80u8, 0, 0, 0, 0, 0, 0, 1, 0xa5];
    let col = |vtype, offset| ExColumn { vtype, offset };
    assert_eq!(read_cell(&data, 0, 0, col(ValueType::Int64, 0)), Ok(Value::Int64(i64::MIN + 1)));
    assert_eq!(read_cell(&data, 0, 0, col(ValueType::UInt64, 0)), Ok(Value::UInt64(0x8000_0000_0000_0001)));
    assert_eq!(read_cell(&data, 0, 0, col(ValueType::Int32, 0)), Ok(Value::Int32(i32::MIN)));
    assert_eq!(read_cell(&data, 0, 0, col(ValueType::UInt16, 6)), Ok(Value::UInt16(1)));
    assert_eq!(read_cell(&data, 8, 0, col(ValueType::Bool, 0)), Ok(Value::Bool(true)));
    assert_eq!(read_cell(&data, 8, 0, col(ValueType::PackedBool0, 0)), Ok(Value::Bool(true)));
    assert_eq!(read_cell(&data, 8, 0, col(ValueType::PackedBool1, 0)), Ok(Value::Bool(false)));
    assert_eq!(read_cell(&data, 8, 0, col(ValueType::PackedBool5, 0)), Ok(Value::Bool(true)));
    assert_eq!(read_cell(&data, 8, 0, col(ValueType::PackedBool7, 0)), Ok(Value::Bool(true)));
    assert!(matches!(read_cell(&data, 8, 0, col(ValueType::UInt16, 0)), Err(XivError::ExdDeserialization(_))));
    let unterminated = [0u8, 0, 0, 0, b'a'];
    assert!(matches!(read_cell(&unterminated, 0, 4, col(ValueType::String, 0)), Err(XivError::ExdDeserialization(_))));
    let bad_utf8 = [0u8, 0, 0, 0, 0xff, b'a', 0];
    assert_eq!(read_cell(&bad_utf8, 0, 4, col(ValueType::String, 0)), Ok(Value::String("\u{fffd}a".to_string())));
}

#[test]
fn locale_falls_back_to_first_listed() {
    assert_eq!(pick_locale(&vec![Locale::Japanese, Locale::English], Locale::English), Locale::English);
    assert_eq!(pick_locale(&vec![Locale::Japanese, Locale::German], Locale::English), Locale::Japanese);
    assert_eq!(pick_locale(&vec![], Locale::English), Locale::Neutral);
}

#[test]
fn sheet_paths_are_lower_case() {
    assert_eq!(exh_path("Race"), "exd/race.exh");
    let exh = Exh::from_bytes(&exh_bytes(4, 1, &[(0x7, 0)], &[(0, 10), (500, 3)], &[1, 2])).unwrap();
    assert_eq!(page_paths(&exh, "ModelChara", Locale::English), vec!["exd/modelchara_0_en.exd", "exd/modelchara_500_en.exd"]);
    assert_eq!(page_paths(&exh, "Race", Locale::Korean), vec!["exd/race_0_ja.exd", "exd/race_500_ja.exd"]);
    let neutral = Exh::from_bytes(&exh_bytes(4, 1, &[(0x7, 0)], &[(0, 1)], &[])).unwrap();
    assert_eq!(page_paths(&neutral, "Action", Locale::English), vec!["exd/action_0.exd"]);
}

#[test]
fn names_of_types_and_locales() {
    assert_eq!(ValueType::PackedBool3.type_tag(), "bool");
    assert_eq!(ValueType::Float32.type_tag(), "f32");
    assert_eq!(Value::Int64(1).type_tag(), "i64");
    assert_eq!(Value::String(String::new()).type_tag(), "str");
    assert_eq!(Locale::ChineseTraditional.suffix(), "_cht");
    assert_eq!(Locale::Neutral.suffix(), "");
}

#[test]
fn exd_header_lists_row_pointers() {
    let data = exd_bytes(&[(1, 1, vec![]), (2, 1, vec![])]);
    let h = ExdHeader::from_bytes(&data).unwrap();
    assert_eq!(h.rows.len(), 2);
    assert_eq!(h.rows[1].id, 2);
    assert_eq!(h.rows[1].offset, 32 + 16 + 6);
    assert!(ExdHeader::from_bytes(&data[..40]).is_err());
}

#[test]
fn size_hint_counts_remaining_rows() {
    let exh = Exh::from_bytes(&exh_bytes(4, 1, &[(0x7, 0)], &[(0, 2)], &[])).unwrap();
    let mut page = ExdPageReader::new(&exh, exd_bytes(&[(1, 1, vec![0; 4]), (2, 1, vec![0; 4])]));
    assert_eq!(page.size_hint(), (2, Some(2)));
    page.next_row();
    page.next_row();
    page.next_row();
    assert_eq!(page.size_hint(), (0, Some(0)));
    let sub = Exh::from_bytes(&exh_bytes(4, 2, &[(0x7, 0)], &[(0, 3)], &[])).unwrap();
    let page = ExdPageReader::new(&sub, Vec::new());
    assert_eq!(page.size_hint(), (3, Some(3 * 65535)));
}
