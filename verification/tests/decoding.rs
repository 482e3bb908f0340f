use dbf::{DbfError, DbfType, File, FileType, Header};

/// A 32-byte header with the given format byte, record count, header length
/// and record length, a fixed update date, and zero flags.
fn header_bytes(format: u8, num_records: u32, header_len: u16, record_len: u16) -> Vec<u8> {
    let mut b = vec![0u8; 32];
    b[0] = format;
    b[1] = 0x7A;
    b[2] = 0x01;
    b[3] = 0x01;
    b[4..8].copy_from_slice(&num_records.to_le_bytes());
    b[8..10].copy_from_slice(&header_len.to_le_bytes());
    b[10..12].copy_from_slice(&record_len.to_le_bytes());
    b
}

/// A 32-byte field descriptor with the given name, type tag and length.
fn descriptor(name: &str, typ: u8, len: u8) -> Vec<u8> {
    let mut d = vec![0u8; 32];
    d[..name.len()].copy_from_slice(name.as_bytes());
    d[11] = typ;
    d[16] = len;
    d
}

/// The header, one descriptor, the sentinel, then the given record bytes.
fn one_field_file(typ: u8, len: u8, records: &[u8]) -> Vec<u8> {
    let mut b = header_bytes(0x03, 0, 65, 1 + len as u16);
    b.extend_from_slice(&descriptor("F", typ, len));
    b.push(0x0D);
    b.extend_from_slice(records);
    b
}

fn character_text(v: &DbfType) -> &str {
    match v {
        DbfType::Character(s) => s,
        _ => panic!("expected a character value"),
    }
}

#[test]
fn header_decodes_every_field() {
    let b = header_bytes(0x03, 2, 65, 32);
    let h = Header::read(&b).unwrap();
    assert_eq!(h.file_type, FileType::DBase3Plus);
    assert!(!h.has_memo);
    assert_eq!(h.last_update.year, 0x7A);
    assert_eq!(h.last_update.month, 1);
    assert_eq!(h.last_update.day, 1);
    assert_eq!(h.num_records, 2);
    assert_eq!(h.header_bytes, 65);
    assert_eq!(h.record_bytes, 32);
    assert_eq!(h.incomplete_tx, 0);
    assert_eq!(h.encryption_flag, 0);
    assert_eq!(h.mdx_flag, 0);
    assert_eq!(h.language_driver_id, 0);
}

#[test]
fn header_little_endian_integers() {
    let mut b = header_bytes(0x03, 0, 0, 0);
    b[4] = 0x04;
    b[5] = 0x03;
    b[6] = 0x02;
    b[7] = 0x01;
    b[8] = 0x21;
    b[9] = 0x43;
    b[10] = 0x78;
    b[11] = 0x56;
    let h = Header::read(&b).unwrap();
    assert_eq!(h.num_records, 0x01020304);
    assert_eq!(h.header_bytes, 0x4321);
    assert_eq!(h.record_bytes, 0x5678);
}

#[test]
fn header_memo_bit_sets_flag() {
    let mut b = header_bytes(0x83, 1, 65, 21);
    b[14] = 7;
    b[15] = 9;
    b[28] = 3;
    b[29] = 0x57;
    let h = Header::read(&b).unwrap();
    // The format-type tag lives in the low three bits alone, so 0x83 still
    // selects the plain dBASE III+ tag; bit 7 is the memo flag.
    assert_eq!(h.file_type, FileType::DBase3Plus);
    assert!(h.has_memo);
    assert_eq!(h.incomplete_tx, 7);
    assert_eq!(h.encryption_flag, 9);
    assert_eq!(h.mdx_flag, 3);
    assert_eq!(h.language_driver_id, 0x57);
}

#[test]
fn header_round_trip_keeps_every_value() {
    let mut b = header_bytes(0x83, 0x01020304, 65, 32);
    b[14] = 1;
    b[15] = 2;
    b[28] = 4;
    b[29] = 0x1B;
    let h = Header::read(&b).unwrap();
    let encoded = h.encode();
    assert_eq!(encoded.len(), 32);
    let h2 = Header::read(&encoded).unwrap();
    assert_eq!(h2, h);
}

#[test]
fn header_unknown_format_tag_fails() {
    for tag in [0x00u8, 0x01, 0x04, 0x05, 0x06, 0x07] {
        let b = header_bytes(tag, 0, 0, 0);
        assert_eq!(Header::read(&b), Err(DbfError::Format(tag)));
    }
    // A full format byte is reduced to its low three bits first: 0x30 keeps
    // tag 0, which is outside the known enumeration.
    let b = header_bytes(0x30, 0, 0, 0);
    assert_eq!(Header::read(&b), Err(DbfError::Format(0)));
}

#[test]
fn header_recognized_but_unsupported_tag_fails() {
    let b = header_bytes(0x02, 0, 0, 0);
    assert_eq!(Header::read(&b), Err(DbfError::UnsupportedFormat(0x02)));
}

#[test]
fn header_shorter_than_32_bytes_fails() {
    assert_eq!(Header::read(&[0x03u8; 10]), Err(DbfError::Stream));
    assert_eq!(Header::read(&[]), Err(DbfError::Stream));
}

#[test]
fn from_u8_knows_every_tag() {
    assert_eq!(FileType::from_u8(0x02), Some(FileType::FoxBase));
    assert_eq!(FileType::from_u8(0x03), Some(FileType::DBase3Plus));
    assert_eq!(FileType::from_u8(0x30), Some(FileType::VisualFoxPro));
    assert_eq!(FileType::from_u8(0x31), Some(FileType::VisualFoxProAutoIncrement));
    assert_eq!(FileType::from_u8(0x32), Some(FileType::VisualFoxProVar));
    assert_eq!(FileType::from_u8(0x43), Some(FileType::DBase4SQLTable));
    assert_eq!(FileType::from_u8(0x63), Some(FileType::DBase4SQLSystem));
    assert_eq!(FileType::from_u8(0x83), Some(FileType::DBase3PlusWithMemo));
    assert_eq!(FileType::from_u8(0x8B), Some(FileType::DBase4WithMemo));
    assert_eq!(FileType::from_u8(0xCB), Some(FileType::DBase4SQLTableWithMemo));
    assert_eq!(FileType::from_u8(0xF5), Some(FileType::FoxBaseWithMemo));
    assert_eq!(FileType::from_u8(0xE5), Some(FileType::HiPerSix));
    assert_eq!(FileType::from_u8(0xFB), Some(FileType::FoxBase2));
    assert_eq!(FileType::from_u8(0x00), None);
    assert_eq!(FileType::from_u8(0x04), None);
    assert_eq!(FileType::from_u8(0xFF), None);
}

#[test]
fn open_decodes_header_fields_and_two_records() {
    let mut b = header_bytes(0x03, 2, 65, 32);
    b.extend_from_slice(&descriptor("NAME", b'C', 20));
    b.push(0x0D);
    b.push(0x20);
    b.extend_from_slice(b"John                ");
    b.push(0x20);
    b.extend_from_slice(b"Jane                ");
    let mut f = File::open(b).unwrap();
    assert_eq!(f.header.num_records, 2);
    assert_eq!(f.num_records(), 2);
    assert_eq!(f.fields.len(), 1);
    assert_eq!(f.fields[0].name, "NAME");
    assert_eq!(f.fields[0].typ, 'C');
    assert_eq!(f.fields[0].len, 20);
    let r1 = f.next_record().unwrap().unwrap();
    assert!(!r1.deleted);
    assert_eq!(r1.data.len(), 1);
    assert_eq!(character_text(&r1.data[0]), "John                ");
    let r2 = f.next_record().unwrap().unwrap();
    assert!(!r2.deleted);
    assert_eq!(character_text(&r2.data[0]), "Jane                ");
    assert!(f.next_record().is_none());
    assert!(f.next_record().is_none());
}

#[test]
fn deletion_marker_byte_sets_the_flag() {
    let mut records = vec![0x2Au8];
    records.extend_from_slice(b"ab");
    records.push(0x20);
    records.extend_from_slice(b"cd");
    let b = one_field_file(b'C', 2, &records);
    let mut f = File::open(b).unwrap();
    assert!(f.next_record().unwrap().unwrap().deleted);
    assert!(!f.next_record().unwrap().unwrap().deleted);
    assert!(f.next_record().is_none());
}

#[test]
fn exactly_n_records_then_clean_termination() {
    let mut records = Vec::new();
    for text in [b"aa", b"bb", b"cc"] {
        records.push(0x20u8);
        records.extend_from_slice(text);
    }
    let b = one_field_file(b'C', 2, &records);
    let mut f = File::open(b).unwrap();
    let mut seen = 0usize;
    while let Some(step) = f.next_record() {
        step.unwrap();
        seen += 1;
    }
    assert_eq!(seen, 3);
}

#[test]
fn truncated_mid_record_is_an_error_not_a_clean_end() {
    let mut records = vec![0x20u8];
    records.extend_from_slice(b"Jo");
    let b = one_field_file(b'C', 20, &records);
    let mut f = File::open(b).unwrap();
    assert!(matches!(f.next_record(), Some(Err(DbfError::Stream))));
    // After a failed step the sequence is treated as ended.
    assert!(f.next_record().is_none());
}

#[test]
fn character_field_decodes_invalid_bytes_lossily() {
    let b = one_field_file(b'C', 2, &[0x20, 0xFF, 0x41]);
    let mut f = File::open(b).unwrap();
    let r = f.next_record().unwrap().unwrap();
    assert_eq!(character_text(&r.data[0]), "\u{FFFD}A");
}

#[test]
fn numeric_field_fails_on_the_same_invalid_bytes() {
    let b = one_field_file(b'N', 2, &[0x20, 0xFF, 0x41]);
    let mut f = File::open(b).unwrap();
    assert!(matches!(f.next_record(), Some(Err(DbfError::Encoding))));
}

#[test]
fn strict_fields_keep_multi_byte_text() {
    let b = one_field_file(b'N', 2, &[0x20, 0xC3, 0xA9]);
    let mut f = File::open(b).unwrap();
    let r = f.next_record().unwrap().unwrap();
    match &r.data[0] {
        DbfType::Numeric(s) => assert_eq!(s, "\u{E9}"),
        _ => panic!("expected a numeric value"),
    }
}

#[test]
fn every_strict_tag_gets_its_own_variant() {
    for (tag, text) in [(b'N', "12"), (b'F', "3."), (b'L', "T "), (b'D', "19"), (b'M', "07")] {
        let mut records = vec![0x20u8];
        records.extend_from_slice(text.as_bytes());
        let b = one_field_file(tag, 2, &records);
        let mut f = File::open(b).unwrap();
        let r = f.next_record().unwrap().unwrap();
        match (tag, &r.data[0]) {
            (b'N', DbfType::Numeric(s)) => assert_eq!(s, text),
            (b'F', DbfType::Float(s)) => assert_eq!(s, text),
            (b'L', DbfType::Logical(s)) => assert_eq!(s, text),
            (b'D', DbfType::Date(s)) => assert_eq!(s, text),
            (b'M', DbfType::Memo(s)) => assert_eq!(s, text),
            _ => panic!("wrong variant for tag {}", tag as char),
        }
    }
}

#[test]
fn unknown_field_type_tag_fails_naming_it() {
    let b = one_field_file(b'X', 2, &[0x20, 0x41, 0x42]);
    let mut f = File::open(b).unwrap();
    assert!(matches!(f.next_record(), Some(Err(DbfError::UnsupportedFieldType('X')))));
}

#[test]
fn descriptor_without_name_terminator_fails() {
    let mut b = header_bytes(0x03, 0, 65, 21);
    let mut d = descriptor("", b'C', 20);
    for i in 0..11 {
        d[i] = b'A';
    }
    b.extend_from_slice(&d);
    b.push(0x0D);
    assert_eq!(File::open(b).err(), Some(DbfError::MalformedDescriptor));
}

#[test]
fn descriptor_with_invalid_name_bytes_fails() {
    let mut b = header_bytes(0x03, 0, 65, 21);
    let mut d = descriptor("", b'C', 20);
    d[0] = 0xFF;
    b.extend_from_slice(&d);
    b.push(0x0D);
    assert_eq!(File::open(b).err(), Some(DbfError::Encoding));
}

#[test]
fn descriptor_cut_short_rejects_the_file() {
    let mut b = header_bytes(0x03, 0, 65, 21);
    b.extend_from_slice(&descriptor("NAME", b'C', 20)[..16]);
    assert_eq!(File::open(b).err(), Some(DbfError::Stream));
}

#[test]
fn table_may_end_at_end_of_stream_without_sentinel() {
    let mut b = header_bytes(0x03, 0, 65, 21);
    b.extend_from_slice(&descriptor("NAME", b'C', 20));
    let mut f = File::open(b).unwrap();
    assert_eq!(f.fields.len(), 1);
    assert_eq!(f.fields[0].name, "NAME");
    assert!(f.next_record().is_none());
}

#[test]
fn zero_pad_after_sentinel_is_consumed() {
    let mut b = header_bytes(0x03, 1, 66, 3);
    b.extend_from_slice(&descriptor("AB", b'C', 2));
    b.push(0x0D);
    b.push(0x00);
    b.push(0x20);
    b.extend_from_slice(b"hi");
    let mut f = File::open(b).unwrap();
    let r = f.next_record().unwrap().unwrap();
    assert!(!r.deleted);
    assert_eq!(character_text(&r.data[0]), "hi");
    assert!(f.next_record().is_none());
}

#[test]
fn descriptor_scalar_fields_decode_in_place() {
    let mut b = header_bytes(0x03, 0, 65, 21);
    let mut d = descriptor("AGE", b'N', 3);
    d[17] = 2;
    d[18] = 0x34;
    d[19] = 0x12;
    d[20] = 0x55;
    d[31] = 1;
    b.extend_from_slice(&d);
    b.push(0x0D);
    let f = File::open(b).unwrap();
    let fld = &f.fields[0];
    assert_eq!(fld.name, "AGE");
    assert_eq!(fld.typ, 'N');
    assert_eq!(fld.len, 3);
    assert_eq!(fld.decimals, 2);
    assert_eq!(fld.work_area_id, 0x1234);
    assert_eq!(fld.example, 0x55);
    assert_eq!(fld.mdx_flag, 1);
}

#[test]
fn open_rejects_header_failures_whole() {
    assert_eq!(File::open(vec![0x03; 8]).err(), Some(DbfError::Stream));
    assert_eq!(File::open(header_bytes(0x05, 0, 0, 0)).err(), Some(DbfError::Format(5)));
    assert_eq!(
        File::open(header_bytes(0x02, 0, 0, 0)).err(),
        Some(DbfError::UnsupportedFormat(2))
    );
}
