use font::sfnt::{ParseError, SfntFile, TableRecord};

#[test]
fn opentype_parse_nth_table_record_first() {
    let mut content = vec![0x00u8; 47252];
    content[12..12 + 4].clone_from_slice(&[0x01u8, 0x02, 0x03, 0x04]);
    content[16..16 + 4].clone_from_slice(&[0xFCu8, 0xFD, 0xFE, 0xFF]);

    let rec0 = SfntFile::parse_nth_table_record(&content, 0).unwrap();
    assert_eq!(rec0.tag, [0x01u8, 0x02, 0x03, 0x04]);
    assert_eq!(rec0.checksum, 0xFCFDFEFF);
}

#[test]
fn opentype_parse_nth_table_record_offset() {
    let mut content = vec![0x00u8; 47252];
    content[12 + 32..12 + 32 + 4].clone_from_slice(&[0x02u8, 0x04, 0x08, 0x10]);

    let rec2 = SfntFile::parse_nth_table_record(&content, 2).unwrap();
    assert_eq!(rec2.tag, [0x02u8, 0x04, 0x08, 0x10]);
}

#[test]
fn opentype_parse_header() {
    let mut content = vec![0x00u8; 47252];
    content[..12].clone_from_slice(&[
        0x00u8, 0x01, 0x00, 0x00, 0x00, 0x11, 0x01, 0x00, 0x00, 0x04, 0x00, 0x10,
    ]);
    let sfnt = SfntFile::deserialize(&content).unwrap();
    assert_eq!(sfnt.num_tables, 17);
    assert_eq!(sfnt.search_range, 256);
    assert_eq!(sfnt.entry_selector, 4);
    assert_eq!(sfnt.range_shift, 16);
}

#[test]
fn opentype_parse_table_records() {
    let mut content = vec![0x00u8; 47252];
    content[5] = 0x12;
    content[12..12 + 4].clone_from_slice(&[0x01u8, 0x02, 0x03, 0x04]);
    content[12 + 32..12 + 32 + 4].clone_from_slice(&[0x02u8, 0x04, 0x08, 0x10]);

    let table_records = SfntFile::parse_table_records(&content).unwrap();

    assert_eq!(table_records.len(), 18);
    assert_eq!(table_records[0].tag, [0x01u8, 0x02, 0x03, 0x04]);
    assert_eq!(table_records[2].tag, [0x02u8, 0x04, 0x08, 0x10]);
}

#[test]
fn mod_parse_header() {
    let mut content = vec![0x00u8; 47252];
    content[..12].clone_from_slice(&[
        0x00u8, 0x01, 0x00, 0x00, 0x00, 0x11, 0x01, 0x00, 0x00, 0x04, 0x00, 0x10,
    ]);
    let sfnt = SfntFile::deserialize(&content).unwrap();
    assert_eq!(sfnt.num_tables, 17);
    assert_eq!(sfnt.search_range, 256);
    assert_eq!(sfnt.entry_selector, 4);
    assert_eq!(sfnt.range_shift, 16);
    assert_eq!(sfnt.table_records.len(), 17);
}

#[test]
fn mod_parse_table_records() {
    let mut content = vec![0x00u8; 47252];
    content[5] = 0x12;
    content[12..12 + 4].clone_from_slice(&[0x6Eu8, 0x61, 0x6D, 0x65]);
    content[12 + 32..12 + 32 + 4].clone_from_slice(&[0x67u8, 0x6C, 0x79, 0x66]);

    let table_records = SfntFile::parse_table_records(&content).unwrap();

    assert_eq!(table_records.len(), 18);
    assert_eq!(table_records[0].tag_chars(), ['n', 'a', 'm', 'e']);
    assert_eq!(table_records[2].tag_chars(), ['g', 'l', 'y', 'f']);
}

#[test]
fn mod_parse_nth_table_record_first() {
    let mut content = vec![0x00u8; 47252];
    content[12..12 + 4].clone_from_slice(&[0x6Eu8, 0x61, 0x6D, 0x65]);
    content[16..16 + 4].clone_from_slice(&[0xFCu8, 0xFD, 0xFE, 0xFF]);

    let rec0 = SfntFile::parse_nth_table_record(&content, 0).unwrap();
    assert_eq!(rec0.tag_chars(), ['n', 'a', 'm', 'e']);
    assert_eq!(rec0.checksum, 0xFCFDFEFF);
}

#[test]
fn mod_parse_nth_table_record_offset() {
    let mut content = vec![0x00u8; 47252];
    content[12 + 32..12 + 32 + 4].clone_from_slice(&[0x6Eu8, 0x61, 0x6D, 0x65]);

    let rec2 = SfntFile::parse_nth_table_record(&content, 2).unwrap();
    assert_eq!(rec2.tag_chars(), ['n', 'a', 'm', 'e']);
}

#[test]
fn deserialize_table_record() {
    let mut rec_content = vec![0x00u8; 16];
    rec_content[0..4].clone_from_slice(&[0x6Eu8, 0x61, 0x6D, 0x65]);
    rec_content[4..8].clone_from_slice(&[0xFCu8, 0xFD, 0xFE, 0xFF]);
    rec_content[8..12].clone_from_slice(&[0x00u8, 0x00, 0x00, 0x10]);
    rec_content[12..16].clone_from_slice(&[0x00u8, 0x00, 0x00, 0x04]);

    let mut file_content = vec![0x00u8; 20];
    file_content[0..16].clone_from_slice(&rec_content);
    file_content[16..20].clone_from_slice(&[0x01u8, 0x02, 0x03, 0x04]);

    let rec0 = TableRecord::deserialize(&rec_content, &file_content).unwrap();
    assert_eq!(rec0.tag_chars(), ['n', 'a', 'm', 'e']);
    assert_eq!(rec0.checksum, 0xFCFDFEFF);
    assert_eq!(rec0.offset, 0x00000010);
    assert_eq!(rec0.length, 0x00000004);
    assert_eq!(rec0.table_data, vec![0x01u8, 0x02, 0x03, 0x04]);
}

#[test]
fn table_range_past_end_is_bounds_error() {
    let mut content = vec![0x00u8; 28];
    content[..6].clone_from_slice(&[0x00, 0x01, 0x00, 0x00, 0x00, 0x01]);
    // offset 20, length 9: one byte past the end
    content[12 + 8..12 + 12].clone_from_slice(&[0, 0, 0, 20]);
    content[12 + 12..12 + 16].clone_from_slice(&[0, 0, 0, 9]);
    assert_eq!(SfntFile::deserialize(&content).err(), Some(ParseError::TableOutOfBounds));
    content[12 + 12..12 + 16].clone_from_slice(&[0, 0, 0, 8]);
    let sfnt = SfntFile::deserialize(&content).unwrap();
    assert_eq!(sfnt.table_records[0].table_data.len(), 8);
}

#[test]
fn truncated_header_and_directory() {
    assert_eq!(SfntFile::deserialize(&[0u8; 11]).err(), Some(ParseError::HeaderOutOfBounds));
    let mut content = vec![0u8; 20];
    content[5] = 1;
    assert_eq!(SfntFile::deserialize(&content).err(), Some(ParseError::RecordOutOfBounds));
}

#[test]
fn directory_counts_every_record_in_bounds() {
    let mut content = vec![0u8; 12 + 3 * 16 + 10];
    content[5] = 3;
    for i in 0..3usize {
        let at = 12 + 16 * i;
        content[at + 11] = 60 + i as u8;
        content[at + 15] = 2;
    }
    let sfnt = SfntFile::deserialize(&content).unwrap();
    assert_eq!(sfnt.table_records.len(), 3);
    for r in &sfnt.table_records {
        assert!(r.offset + r.length <= content.len());
    }
}
