use font::encoding::{Encoding, Platform};
use font::name::{Format, NameRecord, NameTable, ParseError};
use font::Name;

const SAMPLE_TABLE: [u8; 32] = [
    0u8, 0, 0, 1, 0, 18, 0, 0, 0, 0, 0, 0, 0, 1, 0, 14, 0, 0, 0, 82, 0, 101, 0, 103, 0, 117, 0,
    108, 0, 97, 0, 114,
];
const SAMPLE_HEADER: [u8; 6] = [0u8, 0, 0, 26, 1, 62];
const SAMPLE_NAME_RECORD: [u8; 12] = [0u8, 1, 0, 0, 0, 0, 0, 0, 0, 47, 0, 0];

#[test]
fn mod_lookup_platform_macintosh() {
    let platform = Platform::lookup(1);
    assert_eq!(platform, Some(Platform::Macintosh));
}

#[test]
fn mod_lookup_encoding_mac_roman() {
    let encoding = Encoding::lookup(Platform::Macintosh, 0);
    assert_eq!(encoding, Some(Encoding::MacintoshRoman));
}

#[test]
fn encoding_lookup_platform_macintosh() {
    let platform = Platform::lookup(1);
    assert_eq!(platform, Some(Platform::Macintosh));
}

#[test]
fn encoding_lookup_encoding_mac_roman() {
    let encoding = Encoding::lookup(Platform::Macintosh, 0);
    assert_eq!(encoding, Some(Encoding::MacintoshRoman));
}

#[test]
fn name_parse_format_0() {
    let mut data = vec![0x00u8; 32];
    data[0..2].clone_from_slice(&[0x00, 0x00]);
    assert_eq!(NameTable::parse_format(&data), Ok(Format::Format0));
}

#[test]
fn mod_parse_format_0() {
    let mut data = vec![0u8; 1062];
    data[..6].clone_from_slice(&SAMPLE_HEADER);
    assert_eq!(NameTable::parse_format(&data), Ok(Format::Format0));
}

#[test]
fn table_parse_format_0() {
    let mut data = vec![0u8; 1062];
    data[..6].clone_from_slice(&SAMPLE_HEADER);
    assert_eq!(NameTable::parse_format(&data), Ok(Format::Format0));
}

#[test]
fn mod_parse_record_count() {
    let mut data = vec![0u8; 1062];
    data[..6].clone_from_slice(&SAMPLE_HEADER);
    assert_eq!(NameTable::deserialize(&data).unwrap().count, 26);
}

#[test]
fn mod_parse_string_offset() {
    let mut data = vec![0u8; 1062];
    data[..6].clone_from_slice(&SAMPLE_HEADER);
    assert_eq!(NameTable::deserialize(&data).unwrap().string_offset, 318);
}

#[test]
fn mod_deserialize_name_record() {
    let record = NameRecord::deserialize(&SAMPLE_NAME_RECORD).unwrap();
    assert_eq!(record.platform, Some(Platform::Macintosh));
    assert_eq!(record.encoding, Some(Encoding::MacintoshRoman));
    assert_eq!(record.language_id, 0u16);
    assert_eq!(record.name_id, 0);
    assert_eq!(record.name, Some(Name::CopyrightNotice));
    assert_eq!(record.string_length, 47);
    assert_eq!(record.string_offset, 0);
}

#[test]
fn record_deserialize_name_record() {
    let record = NameRecord::deserialize(&SAMPLE_NAME_RECORD).unwrap();
    assert_eq!(record.platform, Some(Platform::Macintosh));
    assert_eq!(record.encoding, Some(Encoding::MacintoshRoman));
    assert_eq!(record.language_id, 0u16);
    assert_eq!(record.name_id, 0);
    assert_eq!(record.name, Some(Name::CopyrightNotice));
    assert_eq!(record.string_length, 47);
    assert_eq!(record.string_offset, 0);
}

#[test]
fn parse_name_value() {
    let record = NameRecord::deserialize(&SAMPLE_TABLE[6..18]).unwrap();
    let result = record.parse_value(&SAMPLE_TABLE[18..32]).unwrap();
    const EXPECTED: [u8; 14] = [0u8, 82, 0, 101, 0, 103, 0, 117, 0, 108, 0, 97, 0, 114];
    assert_eq!(result, EXPECTED.to_vec());
}

#[test]
fn table_read_string_value() {
    let table = NameTable::deserialize(&SAMPLE_TABLE).unwrap();
    let result = table.read_string_value(Platform::Unicode, Encoding::Unicode1, Name::FontFamilyName);
    const EXPECTED: [u8; 14] = [0u8, 82, 0, 101, 0, 103, 0, 117, 0, 108, 0, 97, 0, 114];
    assert_eq!(result, Some(EXPECTED.to_vec()));
}

#[test]
fn macintosh_roman_copyright_record_resolves() {
    let record = NameRecord::deserialize(&[0, 1, 0, 0, 0, 0, 0, 0, 0, 3, 0, 0]).unwrap();
    assert_eq!(
        (record.platform, record.encoding, record.name),
        (Some(Platform::Macintosh), Some(Encoding::MacintoshRoman), Some(Name::CopyrightNotice))
    );
}

#[test]
fn unresolvable_record_is_kept() {
    // platform 9 is undefined, name id 15 has no well-known field
    let record = NameRecord::deserialize(&[0, 9, 0, 0, 0, 0, 0, 15, 0, 0, 0, 0]).unwrap();
    assert_eq!(record.platform, None);
    assert_eq!(record.encoding, None);
    assert_eq!(record.name, None);
    assert_eq!(record.name_id, 15);
}

#[test]
fn name_table_errors() {
    assert_eq!(NameTable::deserialize(&[0, 0, 0]).err(), Some(ParseError::OutOfBounds));
    assert_eq!(NameTable::deserialize(&[0, 2, 0, 0, 0, 6]).err(), Some(ParseError::UnknownFormat));
    // one record whose string reaches past the end
    let mut data = SAMPLE_TABLE.to_vec();
    data[15] = 15;
    assert_eq!(NameTable::deserialize(&data).err(), Some(ParseError::OutOfBounds));
    assert_eq!(NameRecord::deserialize(&[0u8; 11]).err(), Some(ParseError::OutOfBounds));
}

#[test]
fn find_and_list_records() {
    let table = NameTable::deserialize(&SAMPLE_TABLE).unwrap();
    let found = table.find_strings(Name::FontFamilyName);
    assert_eq!(found.len(), 1);
    assert_eq!(found[0].0, Some(Encoding::Unicode1));
    assert_eq!(found[0].1.len(), 14);
    assert!(table.find_strings(Name::License).is_empty());
    let listed = table.available_strings();
    assert_eq!(listed.len(), 1);
    assert_eq!(listed[0].0, Name::FontFamilyName);
}

#[test]
fn name_ids_and_lookup() {
    assert_eq!(Name::lookup(0), Some(Name::CopyrightNotice));
    assert_eq!(Name::lookup(15), None);
    assert_eq!(Name::lookup(16), Some(Name::TypographicFamilyName));
    assert_eq!(Name::lookup(25), Some(Name::VariationsPostScriptNamePrefix));
    assert_eq!(Name::lookup(26), None);
    assert_eq!(Name::VersionString.id(), 5);
}

#[test]
fn encoding_registry() {
    assert_eq!(Platform::lookup(5), None);
    assert_eq!(Encoding::lookup(Platform::Windows, 1), Some(Encoding::WindowsUnicodeBMP));
    assert_eq!(Encoding::lookup(Platform::Windows, 7), None);
    assert_eq!(Encoding::lookup(Platform::Windows, 10), Some(Encoding::WindowsUnicodeUCS4));
    assert_eq!(Encoding::lookup(Platform::Unicode, 6), Some(Encoding::UnicodeFull));
    assert_eq!(Encoding::lookup(Platform::Unicode, 7), None);
    assert_eq!(Encoding::lookup(Platform::ISO, 2), Some(Encoding::ISO8859_1));
    assert_eq!(Encoding::lookup(Platform::Macintosh, 32), Some(Encoding::MacintoshUninterpreted));
    assert_eq!(Encoding::lookup(Platform::Macintosh, 33), None);
    assert_eq!(Encoding::lookup(Platform::Custom, 777), Some(Encoding::Custom { encoding: 777 }));
}

#[test]
fn table_parse_record_count() {
    let mut data = vec![0u8; 1062];
    data[..6].clone_from_slice(&SAMPLE_HEADER);
    assert_eq!(NameTable::deserialize(&data).unwrap().count, 26);
}

#[test]
fn table_parse_string_offset() {
    let mut data = vec![0u8; 1062];
    data[..6].clone_from_slice(&SAMPLE_HEADER);
    assert_eq!(NameTable::deserialize(&data).unwrap().string_offset, 318);
}
