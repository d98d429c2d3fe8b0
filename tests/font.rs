use font::container::FileType;
use font::loca;
use font::{Font, FontParseErr, Name};

/// An SFNT buffer holding the given tables, in order.
fn sfnt(tables: &[(&[u8; 4], Vec<u8>)]) -> Vec<u8> {
    let mut out = vec![0u8, 1, 0, 0];
    out.extend_from_slice(&(tables.len() as u16).to_be_bytes());
    out.extend_from_slice(&[0u8; 6]);
    let mut offset = 12 + 16 * tables.len();
    let mut body = Vec::new();
    for (tag, data) in tables {
        out.extend_from_slice(&tag[..]);
        out.extend_from_slice(&[0u8; 4]);
        out.extend_from_slice(&(offset as u32).to_be_bytes());
        out.extend_from_slice(&(data.len() as u32).to_be_bytes());
        body.extend_from_slice(data);
        offset += data.len();
    }
    out.extend_from_slice(&body);
    out
}

fn head_table() -> Vec<u8> {
    let mut data = vec![0u8; 54];
    data[1] = 1;
    data
}

fn maxp_table(num_glyphs: u16) -> Vec<u8> {
    let mut data = vec![0u8, 0, 0x50, 0];
    data.extend_from_slice(&num_glyphs.to_be_bytes());
    data
}

fn glyph_data() -> Vec<u8> {
    vec![
        0, 1, 0, 0, 0, 0, 0, 60, 0, 5, // header
        0, 2, 0, 0, 0x13, 0x13, 0x13, 10, 20, 30, 0, 5, 0xFF, 0xFB, 0, 0,
    ]
}

/// A name table: a Mac Roman and a Windows record for the same family name,
/// an empty copyright, and a Windows version string.
fn name_table() -> Vec<u8> {
    let family_roman = b"Blacksword".to_vec();
    let family_ucs2: Vec<u8> = "Blacksword".encode_utf16().flat_map(|u| u.to_be_bytes()).collect();
    let version_ucs2: Vec<u8> = "1.0".encode_utf16().flat_map(|u| u.to_be_bytes()).collect();
    let records: Vec<(u16, u16, u16, Vec<u8>)> = vec![
        (1, 0, 1, family_roman),
        (3, 1, 1, family_ucs2),
        (3, 1, 0, Vec::new()),
        (3, 1, 5, version_ucs2),
    ];
    let mut out = vec![0u8, 0];
    out.extend_from_slice(&(records.len() as u16).to_be_bytes());
    out.extend_from_slice(&((6 + 12 * records.len()) as u16).to_be_bytes());
    let mut storage = Vec::new();
    for (platform, encoding, name_id, text) in &records {
        out.extend_from_slice(&platform.to_be_bytes());
        out.extend_from_slice(&encoding.to_be_bytes());
        out.extend_from_slice(&[0u8, 0]);
        out.extend_from_slice(&name_id.to_be_bytes());
        out.extend_from_slice(&(text.len() as u16).to_be_bytes());
        out.extend_from_slice(&(storage.len() as u16).to_be_bytes());
        storage.extend_from_slice(text);
    }
    out.extend_from_slice(&storage);
    out
}

fn sample_font() -> Vec<u8> {
    let glyf = glyph_data();
    sfnt(&[
        (b"head", head_table()),
        (b"maxp", maxp_table(2)),
        // glyph 0 is empty, glyph 1 spans all of glyf
        (b"loca", vec![0, 0, 0, 0]),
        (b"glyf", glyf),
        (b"name", name_table()),
        (b"cmap", vec![0, 1, 0, 0]),
    ])
}

#[test]
fn available_strings_sorted_and_deduplicated() {
    let data = sample_font();
    let font = Font::from_bytes(&data).unwrap();
    assert_eq!(font.file_type, FileType::OpenTypeWithTrueTypeOutlines);
    let strings = font.available_strings();
    assert_eq!(
        strings,
        vec![
            (Name::FontFamilyName, "Blacksword".to_string()),
            (Name::VersionString, "1.0".to_string()),
        ]
    );
    for (_, value) in &strings {
        assert!(!value.is_empty());
    }
}

#[test]
fn read_unicode_string_skips_empty() {
    let data = sample_font();
    let font = Font::from_bytes(&data).unwrap();
    assert_eq!(font.read_unicode_string(Name::FontFamilyName), Some("Blacksword".to_string()));
    assert_eq!(font.read_unicode_string(Name::VersionString), Some("1.0".to_string()));
    assert_eq!(font.read_unicode_string(Name::CopyrightNotice), None);
    assert_eq!(font.read_unicode_string(Name::License), None);
}

#[test]
fn glyph_queries() {
    let data = sample_font();
    let font = Font::from_bytes(&data).unwrap();
    assert_eq!(font.num_glyphs(), Some(2));
    assert!(font.lookup_glyph(0).is_none());
    let glyph = font.lookup_glyph(1).unwrap();
    assert_eq!(glyph.max_x, 60);
    let outline = glyph.simple_glyph.unwrap();
    assert_eq!(outline.y_coordinates, vec![5, -5, 0]);
    assert!(font.lookup_glyph(2).is_none());
}

#[test]
fn failed_table_leaves_others_available() {
    let data = sample_font();
    let font = Font::from_bytes(&data).unwrap();
    let tables = font.font.as_ref().unwrap();
    // the cmap table has an unknown version
    assert!(matches!(tables.cmap, Some(Err(_))));
    assert!(matches!(tables.head, Some(Ok(_))));
    assert!(matches!(tables.name, Some(Ok(_))));
}

#[test]
fn loca_without_head_is_missing_dependency() {
    let data = sfnt(&[(b"maxp", maxp_table(1)), (b"loca", vec![0, 0]), (b"glyf", vec![])]);
    let font = Font::from_bytes(&data).unwrap();
    let tables = font.font.as_ref().unwrap();
    assert_eq!(tables.loca.as_ref().unwrap().as_ref().err(), Some(&loca::ParseError::MissingDependency));
    assert_eq!(font.num_glyphs(), None);
    assert!(font.lookup_glyph(0).is_none());
}

#[test]
fn decoding_twice_gives_equal_results() {
    let data = sample_font();
    let a = Font::from_bytes(&data).unwrap();
    let b = Font::from_bytes(&data).unwrap();
    assert_eq!(a.file_type, b.file_type);
    assert_eq!(a.available_strings(), b.available_strings());
    assert_eq!(a.num_glyphs(), b.num_glyphs());
    let ga = a.lookup_glyph(1).unwrap().simple_glyph.unwrap();
    let gb = b.lookup_glyph(1).unwrap().simple_glyph.unwrap();
    assert_eq!(ga.flags, gb.flags);
    assert_eq!(ga.x_coordinates, gb.x_coordinates);
}

#[test]
fn unrecognized_and_malformed() {
    assert_eq!(Font::from_bytes(b"not a font").err(), Some(FontParseErr::UnrecognizedFormatError));
    let mut data = sample_font();
    data.truncate(40);
    assert!(matches!(Font::from_bytes(&data).err(), Some(FontParseErr::MalformedDirectory(_))));
    let woff = Font::from_bytes(b"wOFF\x00\x00\x00\x00").unwrap();
    assert_eq!(woff.file_type, FileType::Woff);
    assert!(woff.font.is_none());
    assert!(woff.available_strings().is_empty());
}
