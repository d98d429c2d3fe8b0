use font::cmap::{self, CmapTable, Subtable, Version};
use font::encoding::{Encoding, Platform};
use font::glyf::{self, GlyfTable, Glyph, SimpleGlyphTable};
use font::head::{self, FontDirectionHint, GlyphDataFormat, HeadTable, IndexToLocFormat};
use font::loca::{self, LocaTable, Location};
use font::maxp::{self, MaxpTable};
use font::opentype::TableType;

#[test]
fn cmap_parse_version_0() {
    let mut content = vec![0x00u8; 100];
    content[..2].clone_from_slice(&[0x00u8, 0x00]);
    assert_eq!(CmapTable::parse_version(&content), Ok(Version::Version0));
}

#[test]
fn cmap_parse_version_unknown() {
    let mut content = vec![0x00u8; 100];
    content[..2].clone_from_slice(&[0x00u8, 0x01]);
    assert_eq!(CmapTable::parse_version(&content), Err(cmap::ParseError::UnknownVersion));
}

fn cmap_with(platform: u16, encoding: u16, format: u16) -> Vec<u8> {
    let mut data = vec![0u8, 0, 0, 1];
    data.extend_from_slice(&platform.to_be_bytes());
    data.extend_from_slice(&encoding.to_be_bytes());
    data.extend_from_slice(&12u32.to_be_bytes());
    data.extend_from_slice(&format.to_be_bytes());
    data
}

#[test]
fn cmap_records_and_formats() {
    let table = CmapTable::deserialize(&cmap_with(3, 1, 4)).unwrap();
    assert_eq!(table.num_tables, 1);
    let rec = table.encoding_records[0];
    assert_eq!(rec.platform, Platform::Windows);
    assert_eq!(rec.encoding, Encoding::WindowsUnicodeBMP);
    assert_eq!(rec.offset, 12);
    assert_eq!(rec.subtable, Subtable::Format4);
    for (n, t) in [(0u16, Subtable::Format0), (12, Subtable::Format12), (14, Subtable::Format14)] {
        assert_eq!(CmapTable::deserialize(&cmap_with(0, 3, n)).unwrap().encoding_records[0].subtable, t);
    }
}

#[test]
fn cmap_errors() {
    assert_eq!(CmapTable::deserialize(&cmap_with(7, 1, 4)).err(), Some(cmap::ParseError::UnknownPlatform));
    assert_eq!(CmapTable::deserialize(&cmap_with(3, 8, 4)).err(), Some(cmap::ParseError::UnknownEncoding));
    assert_eq!(CmapTable::deserialize(&cmap_with(3, 1, 5)).err(), Some(cmap::ParseError::UnknownSubtableFormat));
    let mut short = cmap_with(3, 1, 4);
    short.truncate(13);
    assert_eq!(CmapTable::deserialize(&short).err(), Some(cmap::ParseError::OutOfBounds));
    let mut v1 = cmap_with(3, 1, 4);
    v1[1] = 1;
    assert_eq!(CmapTable::deserialize(&v1).err(), Some(cmap::ParseError::UnknownVersion));
}

fn head_bytes(loc_format: i16, dir_hint: i16) -> Vec<u8> {
    let mut data = vec![0u8; 54];
    data[0..4].clone_from_slice(&[0, 1, 0, 0]);
    data[4..8].clone_from_slice(&0x0001_8000i32.to_be_bytes());
    data[12..16].clone_from_slice(&0x5F0F_3CF5u32.to_be_bytes());
    data[18..20].clone_from_slice(&2048u16.to_be_bytes());
    data[20..28].clone_from_slice(&(-2i64).to_be_bytes());
    data[36..38].clone_from_slice(&(-100i16).to_be_bytes());
    data[48..50].clone_from_slice(&dir_hint.to_be_bytes());
    data[50..52].clone_from_slice(&loc_format.to_be_bytes());
    data
}

#[test]
fn head_fields() {
    let head = HeadTable::parse(&head_bytes(1, 2)).unwrap();
    assert_eq!(head.major_version, 1);
    assert_eq!(head.font_revision.bits, 0x0001_8000);
    assert_eq!(head.magic_number, 0x5F0F_3CF5);
    assert_eq!(head.units_per_em, 2048);
    assert_eq!(head.created, -2);
    assert_eq!(head.x_min, -100);
    assert_eq!(head.font_dir_hint, FontDirectionHint::LeftToRightWithNeutrals);
    assert_eq!(head.index_to_loc_fmt, IndexToLocFormat::LongOffset);
    assert_eq!(head.glyph_data_fmt, GlyphDataFormat::CurrentFormat);
    let odd = HeadTable::parse(&head_bytes(3, -7)).unwrap();
    assert_eq!(odd.font_dir_hint, FontDirectionHint::Unknown(-7));
    assert_eq!(odd.index_to_loc_fmt, IndexToLocFormat::Unknown(3));
    assert_eq!(HeadTable::parse(&[0u8; 53]).err(), Some(head::ParseError::OutOfBounds));
}

#[test]
fn maxp_versions() {
    let mut v05 = vec![0u8, 0, 0x50, 0, 0, 7];
    let t = MaxpTable::parse(&v05).unwrap();
    assert_eq!(t.version, maxp::Version::V0_5);
    assert_eq!(t.num_glyphs, 7);
    assert!(t.limits.is_none());
    v05[1] = 2;
    let unknown = MaxpTable::parse(&v05).unwrap();
    assert_eq!(unknown.version, maxp::Version::Unknown(head::Fixed { bits: 0x0002_5000 }));
    assert_eq!(unknown.num_glyphs, 7);
    let mut v1 = vec![0u8; 32];
    v1[1] = 1;
    v1[5] = 9;
    v1[7] = 44;
    v1[31] = 3;
    let full = MaxpTable::parse(&v1).unwrap();
    assert_eq!(full.version, maxp::Version::V1_0);
    let limits = full.limits.unwrap();
    assert_eq!(limits.max_points, 44);
    assert_eq!(limits.max_comp_depth, 3);
    assert_eq!(MaxpTable::parse(&v1[..31]).err(), Some(maxp::ParseError::OutOfBounds));
    assert_eq!(MaxpTable::parse(&[0u8; 5]).err(), Some(maxp::ParseError::OutOfBounds));
}

#[test]
fn loca_short_and_long() {
    let short = LocaTable::parse(&[0, 0, 0, 5, 0, 9], IndexToLocFormat::ShortOffset, 3, 30).unwrap();
    assert_eq!(short.offsets, vec![0, 10, 18]);
    assert_eq!(short.index(0), Ok(Location { offset: 0, length: 10 }));
    assert_eq!(short.index(1), Ok(Location { offset: 10, length: 8 }));
    // the last glyph ends at the length of glyf
    assert_eq!(short.index(2), Ok(Location { offset: 18, length: 12 }));
    assert_eq!(short.index(3), Err(loca::ParseError::IndexOutOfRange));
    let long = LocaTable::parse(&[0, 0, 0, 0, 0, 1, 0, 0], IndexToLocFormat::LongOffset, 2, 0x1_0004).unwrap();
    assert_eq!(long.index(0), Ok(Location { offset: 0, length: 0x1_0000 }));
    assert_eq!(long.index(1), Ok(Location { offset: 0x1_0000, length: 4 }));
}

#[test]
fn loca_errors() {
    assert_eq!(LocaTable::parse(&[0u8; 8], IndexToLocFormat::Unknown(2), 2, 0).err(), Some(loca::ParseError::UnknownFormat));
    assert_eq!(LocaTable::parse(&[0u8; 7], IndexToLocFormat::LongOffset, 2, 0).err(), Some(loca::ParseError::OutOfBounds));
    let backwards = LocaTable::parse(&[0, 4, 0, 2], IndexToLocFormat::ShortOffset, 2, 20).unwrap();
    assert_eq!(backwards.index(0), Err(loca::ParseError::InvalidRange));
    let past = LocaTable::parse(&[0, 20], IndexToLocFormat::ShortOffset, 1, 10).unwrap();
    assert_eq!(past.index(0), Err(loca::ParseError::InvalidRange));
}

#[test]
fn flags_repeat_run() {
    let data = [0x01u8, 0x08, 0x03];
    let mut cursor = 0usize;
    let flags = SimpleGlyphTable::deserialize_flags(&data, &mut cursor, 5).unwrap();
    assert_eq!(flags, vec![0x01, 0x08, 0x08, 0x08, 0x08]);
    assert_eq!(cursor, 3);
}

#[test]
fn flags_run_cut_at_point_count() {
    let mut cursor = 0usize;
    assert_eq!(SimpleGlyphTable::deserialize_flags(&[0x08, 0x03], &mut cursor, 1), Ok(vec![0x08]));
    assert_eq!(cursor, 2);
    let mut cursor = 0usize;
    assert_eq!(SimpleGlyphTable::deserialize_flags(&[0x08, 0x05, 0x01], &mut cursor, 4), Ok(vec![0x08, 0x08, 0x08, 0x08]));
    assert_eq!(cursor, 2);
    // one point whose only flag repeats once more: the glyph still decodes
    let outline = [0u8, 0, 0, 0, 0x08 | 0x12 | 0x20, 0x01, 7];
    let table = SimpleGlyphTable::deserialize(&outline, 1).unwrap();
    assert_eq!(table.flags, vec![0x3A]);
    assert_eq!(table.x_coordinates, vec![7]);
    assert_eq!(table.y_coordinates, vec![0]);
    assert_eq!(table.byte_length, outline.len());
}

#[test]
fn flags_errors() {
    let mut cursor = 0usize;
    assert_eq!(SimpleGlyphTable::deserialize_flags(&[0x01], &mut cursor, 2), Err(glyf::ParseError::OutOfBounds));
    let mut cursor = 0usize;
    assert_eq!(SimpleGlyphTable::deserialize_flags(&[0x08], &mut cursor, 2), Err(glyf::ParseError::OutOfBounds));
}

/// One contour ending at point 2: X short and positive, Y long.
fn simple_outline() -> Vec<u8> {
    vec![
        0, 2, // end point of the contour
        0, 0, // no instructions
        0x13, 0x13, 0x13, // flags
        10, 20, 30, // X deltas
        0, 5, 0xFF, 0xFB, 0, 0, // Y deltas
    ]
}

#[test]
fn coordinates_consume_exact_bytes() {
    let outline = simple_outline();
    let table = SimpleGlyphTable::deserialize(&outline, 1).unwrap();
    assert_eq!(table.end_points_of_contours, vec![2]);
    assert_eq!(table.flags.len(), 3);
    assert_eq!(table.x_coordinates, vec![10, 20, 30]);
    assert_eq!(table.y_coordinates, vec![5, -5, 0]);
    assert_eq!(table.byte_length, outline.len());
}

#[test]
fn coordinate_kinds() {
    // short negative, same (zero delta), long
    let data = [7u8, 0x01, 0x00];
    let flags = vec![0x02u8, 0x10, 0x00];
    let mut cursor = 0usize;
    let xs = SimpleGlyphTable::deserialize_x_coordinates(&data, &mut cursor, &flags).unwrap();
    assert_eq!(xs, vec![-7, 0, 256]);
    assert_eq!(cursor, 3);
    let mut cursor = 0usize;
    let ys = SimpleGlyphTable::deserialize_y_coordinates(&[9u8], &mut cursor, &vec![0x24u8, 0x20]).unwrap();
    assert_eq!(ys, vec![9, 0]);
    let mut cursor = 0usize;
    assert_eq!(SimpleGlyphTable::deserialize_y_coordinates(&[9u8], &mut cursor, &vec![0x00u8]), Err(glyf::ParseError::OutOfBounds));
}

#[test]
fn glyph_header_and_compound() {
    let mut data = vec![0, 1, 0xFF, 0xF6, 0, 0, 0, 100, 0, 50];
    data.extend_from_slice(&simple_outline());
    let glyph = Glyph::deserialize(&data).unwrap();
    assert_eq!(glyph.num_contours, 1);
    assert_eq!(glyph.min_x, -10);
    assert_eq!(glyph.max_x, 100);
    assert_eq!(glyph.simple_glyph.unwrap().x_coordinates, vec![10, 20, 30]);
    let compound = Glyph::deserialize(&[0xFF, 0xFF, 0, 0, 0, 0, 0, 0, 0, 0, 1, 2]).unwrap();
    assert_eq!(compound.num_contours, -1);
    assert!(compound.simple_glyph.is_none());
    assert_eq!(Glyph::deserialize(&[0u8; 9]).err(), Some(glyf::ParseError::OutOfBounds));
}

#[test]
fn read_glyph_by_location() {
    let mut data = vec![0, 1, 0, 0, 0, 0, 0, 0, 0, 0];
    data.extend_from_slice(&simple_outline());
    let table = GlyfTable::parse(&data);
    assert!(table.read_glyph(Location { offset: 3, length: 0 }).unwrap().is_none());
    assert!(table.read_glyph(Location { offset: 0, length: data.len() }).unwrap().is_some());
    assert_eq!(table.read_glyph(Location { offset: 1, length: data.len() }).err(), Some(glyf::ParseError::OutOfBounds));
}

#[test]
fn table_identities() {
    assert_eq!(TableType::table_type(*b"glyf"), TableType::Glyf);
    assert_eq!(TableType::table_type(*b"OS/2"), TableType::Os2);
    assert_eq!(TableType::table_type(*b"cvt "), TableType::Cvt);
    assert_eq!(TableType::table_type(*b"GSUB"), TableType::Gsub);
    assert_eq!(TableType::table_type(*b"gsub"), TableType::Unknown);
    assert_eq!(TableType::table_type(*b"zzzz"), TableType::Unknown);
}

#[test]
fn loca_locations_in_order() {
    let table = LocaTable::parse(&[0, 0, 0, 2, 0, 2], IndexToLocFormat::ShortOffset, 3, 9).unwrap();
    assert_eq!(
        table.locations(),
        vec![
            Ok(Location { offset: 0, length: 4 }),
            Ok(Location { offset: 4, length: 0 }),
            Ok(Location { offset: 4, length: 5 }),
        ]
    );
}
