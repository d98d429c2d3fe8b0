//! The `head` table: global font information.
use vstd::prelude::*;
use crate::bytes::{be_i16, be_i32, be_i64, be_u16, be_u32, read_i16, read_i32, read_i64, read_u16, read_u32};

verus! {

/// The size of the `head` table.
pub const HEAD_LENGTH: usize = 54;

/// A signed 16.16 fixed-point number, held as its raw bits.
#[derive(Clone, Copy, Debug, PartialEq, Eq, Structural)]
pub struct Fixed {
    pub bits: i32,
}

/// A direction hint; values outside the defined range are kept.
#[derive(Clone, Copy, Debug, PartialEq, Eq, Structural)]
pub enum FontDirectionHint {
    MixedDirection,
    LeftToRight,
    LeftToRightWithNeutrals,
    RightToLeft,
    RightToLeftWithNeutrals,
    Unknown(i16),
}

/// The stored value of a direction hint.
pub open spec fn hint_value(h: FontDirectionHint) -> int {
    match h {
        FontDirectionHint::RightToLeftWithNeutrals => -2,
        FontDirectionHint::RightToLeft => -1,
        FontDirectionHint::MixedDirection => 0,
        FontDirectionHint::LeftToRight => 1,
        FontDirectionHint::LeftToRightWithNeutrals => 2,
        FontDirectionHint::Unknown(v) => v as int,
    }
}

/// The width of the offsets in the `loca` table.
#[derive(Clone, Copy, Debug, PartialEq, Eq, Structural)]
pub enum IndexToLocFormat {
    /// 16-bit offsets, stored halved.
    ShortOffset,
    /// 32-bit offsets.
    LongOffset,
    Unknown(i16),
}

/// The stored value of an offset-width selector.
pub open spec fn loc_format_value(f: IndexToLocFormat) -> int {
    match f {
        IndexToLocFormat::ShortOffset => 0,
        IndexToLocFormat::LongOffset => 1,
        IndexToLocFormat::Unknown(v) => v as int,
    }
}

#[derive(Clone, Copy, Debug, PartialEq, Eq, Structural)]
pub enum GlyphDataFormat {
    CurrentFormat,
    Unknown(i16),
}

/// The stored value of a glyph data format.
pub open spec fn glyph_format_value(f: GlyphDataFormat) -> int {
    match f {
        GlyphDataFormat::CurrentFormat => 0,
        GlyphDataFormat::Unknown(v) => v as int,
    }
}

/// `head` decoding errors.
#[derive(Clone, Copy, Debug, PartialEq, Eq, Structural)]
pub enum ParseError {
    /// The table is shorter than 54 bytes.
    OutOfBounds,
}

#[derive(Clone, Copy, Debug)]
pub struct HeadTable {
    pub major_version: u16,
    pub minor_version: u16,
    pub font_revision: Fixed,
    pub checksum_adjustment: u32,
    pub magic_number: u32,
    pub flags: u16,
    pub units_per_em: u16,
    pub created: i64,
    pub modified: i64,
    pub x_min: i16,
    pub y_min: i16,
    pub x_max: i16,
    pub y_max: i16,
    /// The lowest recommended size in pixels.
    pub lowest_rec_ppem: u16,
    pub mac_style: u16,
    pub font_dir_hint: FontDirectionHint,
    pub index_to_loc_fmt: IndexToLocFormat,
    pub glyph_data_fmt: GlyphDataFormat,
}

/// What decoding the `head` table `s` gives: a table exactly when `s` holds
/// the 54 bytes, with every field as stored.
pub open spec fn head_parsed(r: Result<HeadTable, ParseError>, s: Seq<u8>) -> bool {
    &&& (r is Ok <==> s.len() >= 54)
    &&& (r is Ok ==> r->Ok_0.decodes(s))
}

impl HeadTable {
    /// Every field is the value stored at its fixed offset in `s`.
    pub open spec fn decodes(&self, s: Seq<u8>) -> bool {
        &&& self.major_version as int == be_u16(s, 0)
        &&& self.minor_version as int == be_u16(s, 2)
        &&& self.font_revision.bits as int == be_i32(s, 4)
        &&& self.checksum_adjustment as int == be_u32(s, 8)
        &&& self.magic_number as int == be_u32(s, 12)
        &&& self.flags as int == be_u16(s, 16)
        &&& self.units_per_em as int == be_u16(s, 18)
        &&& self.created as int == be_i64(s, 20)
        &&& self.modified as int == be_i64(s, 28)
        &&& self.x_min as int == be_i16(s, 36)
        &&& self.y_min as int == be_i16(s, 38)
        &&& self.x_max as int == be_i16(s, 40)
        &&& self.y_max as int == be_i16(s, 42)
        &&& self.lowest_rec_ppem as int == be_u16(s, 44)
        &&& self.mac_style as int == be_u16(s, 46)
        &&& hint_value(self.font_dir_hint) == be_i16(s, 48)
        &&& (self.font_dir_hint is Unknown <==> !(-2 <= be_i16(s, 48) <= 2))
        &&& loc_format_value(self.index_to_loc_fmt) == be_i16(s, 50)
        &&& (self.index_to_loc_fmt is Unknown <==> !(0 <= be_i16(s, 50) <= 1))
        &&& glyph_format_value(self.glyph_data_fmt) == be_i16(s, 52)
        &&& (self.glyph_data_fmt is Unknown <==> be_i16(s, 52) != 0)
    }

    /// Decodes the fixed 54-byte layout; fails exactly when the table is
    /// shorter than that.
    pub fn parse(table_data: &[u8]) -> (r: Result<HeadTable, ParseError>)
        ensures
            head_parsed(r, table_data@),
    {
        if table_data.len() < HEAD_LENGTH {
            return Err(ParseError::OutOfBounds);
        }
        Ok(HeadTable {
            major_version: read_u16(table_data, 0).unwrap(),
            minor_version: read_u16(table_data, 2).unwrap(),
            font_revision: Fixed { bits: read_i32(table_data, 4).unwrap() },
            checksum_adjustment: read_u32(table_data, 8).unwrap(),
            magic_number: read_u32(table_data, 12).unwrap(),
            flags: read_u16(table_data, 16).unwrap(),
            units_per_em: read_u16(table_data, 18).unwrap(),
            created: read_i64(table_data, 20).unwrap(),
            modified: read_i64(table_data, 28).unwrap(),
            x_min: read_i16(table_data, 36).unwrap(),
            y_min: read_i16(table_data, 38).unwrap(),
            x_max: read_i16(table_data, 40).unwrap(),
            y_max: read_i16(table_data, 42).unwrap(),
            lowest_rec_ppem: read_u16(table_data, 44).unwrap(),
            mac_style: read_u16(table_data, 46).unwrap(),
            font_dir_hint: Self::parse_font_dir_hint(read_i16(table_data, 48).unwrap()),
            index_to_loc_fmt: Self::parse_index_to_loc_format(read_i16(table_data, 50).unwrap()),
            glyph_data_fmt: Self::parse_glyph_data_format(read_i16(table_data, 52).unwrap()),
        })
    }

    pub fn parse_font_dir_hint(value: i16) -> (r: FontDirectionHint)
        ensures
            hint_value(r) == value as int,
            r is Unknown <==> !(-2 <= value <= 2),
    {
        match value {
            -2 => FontDirectionHint::RightToLeftWithNeutrals,
            -1 => FontDirectionHint::RightToLeft,
            0 => FontDirectionHint::MixedDirection,
            1 => FontDirectionHint::LeftToRight,
            2 => FontDirectionHint::LeftToRightWithNeutrals,
            _ => FontDirectionHint::Unknown(value),
        }
    }

    pub fn parse_index_to_loc_format(value: i16) -> (r: IndexToLocFormat)
        ensures
            loc_format_value(r) == value as int,
            r is Unknown <==> !(0 <= value <= 1),
    {
        match value {
            0 => IndexToLocFormat::ShortOffset,
            1 => IndexToLocFormat::LongOffset,
            _ => IndexToLocFormat::Unknown(value),
        }
    }

    pub fn parse_glyph_data_format(value: i16) -> (r: GlyphDataFormat)
        ensures
            glyph_format_value(r) == value as int,
            r is Unknown <==> value != 0,
    {
        match value {
            0 => GlyphDataFormat::CurrentFormat,
            _ => GlyphDataFormat::Unknown(value),
        }
    }
}

} // verus!
