//! The `maxp` table: the glyph count, and for version 1.0 the memory limits.
use vstd::prelude::*;
use crate::bytes::{be_i32, be_u16, read_i32, read_u16};
use crate::head::Fixed;

verus! {

/// The table version, with any other value kept as it was stored.
#[derive(Clone, Copy, Debug, PartialEq, Eq, Structural)]
pub enum Version {
    V0_5,
    V1_0,
    Unknown(Fixed),
}

/// The stored bits of a version.
pub open spec fn version_bits(v: Version) -> int {
    match v {
        Version::V0_5 => 0x5000,
        Version::V1_0 => 0x10000,
        Version::Unknown(f) => f.bits as int,
    }
}

/// `maxp` decoding errors.
#[derive(Clone, Copy, Debug, PartialEq, Eq, Structural)]
pub enum ParseError {
    /// The table ends before a field that its version carries.
    OutOfBounds,
}

/// The limits that version 1.0 adds.
#[derive(Clone, Copy, Debug, PartialEq, Eq, Structural)]
pub struct MaxpLimits {
    pub max_points: u16,
    pub max_contours: u16,
    pub max_comp_pts: u16,
    pub max_comp_contours: u16,
    pub max_zones: u16,
    pub max_twilight_points: u16,
    pub max_storage: u16,
    pub max_func_defs: u16,
    pub max_instruction_defs: u16,
    pub max_stack_elements: u16,
    pub max_size_of_instructions: u16,
    pub max_comp_elements: u16,
    pub max_comp_depth: u16,
}

impl MaxpLimits {
    /// The 13 limits are the 16-bit values from offset 6 on.
    pub open spec fn decodes(&self, s: Seq<u8>) -> bool {
        &&& self.max_points as int == be_u16(s, 6)
        &&& self.max_contours as int == be_u16(s, 8)
        &&& self.max_comp_pts as int == be_u16(s, 10)
        &&& self.max_comp_contours as int == be_u16(s, 12)
        &&& self.max_zones as int == be_u16(s, 14)
        &&& self.max_twilight_points as int == be_u16(s, 16)
        &&& self.max_storage as int == be_u16(s, 18)
        &&& self.max_func_defs as int == be_u16(s, 20)
        &&& self.max_instruction_defs as int == be_u16(s, 22)
        &&& self.max_stack_elements as int == be_u16(s, 24)
        &&& self.max_size_of_instructions as int == be_u16(s, 26)
        &&& self.max_comp_elements as int == be_u16(s, 28)
        &&& self.max_comp_depth as int == be_u16(s, 30)
    }
}

#[derive(Clone, Copy, Debug)]
pub struct MaxpTable {
    pub version: Version,
    pub num_glyphs: u16,
    /// Present exactly for version 1.0.
    pub limits: Option<MaxpLimits>,
}

/// The length a `maxp` table needs for the version stored in it.
pub open spec fn required_length(s: Seq<u8>) -> int {
    if s.len() >= 4 && be_i32(s, 0) == 0x10000 {
        32
    } else {
        6
    }
}

/// What decoding the `maxp` table `s` gives: a table exactly when `s` is long
/// enough for its version, with the limits exactly for version 1.0.
pub open spec fn maxp_parsed(r: Result<MaxpTable, ParseError>, s: Seq<u8>) -> bool {
    &&& (r is Ok <==> s.len() >= required_length(s))
    &&& (r is Ok ==> {
        let t = r->Ok_0;
        &&& version_bits(t.version) == be_i32(s, 0)
        &&& (t.version is Unknown <==> be_i32(s, 0) != 0x5000 && be_i32(s, 0) != 0x10000)
        &&& t.num_glyphs as int == be_u16(s, 4)
        &&& (t.limits is Some <==> t.version == Version::V1_0)
        &&& (t.limits is Some ==> t.limits->Some_0.decodes(s))
    })
}

impl MaxpTable {
    /// Decodes the version and glyph count, and the limits when the version
    /// is exactly 1.0; fails exactly when the table is too short for them.
    pub fn parse(table_data: &[u8]) -> (r: Result<MaxpTable, ParseError>)
        ensures
            maxp_parsed(r, table_data@),
    {
        if table_data.len() < 6 {
            return Err(ParseError::OutOfBounds);
        }
        let version = Self::parse_version(read_i32(table_data, 0).unwrap());
        let num_glyphs = read_u16(table_data, 4).unwrap();
        let mut limits: Option<MaxpLimits> = None;
        if version == Version::V1_0 {
            if table_data.len() < 32 {
                return Err(ParseError::OutOfBounds);
            }
            limits = Some(MaxpLimits {
                max_points: read_u16(table_data, 6).unwrap(),
                max_contours: read_u16(table_data, 8).unwrap(),
                max_comp_pts: read_u16(table_data, 10).unwrap(),
                max_comp_contours: read_u16(table_data, 12).unwrap(),
                max_zones: read_u16(table_data, 14).unwrap(),
                max_twilight_points: read_u16(table_data, 16).unwrap(),
                max_storage: read_u16(table_data, 18).unwrap(),
                max_func_defs: read_u16(table_data, 20).unwrap(),
                max_instruction_defs: read_u16(table_data, 22).unwrap(),
                max_stack_elements: read_u16(table_data, 24).unwrap(),
                max_size_of_instructions: read_u16(table_data, 26).unwrap(),
                max_comp_elements: read_u16(table_data, 28).unwrap(),
                max_comp_depth: read_u16(table_data, 30).unwrap(),
            });
        }
        Ok(MaxpTable { version, num_glyphs, limits })
    }

    /// Classifies the stored 16.16 version value.
    pub fn parse_version(value: i32) -> (r: Version)
        ensures
            version_bits(r) == value as int,
            r is Unknown <==> value != 0x5000 && value != 0x10000,
    {
        match value {
            0x5000 => Version::V0_5,
            0x10000 => Version::V1_0,
            _ => Version::Unknown(Fixed { bits: value }),
        }
    }
}

} // verus!
