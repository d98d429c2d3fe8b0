//! The `cmap` table header: its encoding records, each with the format of the
//! subtable it points to. Subtable bodies are not decoded.
use vstd::prelude::*;
use crate::bytes::{be_u16, be_u32, fits, read_u16, read_u32};
use crate::encoding::{encoding_for, platform_for, Encoding, Platform};

verus! {

/// Where the encoding records start.
pub const ENCODING_RECORDS_OFFSET: usize = 4;

/// The size of one encoding record.
pub const ENCODING_RECORD_LENGTH: usize = 8;

#[derive(Clone, Copy, Debug, PartialEq, Eq, Structural)]
pub enum ParseError {
    /// The version is not 0.
    UnknownVersion,
    /// A record's platform id names no platform.
    UnknownPlatform,
    /// A record's encoding id names no encoding on its platform.
    UnknownEncoding,
    /// A subtable's format is not one of 0, 2, 4, 6, 8, 10, 12, 13, 14.
    UnknownSubtableFormat,
    /// The table ends before a header, record or subtable format it must hold.
    OutOfBounds,
}

#[derive(Clone, Copy, Debug, PartialEq, Eq, Structural)]
pub enum Version {
    /// The only version defined.
    Version0,
}

/// The subtable formats.
#[derive(Clone, Copy, Debug, PartialEq, Eq, Structural)]
pub enum Subtable {
    /// Byte encoding table.
    Format0,
    /// High-byte mapping through table.
    Format2,
    /// Segment mapping to delta values.
    Format4,
    /// Trimmed table mapping.
    Format6,
    /// Mixed 16-bit and 32-bit coverage.
    Format8,
    /// Trimmed array.
    Format10,
    /// Segmented coverage.
    Format12,
    /// Many-to-one range mappings.
    Format13,
    /// Unicode variation sequences.
    Format14,
}

/// The stored number of a subtable format.
pub open spec fn format_number(t: Subtable) -> int {
    match t {
        Subtable::Format0 => 0,
        Subtable::Format2 => 2,
        Subtable::Format4 => 4,
        Subtable::Format6 => 6,
        Subtable::Format8 => 8,
        Subtable::Format10 => 10,
        Subtable::Format12 => 12,
        Subtable::Format13 => 13,
        Subtable::Format14 => 14,
    }
}

/// Whether `v` is the number of a subtable format.
pub open spec fn is_format_number(v: int) -> bool {
    v == 0 || v == 2 || v == 4 || v == 6 || v == 8 || v == 10 || v == 12 || v == 13 || v == 14
}

#[derive(Clone, Copy, Debug, PartialEq, Eq, Structural)]
pub struct EncodingRecord {
    pub platform: Platform,
    pub encoding: Encoding,
    /// The subtable's offset from the start of the table.
    pub offset: usize,
    /// The format that the subtable declares.
    pub subtable: Subtable,
}

/// Record `i` of the table `s`, resolved and with its subtable's format.
pub open spec fn record_ok(s: Seq<u8>, i: int, r: EncodingRecord) -> bool {
    let at = 4 + 8 * i;
    &&& platform_for(be_u16(s, at) as u16) == Some(r.platform)
    &&& encoding_for(r.platform, be_u16(s, at + 2) as u16) == Some(r.encoding)
    &&& r.offset as int == be_u32(s, at + 4)
    &&& format_number(r.subtable) == be_u16(s, r.offset as int)
}

/// The error of record `i` of `s`, if it has one.
pub open spec fn record_error(s: Seq<u8>, i: int) -> Option<ParseError> {
    let at = 4 + 8 * i;
    if at + 8 > s.len() {
        Some(ParseError::OutOfBounds)
    } else if platform_for(be_u16(s, at) as u16) is None {
        Some(ParseError::UnknownPlatform)
    } else if encoding_for(platform_for(be_u16(s, at) as u16)->Some_0, be_u16(s, at + 2) as u16) is None {
        Some(ParseError::UnknownEncoding)
    } else if be_u32(s, at + 4) + 2 > s.len() {
        Some(ParseError::OutOfBounds)
    } else if !is_format_number(be_u16(s, be_u32(s, at + 4))) {
        Some(ParseError::UnknownSubtableFormat)
    } else {
        None
    }
}

/// The first error among records `i..count` of `s`, if any.
pub open spec fn first_record_error(s: Seq<u8>, count: int, i: int) -> Option<ParseError>
    decreases count - i,
{
    if i >= count {
        None
    } else if record_error(s, i) is Some {
        record_error(s, i)
    } else {
        first_record_error(s, count, i + 1)
    }
}

/// The error that decoding the table `s` gives, if any: a short header, the
/// version, then the first record in order that fails.
pub open spec fn cmap_error(s: Seq<u8>) -> Option<ParseError> {
    if s.len() < 4 {
        Some(ParseError::OutOfBounds)
    } else if be_u16(s, 0) != 0 {
        Some(ParseError::UnknownVersion)
    } else {
        first_record_error(s, be_u16(s, 2), 0)
    }
}

#[derive(Clone, Debug)]
pub struct CmapTable {
    pub table_version: Version,
    pub num_tables: u16,
    pub encoding_records: Vec<EncodingRecord>,
}

proof fn lemma_first_error_none(s: Seq<u8>, count: int, i: int, j: int)
    requires
        0 <= i <= j < count,
        first_record_error(s, count, i) is None,
    ensures
        record_error(s, j) is None,
    decreases j - i,
{
    if i < j {
        lemma_first_error_none(s, count, i + 1, j);
    }
}

/// What decoding the `cmap` table `s` gives: the first error in table
/// order, or every encoding record resolved and classified.
pub open spec fn cmap_parsed(r: Result<CmapTable, ParseError>, s: Seq<u8>) -> bool {
    &&& (r is Ok <==> cmap_error(s) is None)
    &&& (r is Err ==> Some(r->Err_0) == cmap_error(s))
    &&& (r is Ok ==> {
        let t = r->Ok_0;
        &&& t.num_tables as int == be_u16(s, 2)
        &&& t.encoding_records@.len() == t.num_tables as int
        &&& forall|i: int| 0 <= i < t.num_tables ==> record_ok(s, i, #[trigger] t.encoding_records@[i])
    })
}

impl CmapTable {
    /// Decodes the header and every encoding record; fails with the first
    /// error in table order.
    pub fn deserialize(data: &[u8]) -> (r: Result<CmapTable, ParseError>)
        ensures
            cmap_parsed(r, data@),
    {
        if data.len() < ENCODING_RECORDS_OFFSET {
            return Err(ParseError::OutOfBounds);
        }
        let table_version = match Self::parse_version(data) {
            Ok(v) => v,
            Err(e) => return Err(e),
        };
        let num_tables = read_u16(data, 2).unwrap();
        let mut encoding_records: Vec<EncodingRecord> = Vec::new();
        let mut i: usize = 0;
        while i < num_tables as usize
            invariant
                data@.len() >= 4,
                be_u16(data@, 0) == 0,
                num_tables as int == be_u16(data@, 2),
                i <= num_tables,
                encoding_records@.len() == i,
                first_record_error(data@, num_tables as int, 0) == first_record_error(data@, num_tables as int, i as int),
                forall|j: int| 0 <= j < i ==> record_ok(data@, j, #[trigger] encoding_records@[j]),
            decreases num_tables - i,
        {
            match EncodingRecord::parse(data, i) {
                Ok(rec) => {
                    encoding_records.push(rec);
                },
                Err(e) => return Err(e),
            }
            i = i + 1;
        }
        Ok(CmapTable { table_version, num_tables, encoding_records })
    }

    /// Reads the version, which must be 0.
    pub fn parse_version(data: &[u8]) -> (r: Result<Version, ParseError>)
        ensures
            r is Ok <==> data@.len() >= 2 && be_u16(data@, 0) == 0,
            r is Err ==> r->Err_0 == if data@.len() < 2 {
                ParseError::OutOfBounds
            } else {
                ParseError::UnknownVersion
            },
    {
        match read_u16(data, 0) {
            Some(0) => Ok(Version::Version0),
            Some(_) => Err(ParseError::UnknownVersion),
            None => Err(ParseError::OutOfBounds),
        }
    }
}

impl EncodingRecord {
    /// Decodes record `i` of the table `data` and classifies its subtable.
    pub fn parse(data: &[u8], i: usize) -> (r: Result<EncodingRecord, ParseError>)
        ensures
            r is Ok <==> record_error(data@, i as int) is None,
            r is Err ==> Some(r->Err_0) == record_error(data@, i as int),
            r is Ok ==> record_ok(data@, i as int, r->Ok_0),
    {
        if data.len() < ENCODING_RECORDS_OFFSET || i > (data.len() - ENCODING_RECORDS_OFFSET) / ENCODING_RECORD_LENGTH {
            return Err(ParseError::OutOfBounds);
        }
        let at = ENCODING_RECORDS_OFFSET + i * ENCODING_RECORD_LENGTH;
        if !fits(data.len(), at, ENCODING_RECORD_LENGTH) {
            return Err(ParseError::OutOfBounds);
        }
        let platform = match Platform::lookup(read_u16(data, at).unwrap()) {
            Some(p) => p,
            None => return Err(ParseError::UnknownPlatform),
        };
        let encoding = match Encoding::lookup(platform, read_u16(data, at + 2).unwrap()) {
            Some(e) => e,
            None => return Err(ParseError::UnknownEncoding),
        };
        let offset = read_u32(data, at + 4).unwrap() as usize;
        let subtable = match Subtable::parse(data, offset) {
            Ok(t) => t,
            Err(e) => return Err(e),
        };
        Ok(EncodingRecord { platform, encoding, offset, subtable })
    }
}

impl Subtable {
    /// Classifies the format declared at `subtable_offset`.
    pub fn parse(cmap_data: &[u8], subtable_offset: usize) -> (r: Result<Subtable, ParseError>)
        ensures
            r is Ok <==> subtable_offset + 2 <= cmap_data@.len() && is_format_number(be_u16(cmap_data@, subtable_offset as int)),
            r is Ok ==> format_number(r->Ok_0) == be_u16(cmap_data@, subtable_offset as int),
            r is Err ==> r->Err_0 == if subtable_offset + 2 > cmap_data@.len() {
                ParseError::OutOfBounds
            } else {
                ParseError::UnknownSubtableFormat
            },
    {
        match read_u16(cmap_data, subtable_offset) {
            Some(0) => Ok(Subtable::Format0),
            Some(2) => Ok(Subtable::Format2),
            Some(4) => Ok(Subtable::Format4),
            Some(6) => Ok(Subtable::Format6),
            Some(8) => Ok(Subtable::Format8),
            Some(10) => Ok(Subtable::Format10),
            Some(12) => Ok(Subtable::Format12),
            Some(13) => Ok(Subtable::Format13),
            Some(14) => Ok(Subtable::Format14),
            Some(_) => Err(ParseError::UnknownSubtableFormat),
            None => Err(ParseError::OutOfBounds),
        }
    }
}

} // verus!
