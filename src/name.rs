//! The `name` table: metadata strings (family name, copyright, version, ...)
//! stored as records over a shared string-storage region.
use vstd::prelude::*;
use crate::bytes::{be_u16, copy_range, fits, read_u16};
use crate::encoding::{encoding_for, platform_for, Encoding, Platform};

verus! {

/// Where the name records start.
pub const NAME_RECORDS_OFFSET: usize = 6;

/// The size of one name record.
pub const NAME_RECORD_LENGTH: usize = 12;

/// The well-known metadata fields. Their order is that of their name ids.
#[derive(Clone, Copy, Debug, PartialEq, Eq, Structural, Hash, PartialOrd, Ord)]
pub enum Name {
    CopyrightNotice,
    FontFamilyName,
    FontSubfamilyName,
    UniqueFontID,
    FullFontName,
    VersionString,
    PostScriptName,
    Trademark,
    Manufacturer,
    Designer,
    Description,
    VendorUrl,
    DesignerUrl,
    License,
    LicenseInfoUrl,
    TypographicFamilyName,
    TypographicSubfamilyName,
    /// Macintosh only.
    CompatibleFullName,
    SampleText,
    PostScriptCIDFindFontName,
    WWSFamilyName,
    WWSSubfamilyName,
    LightBackgroundPalette,
    DarkBackgroundPalette,
    VariationsPostScriptNamePrefix,
}

/// The name id of a field.
pub open spec fn name_id(n: Name) -> u16 {
    match n {
        Name::CopyrightNotice => 0,
        Name::FontFamilyName => 1,
        Name::FontSubfamilyName => 2,
        Name::UniqueFontID => 3,
        Name::FullFontName => 4,
        Name::VersionString => 5,
        Name::PostScriptName => 6,
        Name::Trademark => 7,
        Name::Manufacturer => 8,
        Name::Designer => 9,
        Name::Description => 10,
        Name::VendorUrl => 11,
        Name::DesignerUrl => 12,
        Name::License => 13,
        Name::LicenseInfoUrl => 14,
        Name::TypographicFamilyName => 16,
        Name::TypographicSubfamilyName => 17,
        Name::CompatibleFullName => 18,
        Name::SampleText => 19,
        Name::PostScriptCIDFindFontName => 20,
        Name::WWSFamilyName => 21,
        Name::WWSSubfamilyName => 22,
        Name::LightBackgroundPalette => 23,
        Name::DarkBackgroundPalette => 24,
        Name::VariationsPostScriptNamePrefix => 25,
    }
}

/// The field that `id` names, if any.
pub open spec fn name_for(id: u16) -> Option<Name> {
    match id {
        0 => Some(Name::CopyrightNotice),
        1 => Some(Name::FontFamilyName),
        2 => Some(Name::FontSubfamilyName),
        3 => Some(Name::UniqueFontID),
        4 => Some(Name::FullFontName),
        5 => Some(Name::VersionString),
        6 => Some(Name::PostScriptName),
        7 => Some(Name::Trademark),
        8 => Some(Name::Manufacturer),
        9 => Some(Name::Designer),
        10 => Some(Name::Description),
        11 => Some(Name::VendorUrl),
        12 => Some(Name::DesignerUrl),
        13 => Some(Name::License),
        14 => Some(Name::LicenseInfoUrl),
        16 => Some(Name::TypographicFamilyName),
        17 => Some(Name::TypographicSubfamilyName),
        18 => Some(Name::CompatibleFullName),
        19 => Some(Name::SampleText),
        20 => Some(Name::PostScriptCIDFindFontName),
        21 => Some(Name::WWSFamilyName),
        22 => Some(Name::WWSSubfamilyName),
        23 => Some(Name::LightBackgroundPalette),
        24 => Some(Name::DarkBackgroundPalette),
        25 => Some(Name::VariationsPostScriptNamePrefix),
        _ => None,
    }
}

impl Name {
    /// The well-known field with the given name id, if it is one.
    pub fn lookup(name_id: u16) -> (r: Option<Name>)
        ensures
            r == name_for(name_id),
    {
        match name_id {
            0 => Some(Name::CopyrightNotice),
            1 => Some(Name::FontFamilyName),
            2 => Some(Name::FontSubfamilyName),
            3 => Some(Name::UniqueFontID),
            4 => Some(Name::FullFontName),
            5 => Some(Name::VersionString),
            6 => Some(Name::PostScriptName),
            7 => Some(Name::Trademark),
            8 => Some(Name::Manufacturer),
            9 => Some(Name::Designer),
            10 => Some(Name::Description),
            11 => Some(Name::VendorUrl),
            12 => Some(Name::DesignerUrl),
            13 => Some(Name::License),
            14 => Some(Name::LicenseInfoUrl),
            16 => Some(Name::TypographicFamilyName),
            17 => Some(Name::TypographicSubfamilyName),
            18 => Some(Name::CompatibleFullName),
            19 => Some(Name::SampleText),
            20 => Some(Name::PostScriptCIDFindFontName),
            21 => Some(Name::WWSFamilyName),
            22 => Some(Name::WWSSubfamilyName),
            23 => Some(Name::LightBackgroundPalette),
            24 => Some(Name::DarkBackgroundPalette),
            25 => Some(Name::VariationsPostScriptNamePrefix),
            _ => None,
        }
    }

    /// The field's name id.
    pub fn id(&self) -> (r: u16)
        ensures
            r == name_id(*self),
    {
        match self {
            Name::CopyrightNotice => 0,
            Name::FontFamilyName => 1,
            Name::FontSubfamilyName => 2,
            Name::UniqueFontID => 3,
            Name::FullFontName => 4,
            Name::VersionString => 5,
            Name::PostScriptName => 6,
            Name::Trademark => 7,
            Name::Manufacturer => 8,
            Name::Designer => 9,
            Name::Description => 10,
            Name::VendorUrl => 11,
            Name::DesignerUrl => 12,
            Name::License => 13,
            Name::LicenseInfoUrl => 14,
            Name::TypographicFamilyName => 16,
            Name::TypographicSubfamilyName => 17,
            Name::CompatibleFullName => 18,
            Name::SampleText => 19,
            Name::PostScriptCIDFindFontName => 20,
            Name::WWSFamilyName => 21,
            Name::WWSSubfamilyName => 22,
            Name::LightBackgroundPalette => 23,
            Name::DarkBackgroundPalette => 24,
            Name::VariationsPostScriptNamePrefix => 25,
        }
    }
}

/// `name` decoding errors.
#[derive(Clone, Copy, Debug, PartialEq, Eq, Structural)]
pub enum ParseError {
    /// Only formats 0 and 1 are defined.
    UnknownFormat,
    /// The table ends before its header, a record, or a record's string.
    OutOfBounds,
}

/// The two formats; format 1 adds language-tag records.
#[derive(Clone, Copy, Debug, PartialEq, Eq, Structural)]
pub enum Format {
    Format0,
    Format1,
}

/// One name record. Platform and encoding are resolved where their ids are
/// defined; a record whose ids are not is kept all the same.
#[derive(Clone, Copy, Debug, PartialEq, Eq, Structural)]
pub struct NameRecord {
    pub platform_id: u16,
    pub encoding_id: u16,
    pub platform: Option<Platform>,
    pub encoding: Option<Encoding>,
    pub language_id: u16,
    pub name_id: u16,
    pub name: Option<Name>,
    pub string_length: usize,
    /// Relative to the string-storage region.
    pub string_offset: usize,
}

/// The encoding that a record's ids resolve to, if both do.
pub open spec fn resolved_encoding(platform_id: u16, encoding_id: u16) -> Option<Encoding> {
    match platform_for(platform_id) {
        Some(p) => encoding_for(p, encoding_id),
        None => None,
    }
}

impl NameRecord {
    /// The record holds the 12 bytes at `at` in `s`.
    pub open spec fn decodes(&self, s: Seq<u8>, at: int) -> bool {
        &&& self.platform_id as int == be_u16(s, at)
        &&& self.encoding_id as int == be_u16(s, at + 2)
        &&& self.platform == platform_for(self.platform_id)
        &&& self.encoding == resolved_encoding(self.platform_id, self.encoding_id)
        &&& self.language_id as int == be_u16(s, at + 4)
        &&& self.name_id as int == be_u16(s, at + 6)
        &&& self.name == name_for(self.name_id)
        &&& self.string_length as int == be_u16(s, at + 8)
        &&& self.string_offset as int == be_u16(s, at + 10)
    }

    /// Decodes the 12-byte record at the start of `data`.
    pub fn deserialize(data: &[u8]) -> (r: Result<NameRecord, ParseError>)
        ensures
            r is Ok <==> data@.len() >= 12,
            r is Ok ==> r->Ok_0.decodes(data@, 0),
            r is Err ==> r->Err_0 == ParseError::OutOfBounds,
    {
        Self::read_at(data, 0)
    }

    fn read_at(data: &[u8], at: usize) -> (r: Result<NameRecord, ParseError>)
        ensures
            r is Ok <==> at + 12 <= data@.len(),
            r is Ok ==> r->Ok_0.decodes(data@, at as int),
            r is Err ==> r->Err_0 == ParseError::OutOfBounds,
    {
        if !fits(data.len(), at, NAME_RECORD_LENGTH) {
            return Err(ParseError::OutOfBounds);
        }
        let platform_id = read_u16(data, at).unwrap();
        let encoding_id = read_u16(data, at + 2).unwrap();
        let platform = Platform::lookup(platform_id);
        let encoding = match platform {
            Some(p) => Encoding::lookup(p, encoding_id),
            None => None,
        };
        let name_id = read_u16(data, at + 6).unwrap();
        Ok(NameRecord {
            platform_id,
            encoding_id,
            platform,
            encoding,
            language_id: read_u16(data, at + 4).unwrap(),
            name_id,
            name: Name::lookup(name_id),
            string_length: read_u16(data, at + 8).unwrap() as usize,
            string_offset: read_u16(data, at + 10).unwrap() as usize,
        })
    }

    /// The record's string: its range of the string storage.
    pub fn parse_value(&self, string_storage: &[u8]) -> (r: Result<Vec<u8>, ParseError>)
        ensures
            r is Ok <==> self.string_offset + self.string_length <= string_storage@.len(),
            r is Ok ==> r->Ok_0@ == string_storage@.subrange(self.string_offset as int, self.string_offset + self.string_length),
            r is Err ==> r->Err_0 == ParseError::OutOfBounds,
    {
        if !fits(string_storage.len(), self.string_offset, self.string_length) {
            return Err(ParseError::OutOfBounds);
        }
        Ok(copy_range(string_storage, self.string_offset, self.string_offset + self.string_length))
    }
}

/// The format stored in `s`, if defined.
pub open spec fn format_of(s: Seq<u8>) -> Option<Format> {
    if be_u16(s, 0) == 0 {
        Some(Format::Format0)
    } else if be_u16(s, 0) == 1 {
        Some(Format::Format1)
    } else {
        None
    }
}

/// Where the string storage of `s` starts.
pub open spec fn storage_start(s: Seq<u8>) -> int {
    be_u16(s, 4)
}

/// The error of record `i` of `s`, if it has one: the record or its string
/// reaches past the end.
pub open spec fn record_error(s: Seq<u8>, i: int) -> bool {
    let at = 6 + 12 * i;
    at + 12 > s.len() || storage_start(s) + be_u16(s, at + 10) + be_u16(s, at + 8) > s.len()
}

/// Whether any of records `i..count` of `s` has an error.
pub open spec fn any_record_error(s: Seq<u8>, count: int, i: int) -> bool
    decreases count - i,
{
    if i >= count {
        false
    } else {
        record_error(s, i) || any_record_error(s, count, i + 1)
    }
}

/// The error that decoding the table `s` gives, if any.
pub open spec fn name_table_error(s: Seq<u8>) -> Option<ParseError> {
    if s.len() < 6 {
        Some(ParseError::OutOfBounds)
    } else if format_of(s) is None {
        Some(ParseError::UnknownFormat)
    } else if storage_start(s) > s.len() || any_record_error(s, be_u16(s, 2), 0) {
        Some(ParseError::OutOfBounds)
    } else {
        None
    }
}

proof fn lemma_no_record_error(s: Seq<u8>, count: int, i: int, j: int)
    requires
        0 <= i <= j < count,
        !any_record_error(s, count, i),
    ensures
        !record_error(s, j),
    decreases j - i,
{
    if i < j {
        lemma_no_record_error(s, count, i + 1, j);
    }
}

/// The decoded `name` table. `strings[i]` holds the bytes of `name_records[i]`.
pub struct NameTable {
    pub format: Format,
    pub count: u16,
    /// The offset of the string storage from the start of the table.
    pub string_offset: usize,
    pub name_records: Vec<NameRecord>,
    pub strings: Vec<Vec<u8>>,
}

/// What decoding the `name` table `s` gives: its error, or every record
/// with its string.
pub open spec fn name_parsed(r: Result<NameTable, ParseError>, s: Seq<u8>) -> bool {
    &&& (r is Ok <==> name_table_error(s) is None)
    &&& (r is Err ==> Some(r->Err_0) == name_table_error(s))
    &&& (r is Ok ==> r->Ok_0.decodes(s))
}

impl NameTable {
    pub open spec fn wf(&self) -> bool {
        &&& self.name_records@.len() == self.count as int
        &&& self.strings@.len() == self.count as int
    }

    /// The table decodes `s`: every record and its string.
    pub open spec fn decodes(&self, s: Seq<u8>) -> bool {
        &&& self.wf()
        &&& Some(self.format) == format_of(s)
        &&& self.count as int == be_u16(s, 2)
        &&& self.string_offset as int == storage_start(s)
        &&& forall|i: int| 0 <= i < self.count ==> {
            let rec = #[trigger] self.name_records@[i];
            &&& rec.decodes(s, 6 + 12 * i)
            &&& self.strings@[i]@ == s.subrange(
                storage_start(s) + rec.string_offset,
                storage_start(s) + rec.string_offset + rec.string_length,
            )
        }
    }

    /// Decodes the header, every name record, and each record's string.
    pub fn deserialize(table_data: &[u8]) -> (r: Result<NameTable, ParseError>)
        ensures
            name_parsed(r, table_data@),
    {
        let ghost s = table_data@;
        if table_data.len() < NAME_RECORDS_OFFSET {
            return Err(ParseError::OutOfBounds);
        }
        let format = match Self::parse_format(table_data) {
            Ok(f) => f,
            Err(e) => return Err(e),
        };
        let count = read_u16(table_data, 2).unwrap();
        let string_offset = read_u16(table_data, 4).unwrap() as usize;
        if string_offset > table_data.len() {
            return Err(ParseError::OutOfBounds);
        }
        let storage = &table_data[string_offset..table_data.len()];
        let mut name_records: Vec<NameRecord> = Vec::new();
        let mut strings: Vec<Vec<u8>> = Vec::new();
        let mut i: usize = 0;
        while i < count as usize
            invariant
                s == table_data@,
                s.len() >= 6,
                format_of(s) is Some,
                count as int == be_u16(s, 2),
                string_offset as int == storage_start(s),
                string_offset <= s.len(),
                storage@ == s.subrange(string_offset as int, s.len() as int),
                i <= count,
                name_records@.len() == i,
                strings@.len() == i,
                any_record_error(s, count as int, 0) == any_record_error(s, count as int, i as int),
                forall|j: int| 0 <= j < i ==> {
                    let rec = #[trigger] name_records@[j];
                    &&& rec.decodes(s, 6 + 12 * j)
                    &&& strings@[j]@ == s.subrange(
                        storage_start(s) + rec.string_offset,
                        storage_start(s) + rec.string_offset + rec.string_length,
                    )
                },
            decreases count - i,
        {
            let rec = match NameRecord::read_at(table_data, NAME_RECORDS_OFFSET + i * NAME_RECORD_LENGTH) {
                Ok(rec) => rec,
                Err(e) => return Err(e),
            };
            let value = match rec.parse_value(storage) {
                Ok(v) => v,
                Err(e) => return Err(e),
            };
            assert(value@ =~= s.subrange(
                storage_start(s) + rec.string_offset,
                storage_start(s) + rec.string_offset + rec.string_length,
            ));
            name_records.push(rec);
            strings.push(value);
            i = i + 1;
        }
        Ok(NameTable { format, count, string_offset, name_records, strings })
    }

    /// Reads the format, which must be 0 or 1.
    pub fn parse_format(data: &[u8]) -> (r: Result<Format, ParseError>)
        ensures
            r is Ok <==> data@.len() >= 2 && format_of(data@) is Some,
            r is Ok ==> Some(r->Ok_0) == format_of(data@),
            r is Err ==> r->Err_0 == if data@.len() < 2 {
                ParseError::OutOfBounds
            } else {
                ParseError::UnknownFormat
            },
    {
        match read_u16(data, 0) {
            Some(0) => Ok(Format::Format0),
            Some(1) => Ok(Format::Format1),
            Some(_) => Err(ParseError::UnknownFormat),
            None => Err(ParseError::OutOfBounds),
        }
    }

    /// The bytes of the last record with the given platform, encoding and
    /// field, if any.
    pub fn read_string_value(&self, platform: Platform, encoding: Encoding, name: Name) -> (r: Option<Vec<u8>>)
        requires
            self.wf(),
        ensures
            r is None <==> forall|i: int| 0 <= i < self.count ==> !#[trigger] self.name_records@[i].matches(platform, encoding, name),
            r is Some ==> exists|i: int| 0 <= i < self.count && #[trigger] self.name_records@[i].matches(platform, encoding, name)
                && r->Some_0@ == self.strings@[i]@
                && forall|j: int| i < j < self.count ==> !#[trigger] self.name_records@[j].matches(platform, encoding, name),
    {
        let mut i: usize = self.name_records.len();
        while i > 0
            invariant
                self.wf(),
                i <= self.count,
                forall|j: int| i <= j < self.count ==> !#[trigger] self.name_records@[j].matches(platform, encoding, name),
            decreases i,
        {
            i = i - 1;
            let rec = &self.name_records[i];
            if rec.is_for(platform, encoding, name) {
                let v = &self.strings[i];
                let c = copy_range(v.as_slice(), 0, v.len());
                assert(c@ =~= self.strings@[i as int]@);
                return Some(c);
            }
        }
        None
    }

    /// Every record that names a well-known field, in table order, with its
    /// encoding and bytes.
    pub fn available_strings(&self) -> (r: Vec<(Name, Option<Encoding>, Vec<u8>)>)
        requires
            self.wf(),
        ensures
            r@.map_values(|e: (Name, Option<Encoding>, Vec<u8>)| (e.0, e.1, e.2@)) == named_entries(self.name_records@, self.strings@, self.count as int),
    {
        let mut out: Vec<(Name, Option<Encoding>, Vec<u8>)> = Vec::new();
        let mut i: usize = 0;
        while i < self.name_records.len()
            invariant
                self.wf(),
                i <= self.count,
                out@.map_values(|e: (Name, Option<Encoding>, Vec<u8>)| (e.0, e.1, e.2@)) == named_entries(self.name_records@, self.strings@, i as int),
            decreases self.count - i,
        {
            let rec = &self.name_records[i];
            let ghost before = out@;
            match rec.name {
                Some(n) => {
                    let v = &self.strings[i];
                    let c = copy_range(v.as_slice(), 0, v.len());
                    assert(c@ =~= self.strings@[i as int]@);
                    out.push((n, rec.encoding, c));
                    assert(out@.map_values(|e: (Name, Option<Encoding>, Vec<u8>)| (e.0, e.1, e.2@)) =~= before.map_values(|e: (Name, Option<Encoding>, Vec<u8>)| (e.0, e.1, e.2@)).push((n, rec.encoding, self.strings@[i as int]@)));
                },
                None => {},
            }
            i = i + 1;
        }
        out
    }

    /// Every record for `name`, in table order, with its encoding and bytes,
    /// whether or not the bytes can be decoded.
    pub fn find_strings(&self, name: Name) -> (r: Vec<(Option<Encoding>, Vec<u8>)>)
        requires
            self.wf(),
        ensures
            r@.map_values(|e: (Option<Encoding>, Vec<u8>)| (e.0, e.1@)) == entries_for(self.name_records@, self.strings@, name, self.count as int),
    {
        let mut out: Vec<(Option<Encoding>, Vec<u8>)> = Vec::new();
        let mut i: usize = 0;
        while i < self.name_records.len()
            invariant
                self.wf(),
                i <= self.count,
                out@.map_values(|e: (Option<Encoding>, Vec<u8>)| (e.0, e.1@)) == entries_for(self.name_records@, self.strings@, name, i as int),
            decreases self.count - i,
        {
            let rec = &self.name_records[i];
            let ghost before = out@;
            if rec.is_field(name) {
                let v = &self.strings[i];
                let c = copy_range(v.as_slice(), 0, v.len());
                assert(c@ =~= self.strings@[i as int]@);
                out.push((rec.encoding, c));
                assert(out@.map_values(|e: (Option<Encoding>, Vec<u8>)| (e.0, e.1@)) =~= before.map_values(|e: (Option<Encoding>, Vec<u8>)| (e.0, e.1@)).push((rec.encoding, self.strings@[i as int]@)));
            }
            i = i + 1;
        }
        out
    }
}

impl NameRecord {
    /// Whether the record is for this platform, encoding and field.
    pub open spec fn matches(&self, platform: Platform, encoding: Encoding, name: Name) -> bool {
        self.platform == Some(platform) && self.encoding == Some(encoding) && self.name == Some(name)
    }

    /// Whether the record is for this platform, encoding and field.
    pub fn is_for(&self, platform: Platform, encoding: Encoding, name: Name) -> (r: bool)
        ensures
            r == self.matches(platform, encoding, name),
    {
        let p = match self.platform {
            Some(p) => p == platform,
            None => false,
        };
        let e = match self.encoding {
            Some(e) => e == encoding,
            None => false,
        };
        p && e && self.is_field(name)
    }

    /// Whether the record is for this field.
    pub fn is_field(&self, name: Name) -> (r: bool)
        ensures
            r == (self.name == Some(name)),
    {
        match self.name {
            Some(n) => n == name,
            None => false,
        }
    }
}

/// The named records among the first `n`, with field, encoding and bytes.
pub open spec fn named_entries(recs: Seq<NameRecord>, strings: Seq<Vec<u8>>, n: int) -> Seq<(Name, Option<Encoding>, Seq<u8>)>
    decreases n,
{
    if n <= 0 {
        Seq::empty()
    } else {
        let rest = named_entries(recs, strings, n - 1);
        match recs[n - 1].name {
            Some(f) => rest.push((f, recs[n - 1].encoding, strings[n - 1]@)),
            None => rest,
        }
    }
}

/// The records for `name` among the first `n`, with encoding and bytes.
pub open spec fn entries_for(recs: Seq<NameRecord>, strings: Seq<Vec<u8>>, name: Name, n: int) -> Seq<(Option<Encoding>, Seq<u8>)>
    decreases n,
{
    if n <= 0 {
        Seq::empty()
    } else {
        let rest = entries_for(recs, strings, name, n - 1);
        if recs[n - 1].name == Some(name) {
            rest.push((recs[n - 1].encoding, strings[n - 1]@))
        } else {
            rest
        }
    }
}

} // verus!
