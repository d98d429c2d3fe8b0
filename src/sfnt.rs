//! The SFNT table directory: the table count and the array of table records,
//! each materialized with a copy of the table's bytes.
use vstd::prelude::*;
use crate::container::{classify, is_sfnt_kind};
use crate::bytes::{be_u16, be_u32, copy_range, fits, read_u16, read_u32};

verus! {

/// Where the table records start.
pub const TABLE_RECORDS_OFFSET: usize = 12;

/// The size of one table record.
pub const TABLE_RECORD_LENGTH: usize = 16;

/// What a table record states, over plain values.
pub struct RecordModel {
    pub tag: Seq<u8>,
    pub checksum: int,
    pub offset: int,
    pub length: int,
}

/// Directory decoding errors.
#[derive(Clone, Copy, Debug, PartialEq, Eq, Structural)]
pub enum ParseError {
    /// The buffer is shorter than the 12-byte header.
    HeaderOutOfBounds,
    /// A table record reaches past the end of the buffer.
    RecordOutOfBounds,
    /// A record's `[offset, offset + length)` reaches past the end of the buffer.
    TableOutOfBounds,
}

/// The record whose 16 bytes start at `at` in `rec`, with its table range
/// checked against a buffer of `file_len` bytes.
pub open spec fn record_from(rec: Seq<u8>, at: int, file_len: int) -> Result<RecordModel, ParseError> {
    if at + 16 > rec.len() {
        Err(ParseError::RecordOutOfBounds)
    } else {
        let offset = be_u32(rec, at + 8);
        let length = be_u32(rec, at + 12);
        if offset + length > file_len {
            Err(ParseError::TableOutOfBounds)
        } else {
            Ok(
                RecordModel {
                    tag: rec.subrange(at, at + 4),
                    checksum: be_u32(rec, at + 4),
                    offset,
                    length,
                },
            )
        }
    }
}

/// The `n`-th record of the directory of `s`.
pub open spec fn nth_record(s: Seq<u8>, n: int) -> Result<RecordModel, ParseError> {
    record_from(s, 12 + 16 * n, s.len() as int)
}

/// The table count stored in the header.
pub open spec fn num_tables(s: Seq<u8>) -> int {
    be_u16(s, 4)
}

/// Records `i..count` of the directory of `s`, or the first record's error.
pub open spec fn records_from(s: Seq<u8>, count: int, i: int) -> Result<Seq<RecordModel>, ParseError>
    decreases count - i,
{
    if i >= count {
        Ok(Seq::empty())
    } else {
        match nth_record(s, i) {
            Err(e) => Err(e),
            Ok(r) => match records_from(s, count, i + 1) {
                Err(e) => Err(e),
                Ok(rest) => Ok(seq![r] + rest),
            },
        }
    }
}

/// The whole directory of `s`.
pub open spec fn directory(s: Seq<u8>) -> Result<Seq<RecordModel>, ParseError> {
    if s.len() < 12 {
        Err(ParseError::HeaderOutOfBounds)
    } else {
        records_from(s, num_tables(s), 0)
    }
}

proof fn lemma_records_from_in_bounds(s: Seq<u8>, count: int, i: int)
    requires
        0 <= i <= count,
        records_from(s, count, i) is Ok,
    ensures
        records_from(s, count, i)->Ok_0.len() == count - i,
        forall|j: int|
            0 <= j < count - i ==> {
                let m = #[trigger] records_from(s, count, i)->Ok_0[j];
                0 <= m.offset && m.offset + m.length <= s.len()
            },
    decreases count - i,
{
    if i < count {
        lemma_records_from_in_bounds(s, count, i + 1);
        let rest = records_from(s, count, i + 1)->Ok_0;
        let all = records_from(s, count, i)->Ok_0;
        assert forall|j: int| 0 <= j < count - i implies {
            let m = #[trigger] all[j];
            0 <= m.offset && m.offset + m.length <= s.len()
        } by {
            if j > 0 {
                assert(all[j] == rest[j - 1]);
            }
        }
    }
}

/// For every buffer that classifies as an SFNT kind and whose directory
/// decodes, the directory holds exactly as many records as the header
/// counts, and every record's `[offset, offset + length)` lies within the
/// buffer.
pub proof fn lemma_directory_in_bounds(s: Seq<u8>)
    requires
        classify(s) is Some,
        is_sfnt_kind(classify(s)->Some_0),
        directory(s) is Ok,
    ensures
        directory(s)->Ok_0.len() == num_tables(s),
        forall|i: int|
            0 <= i < directory(s)->Ok_0.len() ==> {
                let m = #[trigger] directory(s)->Ok_0[i];
                0 <= m.offset && m.offset + m.length <= s.len()
            },
{
    lemma_records_from_in_bounds(s, num_tables(s), 0);
}

/// One table record, with a copy of the table's bytes.
#[derive(Debug)]
pub struct TableRecord {
    pub tag: [u8; 4],
    pub checksum: u32,
    pub offset: usize,
    pub length: usize,
    pub table_data: Vec<u8>,
}

impl TableRecord {
    /// The plain values of the record.
    pub open spec fn model(&self) -> RecordModel {
        RecordModel {
            tag: self.tag@,
            checksum: self.checksum as int,
            offset: self.offset as int,
            length: self.length as int,
        }
    }

    /// The record states `m`, and its bytes are that range of `file`.
    pub open spec fn holds(&self, m: RecordModel, file: Seq<u8>) -> bool {
        &&& self.model() == m
        &&& self.table_data@ == file.subrange(m.offset, m.offset + m.length)
    }

    /// The tag as characters.
    pub fn tag_chars(&self) -> (r: [char; 4])
        ensures
            r@ == self.tag@.map_values(|b: u8| b as char),
    {
        let r = [self.tag[0] as char, self.tag[1] as char, self.tag[2] as char, self.tag[3] as char];
        assert(r@ =~= self.tag@.map_values(|b: u8| b as char));
        r
    }

    fn read_at(rec: &[u8], at: usize, file: &[u8]) -> (r: Result<TableRecord, ParseError>)
        ensures
            match r {
                Ok(t) => record_from(rec@, at as int, file@.len() as int) == Ok::<RecordModel, ParseError>(t.model())
                    && t.holds(t.model(), file@),
                Err(e) => record_from(rec@, at as int, file@.len() as int) == Err::<RecordModel, ParseError>(e),
            },
    {
        if !fits(rec.len(), at, TABLE_RECORD_LENGTH) {
            return Err(ParseError::RecordOutOfBounds);
        }
        let checksum = read_u32(rec, at + 4).unwrap();
        let offset = read_u32(rec, at + 8).unwrap() as usize;
        let length = read_u32(rec, at + 12).unwrap() as usize;
        if !fits(file.len(), offset, length) {
            return Err(ParseError::TableOutOfBounds);
        }
        let tag = [rec[at], rec[at + 1], rec[at + 2], rec[at + 3]];
        assert(tag@ =~= rec@.subrange(at as int, at as int + 4));
        let table_data = copy_range(file, offset, offset + length);
        Ok(TableRecord { tag, checksum, offset, length, table_data })
    }

    /// Decodes the 16-byte record at the start of `record_content`, taking
    /// its table bytes from `file_content`.
    pub fn deserialize(record_content: &[u8], file_content: &[u8]) -> (r: Result<TableRecord, ParseError>)
        ensures
            match r {
                Ok(t) => record_from(record_content@, 0, file_content@.len() as int) == Ok::<RecordModel, ParseError>(t.model())
                    && t.holds(t.model(), file_content@),
                Err(e) => record_from(record_content@, 0, file_content@.len() as int) == Err::<RecordModel, ParseError>(e),
            },
    {
        Self::read_at(record_content, 0, file_content)
    }
}

/// A decoded SFNT header and table directory.
#[derive(Debug)]
pub struct SfntFile {
    pub num_tables: u16,
    pub search_range: u16,
    pub entry_selector: u16,
    pub range_shift: u16,
    pub table_records: Vec<TableRecord>,
}

/// Each record holds the model at its position and the bytes of its range.
pub open spec fn records_hold(v: Seq<TableRecord>, ms: Seq<RecordModel>, file: Seq<u8>) -> bool {
    &&& v.len() == ms.len()
    &&& forall|i: int| 0 <= i < v.len() ==> #[trigger] v[i].holds(ms[i], file)
}

/// What decoding the directory of `s` gives: the first bounds error, or the
/// header fields and every record with its table bytes.
pub open spec fn sfnt_parsed(r: Result<SfntFile, ParseError>, s: Seq<u8>) -> bool {
    match r {
        Ok(f) => {
            &&& directory(s) is Ok
            &&& records_hold(f.table_records@, directory(s)->Ok_0, s)
            &&& f.num_tables as int == num_tables(s)
            &&& f.search_range as int == be_u16(s, 6)
            &&& f.entry_selector as int == be_u16(s, 8)
            &&& f.range_shift as int == be_u16(s, 10)
        },
        Err(e) => directory(s) == Err::<Seq<RecordModel>, ParseError>(e),
    }
}

impl SfntFile {
    /// Decodes the header and every table record; fails with the first
    /// bounds error, in directory order.
    pub fn deserialize(content: &[u8]) -> (r: Result<SfntFile, ParseError>)
        ensures
            sfnt_parsed(r, content@),
    {
        if content.len() < TABLE_RECORDS_OFFSET {
            return Err(ParseError::HeaderOutOfBounds);
        }
        let table_records = match Self::parse_table_records(content) {
            Ok(v) => v,
            Err(e) => return Err(e),
        };
        Ok(SfntFile {
            num_tables: read_u16(content, 4).unwrap(),
            search_range: read_u16(content, 6).unwrap(),
            entry_selector: read_u16(content, 8).unwrap(),
            range_shift: read_u16(content, 10).unwrap(),
            table_records,
        })
    }

    /// Decodes the `n`-th table record of the directory in `content`.
    pub fn parse_nth_table_record(content: &[u8], n: usize) -> (r: Result<TableRecord, ParseError>)
        ensures
            match r {
                Ok(t) => nth_record(content@, n as int) == Ok::<RecordModel, ParseError>(t.model())
                    && t.holds(t.model(), content@),
                Err(e) => nth_record(content@, n as int) == Err::<RecordModel, ParseError>(e),
            },
    {
        if n > (usize::MAX - TABLE_RECORDS_OFFSET) / TABLE_RECORD_LENGTH {
            let len = content.len();
            proof {
                let q = (usize::MAX - 12) as int / 16;
                assert(n as int >= q + 1);
                assert(16 * (n as int) >= 16 * q + 16) by (nonlinear_arith)
                    requires n as int >= q + 1;
                assert(16 * q + 16 > usize::MAX - 12) by (nonlinear_arith)
                    requires q == (usize::MAX - 12) as int / 16;
            }
            return Err(ParseError::RecordOutOfBounds);
        }
        TableRecord::read_at(content, TABLE_RECORDS_OFFSET + n * TABLE_RECORD_LENGTH, content)
    }

    /// Decodes all the table records that the header counts.
    pub fn parse_table_records(content: &[u8]) -> (r: Result<Vec<TableRecord>, ParseError>)
        ensures
            match r {
                Ok(v) => directory(content@) is Ok && records_hold(v@, directory(content@)->Ok_0, content@),
                Err(e) => directory(content@) == Err::<Seq<RecordModel>, ParseError>(e),
            },
    {
        if content.len() < TABLE_RECORDS_OFFSET {
            return Err(ParseError::HeaderOutOfBounds);
        }
        let count = read_u16(content, 4).unwrap() as usize;
        let mut records: Vec<TableRecord> = Vec::new();
        let ghost mut models: Seq<RecordModel> = Seq::empty();
        let mut i: usize = 0;
        while i < count
            invariant
                content@.len() >= 12,
                count as int == num_tables(content@),
                i <= count,
                records_hold(records@, models, content@),
                records_from(content@, count as int, 0) == match records_from(content@, count as int, i as int) {
                    Ok(rest) => Ok(models + rest),
                    Err(e) => Err::<Seq<RecordModel>, ParseError>(e),
                },
            decreases count - i,
        {
            let rec = Self::parse_nth_table_record(content, i);
            match rec {
                Ok(t) => {
                    proof {
                        assert(models + (seq![t.model()] + records_from(content@, count as int, i + 1)->Ok_0)
                            =~= models.push(t.model()) + records_from(content@, count as int, i + 1)->Ok_0);
                        models = models.push(t.model());
                    }
                    records.push(t);
                },
                Err(e) => {
                    return Err(e);
                },
            }
            i = i + 1;
        }
        proof {
            assert(models + Seq::<RecordModel>::empty() =~= models);
        }
        Ok(records)
    }
}

} // verus!
