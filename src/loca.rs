//! The `loca` table: the byte range of each glyph within the `glyf` table.
//!
//! The range of the last glyph ends at the length of the `glyf` table rather
//! than at the trailing entry of `loca`; the two agree in a well-formed font,
//! which stores that length as its trailing entry. The trailing entry is not
//! read.
use vstd::prelude::*;
use crate::bytes::{be_u16, be_u32, fits, read_u16, read_u32};
use crate::head::IndexToLocFormat;

verus! {

/// `loca` decoding and lookup errors.
#[derive(Clone, Copy, Debug, PartialEq, Eq, Structural)]
pub enum ParseError {
    /// The offset-width selector is neither short nor long.
    UnknownFormat,
    /// The table holds fewer entries than there are glyphs.
    OutOfBounds,
    /// A glyph index at or past the glyph count.
    IndexOutOfRange,
    /// A glyph whose range would end before it starts.
    InvalidRange,
    /// `head` or `maxp` is absent or failed to decode.
    MissingDependency,
}

/// A byte range within the `glyf` table.
#[derive(Clone, Copy, Debug, PartialEq, Eq, Structural)]
pub struct Location {
    pub offset: usize,
    pub length: usize,
}

/// The width in bytes of one entry.
pub open spec fn entry_width(f: IndexToLocFormat) -> int {
    match f {
        IndexToLocFormat::ShortOffset => 2,
        _ => 4,
    }
}

/// The offset that entry `i` of `s` stores: short entries are stored halved.
pub open spec fn entry(s: Seq<u8>, f: IndexToLocFormat, i: int) -> int {
    match f {
        IndexToLocFormat::ShortOffset => 2 * be_u16(s, 2 * i),
        _ => be_u32(s, 4 * i),
    }
}

/// What decoding a `loca` table `s` gives for the selector, glyph count and
/// `glyf` length: an unknown selector or a short table is an error, else one
/// offset per glyph as stored.
pub open spec fn loca_parsed(r: Result<LocaTable, ParseError>, s: Seq<u8>, version: IndexToLocFormat, num_glyphs: u16, glyf_len: usize) -> bool {
    match r {
        Ok(t) => {
            &&& !(version is Unknown)
            &&& num_glyphs as int * entry_width(version) <= s.len()
            &&& t.wf()
            &&& t.num_glyphs == num_glyphs
            &&& t.glyf_len == glyf_len
            &&& forall|i: int| 0 <= i < num_glyphs ==> #[trigger] t.offsets@[i] as int == entry(s, version, i)
        },
        Err(e) => {
            &&& version is Unknown ==> e == ParseError::UnknownFormat
            &&& !(version is Unknown) ==> e == ParseError::OutOfBounds
                && num_glyphs as int * entry_width(version) > s.len()
        },
    }
}

pub struct LocaTable {
    pub num_glyphs: u16,
    pub offsets: Vec<usize>,
    pub glyf_len: usize,
}

impl LocaTable {
    /// One offset per glyph.
    pub open spec fn wf(&self) -> bool {
        self.offsets@.len() == self.num_glyphs as int
    }

    /// Where the range of glyph `i` ends: the next glyph's offset, or the
    /// `glyf` length for the last glyph.
    pub open spec fn end_of(&self, i: int) -> int {
        if i + 1 < self.num_glyphs as int {
            self.offsets@[i + 1] as int
        } else {
            self.glyf_len as int
        }
    }

    /// `r` is what looking up glyph `idx` gives: its range, a bounds error
    /// past the glyph count, or an invalid-range error for a range that
    /// would end before it starts.
    pub open spec fn indexed(&self, idx: int, r: Result<Location, ParseError>) -> bool {
        match r {
            Ok(loc) => {
                &&& 0 <= idx < self.num_glyphs
                &&& loc.offset == self.offsets@[idx]
                &&& loc.length as int == self.end_of(idx) - self.offsets@[idx]
            },
            Err(e) => {
                &&& idx >= self.num_glyphs ==> e == ParseError::IndexOutOfRange
                &&& idx < self.num_glyphs ==> e == ParseError::InvalidRange && self.end_of(idx) < self.offsets@[idx]
            },
        }
    }

    /// Reads one offset per glyph from `table_data`.
    pub fn parse(table_data: &[u8], version: IndexToLocFormat, num_glyphs: u16, glyf_len: usize) -> (r: Result<LocaTable, ParseError>)
        ensures
            loca_parsed(r, table_data@, version, num_glyphs, glyf_len),
    {
        let width: usize = match version {
            IndexToLocFormat::ShortOffset => 2,
            IndexToLocFormat::LongOffset => 4,
            IndexToLocFormat::Unknown(_) => return Err(ParseError::UnknownFormat),
        };
        let n = num_glyphs as usize;
        if !fits(table_data.len() / width, 0, n) {
            assert(n * width > table_data@.len()) by (nonlinear_arith)
                requires n > (table_data@.len() as int) / (width as int), width > 0;
            return Err(ParseError::OutOfBounds);
        }
        assert(n * width <= table_data@.len()) by (nonlinear_arith)
            requires n <= (table_data@.len() as int) / (width as int), width > 0;
        let mut offsets: Vec<usize> = Vec::new();
        let mut i: usize = 0;
        while i < n
            invariant
                i <= n,
                n == num_glyphs as usize,
                n * width <= table_data@.len(),
                width == entry_width(version),
                !(version is Unknown),
                offsets@.len() == i,
                forall|j: int| 0 <= j < i ==> #[trigger] offsets@[j] as int == entry(table_data@, version, j),
            decreases n - i,
        {
            assert((i + 1) * width <= n * width) by (nonlinear_arith)
                requires i + 1 <= n, width > 0;
            let value = Self::value_at(table_data, version, i);
            offsets.push(value);
            i = i + 1;
        }
        Ok(LocaTable { num_glyphs, offsets, glyf_len })
    }

    /// The offset stored in entry `idx`.
    fn value_at(table_data: &[u8], version: IndexToLocFormat, idx: usize) -> (r: usize)
        requires
            !(version is Unknown),
            (idx + 1) * entry_width(version) <= table_data@.len(),
        ensures
            r as int == entry(table_data@, version, idx as int),
    {
        let len = table_data.len();
        assert(idx * entry_width(version) + entry_width(version) <= len) by (nonlinear_arith)
            requires (idx + 1) * entry_width(version) <= len, entry_width(version) > 0;
        match version {
            IndexToLocFormat::LongOffset => read_u32(table_data, idx * 4).unwrap() as usize,
            _ => read_u16(table_data, idx * 2).unwrap() as usize * 2,
        }
    }

    /// The byte range of glyph `idx`: from its offset to the next glyph's
    /// offset, or to the end of `glyf` for the last glyph.
    pub fn index(&self, idx: usize) -> (r: Result<Location, ParseError>)
        requires
            self.wf(),
        ensures
            self.indexed(idx as int, r),
    {
        if idx >= self.offsets.len() {
            return Err(ParseError::IndexOutOfRange);
        }
        let offset = self.offsets[idx];
        let end = if idx + 1 < self.offsets.len() {
            self.offsets[idx + 1]
        } else {
            self.glyf_len
        };
        if end < offset {
            return Err(ParseError::InvalidRange);
        }
        Ok(Location { offset, length: end - offset })
    }

    /// The range of every glyph, in glyph order.
    pub fn locations(&self) -> (r: Vec<Result<Location, ParseError>>)
        requires
            self.wf(),
        ensures
            r@.len() == self.num_glyphs,
            forall|i: int| 0 <= i < r@.len() ==> self.indexed(i, #[trigger] r@[i]),
    {
        let mut out: Vec<Result<Location, ParseError>> = Vec::new();
        let mut i: usize = 0;
        while i < self.offsets.len()
            invariant
                self.wf(),
                i <= self.num_glyphs,
                out@.len() == i,
                forall|j: int| 0 <= j < i ==> self.indexed(j, #[trigger] out@[j]),
            decreases self.num_glyphs - i,
        {
            out.push(self.index(i));
            i = i + 1;
        }
        out
    }
}

/// For a table decoded from `s`: an in-range index gives the range from its
/// entry to the next entry, with that length (for the last glyph, to the end
/// of `glyf`); an index at or past the glyph count gives a bounds error.
pub proof fn lemma_index_ranges(
    s: Seq<u8>,
    version: IndexToLocFormat,
    num_glyphs: u16,
    glyf_len: usize,
    t: LocaTable,
    idx: usize,
    r: Result<Location, ParseError>,
)
    requires
        loca_parsed(Ok(t), s, version, num_glyphs, glyf_len),
        t.indexed(idx as int, r),
    ensures
        idx >= num_glyphs ==> r == Err::<Location, ParseError>(ParseError::IndexOutOfRange),
        idx + 1 < num_glyphs && entry(s, version, idx as int) <= entry(s, version, idx + 1) ==> r is Ok
            && r->Ok_0.offset == entry(s, version, idx as int)
            && r->Ok_0.length == entry(s, version, idx + 1) - entry(s, version, idx as int),
        idx + 1 == num_glyphs && entry(s, version, idx as int) <= glyf_len ==> r is Ok
            && r->Ok_0.offset == entry(s, version, idx as int)
            && r->Ok_0.length == glyf_len - entry(s, version, idx as int),
{
    if idx + 1 < num_glyphs {
        assert(t.offsets@[idx + 1] as int == entry(s, version, idx + 1));
    }
    if idx < num_glyphs {
        assert(t.offsets@[idx as int] as int == entry(s, version, idx as int));
    }
}

} // verus!
