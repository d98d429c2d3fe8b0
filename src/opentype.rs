//! The table dispatcher: table tags mapped to table identities, and the
//! tables of an SFNT file decoded in dependency order.
use vstd::prelude::*;
use crate::bytes::{be_u32, read_u32};
use crate::cmap::{cmap_parsed, CmapTable};
use crate::glyf::{glyph_at_ok, GlyfTable, Glyph};
use crate::head::{head_parsed, HeadTable};
use crate::loca::{loca_parsed, LocaTable, Location};
use crate::maxp::{maxp_parsed, MaxpTable};
use crate::name::{name_parsed, NameTable};
use crate::sfnt::{directory, sfnt_parsed, ParseError, RecordModel, SfntFile};
use crate::loca;

verus! {

/// The table identities, with a catch-all for unknown tags.
#[derive(Clone, Copy, Debug, PartialEq, Eq, Structural)]
pub enum TableType {
    /// Axis variations table (`avar`).
    Avar,
    /// Baseline table (`BASE`).
    Base,
    /// Color bitmap data table (`CBDT`).
    Cbdt,
    /// Color bitmap location table (`CBLC`).
    Cblc,
    /// Compact font format (CFF) table (`CFF `).
    Cff,
    /// Compact font format (CFF) version 2 table (`CFF2`).
    Cff2,
    /// Character to glyph index mapping table (`cmap`).
    Cmap,
    /// Color table (`COLR`).
    Colr,
    /// Color palette table (`CPAL`).
    Cpal,
    /// CVT variations table (`cvar`).
    Cvar,
    /// Control value table (`cvt `).
    Cvt,
    /// Digital signature table (`DSIG`).
    Dsig,
    /// Embedded bitmap data table (`EBDT`).
    Ebdt,
    /// Embedded bitmap location table (`EBLC`).
    Eblc,
    /// Embedded bitmap scaling table (`EBSC`).
    Ebsc,
    /// Font program table (`fpgm`).
    Fpgm,
    /// Font variations table (`fvar`).
    Fvar,
    /// Grid-fitted and scan-conversion procedure table (`gasp`).
    Gasp,
    /// Glyph definition table (`GDEF`).
    Gdef,
    /// Glyph data table (`glyf`).
    Glyf,
    /// Glyph positioning table (`GPOS`).
    Gpos,
    /// Glyph substitution table (`GSUB`).
    Gsub,
    /// Glyph variations table (`gvar`).
    Gvar,
    /// Horizontal device metrics table (`hdmx`).
    Hdmx,
    /// Font header table (`head`).
    Head,
    /// Horizontal header table (`hhea`).
    Hhea,
    /// Horizontal metrics table (`hmtx`).
    Hmtx,
    /// Horizontal metrics variations table (`HVAR`).
    Hvar,
    /// Justification table (`JSTF`).
    Jstf,
    /// Kerning table (`kern`).
    Kern,
    /// Index to location table (`loca`).
    Loca,
    /// Linear threshold table (`LTSH`).
    Ltsh,
    /// Mathematical typesetting table (`MATH`).
    Math,
    /// Maximum profile table (`maxp`).
    Maxp,
    /// Merge table (`MERG`).
    Merg,
    /// Metadata table (`meta`).
    Meta,
    /// Metrics variations table (`MVAR`).
    Mvar,
    /// Naming table (`name`).
    Name,
    /// OS/2 and Windows metrics table (`OS/2`).
    Os2,
    /// PCL 5 table (`PCLT`).
    Pclt,
    /// PostScript table (`post`).
    Post,
    /// Control value program table (`prep`).
    Prep,
    /// Standard bitmap graphics table (`sbix`).
    Sbix,
    /// Style attributes table (`STAT`).
    Stat,
    /// SVG table (`SVG `).
    Svg,
    /// Vertical device metrics table (`VDMX`).
    Vdmx,
    /// Vertical header table (`vhea`).
    Vhea,
    /// Vertical metrics table (`vmtx`).
    Vmtx,
    /// Vertical origin table (`VORG`).
    Vorg,
    /// Vertical metrics variations table (`VVAR`).
    Vvar,
    /// Any tag not listed above.
    Unknown,
}

/// The four tag bytes of a known table, read as a big-endian number.
pub open spec fn tag_key(t: TableType) -> int {
    match t {
        TableType::Avar => 0x61766172,
        TableType::Base => 0x42415345,
        TableType::Cbdt => 0x43424454,
        TableType::Cblc => 0x43424C43,
        TableType::Cff => 0x43464620,
        TableType::Cff2 => 0x43464632,
        TableType::Cmap => 0x636D6170,
        TableType::Colr => 0x434F4C52,
        TableType::Cpal => 0x4350414C,
        TableType::Cvar => 0x63766172,
        TableType::Cvt => 0x63767420,
        TableType::Dsig => 0x44534947,
        TableType::Ebdt => 0x45424454,
        TableType::Eblc => 0x45424C43,
        TableType::Ebsc => 0x45425343,
        TableType::Fpgm => 0x6670676D,
        TableType::Fvar => 0x66766172,
        TableType::Gasp => 0x67617370,
        TableType::Gdef => 0x47444546,
        TableType::Glyf => 0x676C7966,
        TableType::Gpos => 0x47504F53,
        TableType::Gsub => 0x47535542,
        TableType::Gvar => 0x67766172,
        TableType::Hdmx => 0x68646D78,
        TableType::Head => 0x68656164,
        TableType::Hhea => 0x68686561,
        TableType::Hmtx => 0x686D7478,
        TableType::Hvar => 0x48564152,
        TableType::Jstf => 0x4A535446,
        TableType::Kern => 0x6B65726E,
        TableType::Loca => 0x6C6F6361,
        TableType::Ltsh => 0x4C545348,
        TableType::Math => 0x4D415448,
        TableType::Maxp => 0x6D617870,
        TableType::Merg => 0x4D455247,
        TableType::Meta => 0x6D657461,
        TableType::Mvar => 0x4D564152,
        TableType::Name => 0x6E616D65,
        TableType::Os2 => 0x4F532F32,
        TableType::Pclt => 0x50434C54,
        TableType::Post => 0x706F7374,
        TableType::Prep => 0x70726570,
        TableType::Sbix => 0x73626978,
        TableType::Stat => 0x53544154,
        TableType::Svg => 0x53564720,
        TableType::Vdmx => 0x56444D58,
        TableType::Vhea => 0x76686561,
        TableType::Vmtx => 0x766D7478,
        TableType::Vorg => 0x564F5247,
        TableType::Vvar => 0x56564152,
        TableType::Unknown => -1,
    }
}

pub const HEAD_KEY: u32 = 0x68656164;
pub const MAXP_KEY: u32 = 0x6D617870;
pub const LOCA_KEY: u32 = 0x6C6F6361;
pub const GLYF_KEY: u32 = 0x676C7966;
pub const CMAP_KEY: u32 = 0x636D6170;
pub const NAME_KEY: u32 = 0x6E616D65;

impl TableType {
    /// The identity of the table with tag `tag`: the known table whose tag
    /// it is, or `Unknown` when it is none of them.
    pub fn table_type(tag: [u8; 4]) -> (r: TableType)
        ensures
            r != TableType::Unknown ==> tag_key(r) == be_u32(tag@, 0),
            r == TableType::Unknown ==> forall|t: TableType| #[trigger] tag_key(t) != be_u32(tag@, 0),
    {
        let key = read_u32(tag.as_slice(), 0).unwrap();
        Self::from_key(key)
    }

    fn from_key(key: u32) -> (r: TableType)
        ensures
            r != TableType::Unknown ==> tag_key(r) == key,
            r == TableType::Unknown ==> forall|t: TableType| #[trigger] tag_key(t) != key,
    {
        match key {
            0x61766172 => TableType::Avar,
            0x42415345 => TableType::Base,
            0x43424454 => TableType::Cbdt,
            0x43424C43 => TableType::Cblc,
            0x43464620 => TableType::Cff,
            0x43464632 => TableType::Cff2,
            0x636D6170 => TableType::Cmap,
            0x434F4C52 => TableType::Colr,
            0x4350414C => TableType::Cpal,
            0x63766172 => TableType::Cvar,
            0x63767420 => TableType::Cvt,
            0x44534947 => TableType::Dsig,
            0x45424454 => TableType::Ebdt,
            0x45424C43 => TableType::Eblc,
            0x45425343 => TableType::Ebsc,
            0x6670676D => TableType::Fpgm,
            0x66766172 => TableType::Fvar,
            0x67617370 => TableType::Gasp,
            0x47444546 => TableType::Gdef,
            0x676C7966 => TableType::Glyf,
            0x47504F53 => TableType::Gpos,
            0x47535542 => TableType::Gsub,
            0x67766172 => TableType::Gvar,
            0x68646D78 => TableType::Hdmx,
            0x68656164 => TableType::Head,
            0x68686561 => TableType::Hhea,
            0x686D7478 => TableType::Hmtx,
            0x48564152 => TableType::Hvar,
            0x4A535446 => TableType::Jstf,
            0x6B65726E => TableType::Kern,
            0x6C6F6361 => TableType::Loca,
            0x4C545348 => TableType::Ltsh,
            0x4D415448 => TableType::Math,
            0x6D617870 => TableType::Maxp,
            0x4D455247 => TableType::Merg,
            0x6D657461 => TableType::Meta,
            0x4D564152 => TableType::Mvar,
            0x6E616D65 => TableType::Name,
            0x4F532F32 => TableType::Os2,
            0x50434C54 => TableType::Pclt,
            0x706F7374 => TableType::Post,
            0x70726570 => TableType::Prep,
            0x73626978 => TableType::Sbix,
            0x53544154 => TableType::Stat,
            0x53564720 => TableType::Svg,
            0x56444D58 => TableType::Vdmx,
            0x76686561 => TableType::Vhea,
            0x766D7478 => TableType::Vmtx,
            0x564F5247 => TableType::Vorg,
            0x56564152 => TableType::Vvar,
            _ => TableType::Unknown,
        }
    }
}

/// The index of the last of the first `n` records whose tag is `key`.
pub open spec fn last_with_key(ms: Seq<RecordModel>, key: int, n: int) -> Option<int>
    decreases n,
{
    if n <= 0 {
        None
    } else if be_u32(ms[n - 1].tag, 0) == key {
        Some(n - 1)
    } else {
        last_with_key(ms, key, n - 1)
    }
}

proof fn lemma_last_with_key_range(ms: Seq<RecordModel>, key: int, n: int)
    ensures
        last_with_key(ms, key, n) is Some ==> 0 <= last_with_key(ms, key, n)->Some_0 < n,
    decreases n,
{
    if n > 0 {
        lemma_last_with_key_range(ms, key, n - 1);
    }
}

/// An index as an integer.
pub open spec fn index_view(o: Option<usize>) -> Option<int> {
    match o {
        Some(k) => Some(k as int),
        None => None,
    }
}

/// The bytes of the table tagged `key` in `s`; where a tag occurs twice, the
/// last record wins.
pub open spec fn table_bytes(s: Seq<u8>, key: int) -> Option<Seq<u8>> {
    let ms = directory(s)->Ok_0;
    match last_with_key(ms, key, ms.len() as int) {
        Some(i) => Some(s.subrange(ms[i].offset, ms[i].offset + ms[i].length)),
        None => None,
    }
}

/// The length of the `glyf` table of `s`, zero without one.
pub open spec fn glyf_length(s: Seq<u8>) -> int {
    match table_bytes(s, GLYF_KEY as int) {
        Some(b) => b.len() as int,
        None => 0,
    }
}

/// The byte range of glyph `idx` that `loca` gives, if it gives one.
pub open spec fn glyph_location(t: LocaTable, idx: int) -> Option<Location> {
    if 0 <= idx < t.num_glyphs && t.end_of(idx) >= t.offsets@[idx] {
        Some(Location { offset: t.offsets@[idx], length: (t.end_of(idx) - t.offsets@[idx]) as usize })
    } else {
        None
    }
}

/// The tables of an SFNT file. A slot is `None` when the table is absent,
/// and holds the table or its decoding error otherwise.
pub struct OpenTypeFile {
    pub sfnt: SfntFile,
    pub cmap: Option<Result<CmapTable, crate::cmap::ParseError>>,
    pub glyf: Option<GlyfTable>,
    pub head: Option<Result<HeadTable, crate::head::ParseError>>,
    pub loca: Option<Result<LocaTable, loca::ParseError>>,
    pub maxp: Option<Result<MaxpTable, crate::maxp::ParseError>>,
    pub name: Option<Result<NameTable, crate::name::ParseError>>,
}

impl OpenTypeFile {
    /// The glyph count, when `loca` decoded.
    pub open spec fn glyph_count(&self) -> Option<u16> {
        match self.loca {
            Some(Ok(t)) => Some(t.num_glyphs),
            _ => None,
        }
    }

    /// `r` is what looking up glyph `idx` gives: a glyph exactly when `loca`
    /// decoded and `glyf` is present, `loca` gives a non-empty range for the
    /// index, and the glyph data there decodes.
    pub open spec fn glyph_found(&self, idx: int, r: Option<Glyph>) -> bool {
        match (self.loca, self.glyf) {
            (Some(Ok(t)), Some(g)) => match glyph_location(t, idx) {
                Some(loc) => {
                    &&& (r is Some <==> loc.length > 0 && glyph_at_ok(g.data@, loc))
                    &&& (r is Some ==> r->Some_0.decodes(g.data@.subrange(loc.offset as int, loc.offset + loc.length)))
                },
                None => r is None,
            },
            _ => r is None,
        }
    }

    pub fn num_glyphs(&self) -> (r: Option<u16>)
        ensures
            r == self.glyph_count(),
    {
        match &self.loca {
            Some(Ok(t)) => Some(t.num_glyphs),
            _ => None,
        }
    }

    /// The outline of glyph `idx`: `None` when `loca` or `glyf` is not
    /// available, when the index or its range is invalid, when the glyph is
    /// empty, or when its data does not decode.
    pub fn lookup_glyph(&self, idx: usize) -> (r: Option<Glyph>)
        requires
            self.loca matches Some(Ok(t)) ==> t.wf(),
        ensures
            self.glyph_found(idx as int, r),
    {
        let loca = match &self.loca {
            Some(Ok(t)) => t,
            _ => return None,
        };
        let glyf = match &self.glyf {
            Some(g) => g,
            None => return None,
        };
        let loc = match loca.index(idx) {
            Ok(l) => l,
            Err(_) => return None,
        };
        match glyf.read_glyph(loc) {
            Ok(Some(g)) => Some(g),
            _ => None,
        }
    }

    /// Every slot holds what its decoder gives on the table's bytes in `s`;
    /// `loca` needs `head` and `maxp` to have decoded.
    pub open spec fn decodes(&self, s: Seq<u8>) -> bool {
        &&& sfnt_parsed(Ok(self.sfnt), s)
        &&& match table_bytes(s, HEAD_KEY as int) {
            None => self.head is None,
            Some(b) => self.head is Some && head_parsed(self.head->Some_0, b),
        }
        &&& match table_bytes(s, MAXP_KEY as int) {
            None => self.maxp is None,
            Some(b) => self.maxp is Some && maxp_parsed(self.maxp->Some_0, b),
        }
        &&& match table_bytes(s, CMAP_KEY as int) {
            None => self.cmap is None,
            Some(b) => self.cmap is Some && cmap_parsed(self.cmap->Some_0, b),
        }
        &&& match table_bytes(s, NAME_KEY as int) {
            None => self.name is None,
            Some(b) => self.name is Some && name_parsed(self.name->Some_0, b),
        }
        &&& match table_bytes(s, GLYF_KEY as int) {
            None => self.glyf is None,
            Some(b) => self.glyf is Some && self.glyf->Some_0.data@ == b,
        }
        &&& match table_bytes(s, LOCA_KEY as int) {
            None => self.loca is None,
            Some(b) => self.loca is Some && match (self.head, self.maxp) {
                (Some(Ok(h)), Some(Ok(m))) => loca_parsed(
                    self.loca->Some_0,
                    b,
                    h.index_to_loc_fmt,
                    m.num_glyphs,
                    glyf_length(s) as usize,
                ),
                _ => self.loca->Some_0 == Err::<LocaTable, loca::ParseError>(loca::ParseError::MissingDependency),
            },
        }
    }

    /// Parses the directory, then decodes `head`, `maxp`, `cmap`, `name` and
    /// `glyf`, then `loca` from `head` and `maxp`. A table that fails to
    /// decode leaves the others available.
    pub fn deserialize(content: &[u8]) -> (r: Result<OpenTypeFile, ParseError>)
        ensures
            r is Ok <==> directory(content@) is Ok,
            r is Err ==> directory(content@) == Err::<Seq<RecordModel>, ParseError>(r->Err_0),
            r is Ok ==> r->Ok_0.decodes(content@),
    {
        let sfnt = match SfntFile::deserialize(content) {
            Ok(f) => f,
            Err(e) => return Err(e),
        };
        let ghost ms = directory(content@)->Ok_0;
        let records = &sfnt.table_records;
        let mut cmap_idx: Option<usize> = None;
        let mut glyf_idx: Option<usize> = None;
        let mut head_idx: Option<usize> = None;
        let mut loca_idx: Option<usize> = None;
        let mut maxp_idx: Option<usize> = None;
        let mut name_idx: Option<usize> = None;
        let mut i: usize = 0;
        while i < records.len()
            invariant
                crate::sfnt::records_hold(records@, ms, content@),
                i <= records@.len(),
                index_view(cmap_idx) == last_with_key(ms, CMAP_KEY as int, i as int),
                index_view(glyf_idx) == last_with_key(ms, GLYF_KEY as int, i as int),
                index_view(head_idx) == last_with_key(ms, HEAD_KEY as int, i as int),
                index_view(loca_idx) == last_with_key(ms, LOCA_KEY as int, i as int),
                index_view(maxp_idx) == last_with_key(ms, MAXP_KEY as int, i as int),
                index_view(name_idx) == last_with_key(ms, NAME_KEY as int, i as int),
            decreases records@.len() - i,
        {
            let table_type = TableType::table_type(records[i].tag);
            assert(records@[i as int].holds(ms[i as int], content@));
            assert(tag_key(TableType::Cmap) == CMAP_KEY as int);
            assert(tag_key(TableType::Glyf) == GLYF_KEY as int);
            assert(tag_key(TableType::Head) == HEAD_KEY as int);
            assert(tag_key(TableType::Loca) == LOCA_KEY as int);
            assert(tag_key(TableType::Maxp) == MAXP_KEY as int);
            assert(tag_key(TableType::Name) == NAME_KEY as int);
            match table_type {
                TableType::Cmap => cmap_idx = Some(i),
                TableType::Glyf => glyf_idx = Some(i),
                TableType::Head => head_idx = Some(i),
                TableType::Loca => loca_idx = Some(i),
                TableType::Maxp => maxp_idx = Some(i),
                TableType::Name => name_idx = Some(i),
                _ => {},
            }
            i = i + 1;
        }
        proof {
            let n = ms.len() as int;
            lemma_last_with_key_range(ms, CMAP_KEY as int, n);
            lemma_last_with_key_range(ms, GLYF_KEY as int, n);
            lemma_last_with_key_range(ms, HEAD_KEY as int, n);
            lemma_last_with_key_range(ms, LOCA_KEY as int, n);
            lemma_last_with_key_range(ms, MAXP_KEY as int, n);
            lemma_last_with_key_range(ms, NAME_KEY as int, n);
        }
        let cmap = match cmap_idx {
            Some(k) => {
                assert(records@[k as int].holds(ms[k as int], content@));
                Some(CmapTable::deserialize(records[k].table_data.as_slice()))
            },
            None => None,
        };
        let glyf = match glyf_idx {
            Some(k) => {
                assert(records@[k as int].holds(ms[k as int], content@));
                Some(GlyfTable::parse(records[k].table_data.as_slice()))
            },
            None => None,
        };
        let head = match head_idx {
            Some(k) => {
                assert(records@[k as int].holds(ms[k as int], content@));
                Some(HeadTable::parse(records[k].table_data.as_slice()))
            },
            None => None,
        };
        let maxp = match maxp_idx {
            Some(k) => {
                assert(records@[k as int].holds(ms[k as int], content@));
                Some(MaxpTable::parse(records[k].table_data.as_slice()))
            },
            None => None,
        };
        let name = match name_idx {
            Some(k) => {
                assert(records@[k as int].holds(ms[k as int], content@));
                Some(NameTable::deserialize(records[k].table_data.as_slice()))
            },
            None => None,
        };
        let glyf_len: usize = match glyf_idx {
            Some(k) => {
                assert(records@[k as int].holds(ms[k as int], content@));
                records[k].table_data.len()
            },
            None => 0,
        };
        let loca = match loca_idx {
            Some(k) => {
                assert(records@[k as int].holds(ms[k as int], content@));
                let parsed = match (&head, &maxp) {
                    (Some(Ok(h)), Some(Ok(m))) => LocaTable::parse(
                        records[k].table_data.as_slice(),
                        h.index_to_loc_fmt,
                        m.num_glyphs,
                        glyf_len,
                    ),
                    _ => Err(loca::ParseError::MissingDependency),
                };
                Some(parsed)
            },
            None => None,
        };
        Ok(OpenTypeFile { sfnt, cmap, glyf, head, loca, maxp, name })
    }
}

/// The values a `cmap` slot holds.
pub open spec fn cmap_view(c: Option<Result<CmapTable, crate::cmap::ParseError>>) -> Option<Result<(u16, Seq<crate::cmap::EncodingRecord>), crate::cmap::ParseError>> {
    match c {
        Some(Ok(t)) => Some(Ok((t.num_tables, t.encoding_records@))),
        Some(Err(e)) => Some(Err(e)),
        None => None,
    }
}

/// The values a `name` slot holds.
pub open spec fn name_view(c: Option<Result<NameTable, crate::name::ParseError>>) -> Option<Result<(crate::name::Format, u16, usize, Seq<crate::name::NameRecord>, Seq<Seq<u8>>), crate::name::ParseError>> {
    match c {
        Some(Ok(t)) => Some(Ok((t.format, t.count, t.string_offset, t.name_records@, t.strings@.map_values(|v: Vec<u8>| v@)))),
        Some(Err(e)) => Some(Err(e)),
        None => None,
    }
}

/// The values a `loca` slot holds.
pub open spec fn loca_view(c: Option<Result<LocaTable, loca::ParseError>>) -> Option<Result<(u16, Seq<usize>, usize), loca::ParseError>> {
    match c {
        Some(Ok(t)) => Some(Ok((t.num_glyphs, t.offsets@, t.glyf_len))),
        Some(Err(e)) => Some(Err(e)),
        None => None,
    }
}

/// The values a `glyf` slot holds.
pub open spec fn glyf_view(c: Option<GlyfTable>) -> Option<Seq<u8>> {
    match c {
        Some(g) => Some(g.data@),
        None => None,
    }
}

/// Two decoded files hold the same values in every table slot.
pub open spec fn same_tables(a: OpenTypeFile, b: OpenTypeFile) -> bool {
    &&& a.head == b.head
    &&& a.maxp == b.maxp
    &&& cmap_view(a.cmap) == cmap_view(b.cmap)
    &&& name_view(a.name) == name_view(b.name)
    &&& loca_view(a.loca) == loca_view(b.loca)
    &&& glyf_view(a.glyf) == glyf_view(b.glyf)
}

proof fn lemma_head_unique(s: Seq<u8>, a: Result<HeadTable, crate::head::ParseError>, b: Result<HeadTable, crate::head::ParseError>)
    requires
        head_parsed(a, s),
        head_parsed(b, s),
    ensures
        a == b,
{
    if a is Ok {
        let (x, y) = (a->Ok_0, b->Ok_0);
        assert(x.font_revision == y.font_revision);
        assert(x.font_dir_hint == y.font_dir_hint);
        assert(x.index_to_loc_fmt == y.index_to_loc_fmt);
        assert(x.glyph_data_fmt == y.glyph_data_fmt);
        assert(x == y);
    } else {
        assert(a->Err_0 == b->Err_0);
    }
}

proof fn lemma_maxp_unique(s: Seq<u8>, a: Result<MaxpTable, crate::maxp::ParseError>, b: Result<MaxpTable, crate::maxp::ParseError>)
    requires
        maxp_parsed(a, s),
        maxp_parsed(b, s),
    ensures
        a == b,
{
    if a is Ok {
        let (x, y) = (a->Ok_0, b->Ok_0);
        assert(x.version == y.version);
        if x.limits is Some {
            assert(x.limits->Some_0 == y.limits->Some_0);
        }
        assert(x == y);
    } else {
        assert(a->Err_0 == b->Err_0);
    }
}

proof fn lemma_cmap_unique(s: Seq<u8>, a: Result<CmapTable, crate::cmap::ParseError>, b: Result<CmapTable, crate::cmap::ParseError>)
    requires
        cmap_parsed(a, s),
        cmap_parsed(b, s),
    ensures
        cmap_view(Some(a)) == cmap_view(Some(b)),
{
    if a is Ok {
        let (x, y) = (a->Ok_0, b->Ok_0);
        assert forall|i: int| 0 <= i < x.num_tables implies x.encoding_records@[i] == y.encoding_records@[i] by {
            let (r1, r2) = (x.encoding_records@[i], y.encoding_records@[i]);
            assert(crate::cmap::record_ok(s, i, r1));
            assert(crate::cmap::record_ok(s, i, r2));
            assert(r1.subtable == r2.subtable);
        }
        assert(x.encoding_records@ =~= y.encoding_records@);
    }
}

proof fn lemma_name_unique(s: Seq<u8>, a: Result<NameTable, crate::name::ParseError>, b: Result<NameTable, crate::name::ParseError>)
    requires
        name_parsed(a, s),
        name_parsed(b, s),
    ensures
        name_view(Some(a)) == name_view(Some(b)),
{
    if a is Ok {
        let (x, y) = (a->Ok_0, b->Ok_0);
        assert forall|i: int| 0 <= i < x.count implies x.name_records@[i] == y.name_records@[i] by {
            assert(x.name_records@[i].decodes(s, 6 + 12 * i));
            assert(y.name_records@[i].decodes(s, 6 + 12 * i));
        }
        assert(x.name_records@ =~= y.name_records@);
        assert forall|i: int| 0 <= i < x.count implies x.strings@[i]@ == y.strings@[i]@ by {
            assert(x.name_records@[i] == y.name_records@[i]);
        }
        assert(x.strings@.map_values(|v: Vec<u8>| v@) =~= y.strings@.map_values(|v: Vec<u8>| v@));
    }
}

proof fn lemma_loca_unique(
    s: Seq<u8>,
    a: Result<LocaTable, loca::ParseError>,
    b: Result<LocaTable, loca::ParseError>,
    f: crate::head::IndexToLocFormat,
    n: u16,
    g: usize,
)
    requires
        loca_parsed(a, s, f, n, g),
        loca_parsed(b, s, f, n, g),
    ensures
        loca_view(Some(a)) == loca_view(Some(b)),
{
    if a is Ok {
        let (x, y) = (a->Ok_0, b->Ok_0);
        assert(x.offsets@ =~= y.offsets@);
    }
}

impl OpenTypeFile {
    /// Decoding is a function of the bytes: two files decoded from the same
    /// buffer hold the same values in every table slot.
    pub proof fn lemma_decode_deterministic(s: Seq<u8>, a: OpenTypeFile, b: OpenTypeFile)
        requires
            a.decodes(s),
            b.decodes(s),
        ensures
            same_tables(a, b),
    {
        if a.head is Some {
            lemma_head_unique(table_bytes(s, HEAD_KEY as int)->Some_0, a.head->Some_0, b.head->Some_0);
        }
        if a.maxp is Some {
            lemma_maxp_unique(table_bytes(s, MAXP_KEY as int)->Some_0, a.maxp->Some_0, b.maxp->Some_0);
        }
        if a.cmap is Some {
            lemma_cmap_unique(table_bytes(s, CMAP_KEY as int)->Some_0, a.cmap->Some_0, b.cmap->Some_0);
        }
        if a.name is Some {
            lemma_name_unique(table_bytes(s, NAME_KEY as int)->Some_0, a.name->Some_0, b.name->Some_0);
        }
        if a.loca is Some && (a.head matches Some(Ok(_))) && (a.maxp matches Some(Ok(_))) {
            let h = a.head->Some_0->Ok_0;
            let m = a.maxp->Some_0->Ok_0;
            lemma_loca_unique(
                table_bytes(s, LOCA_KEY as int)->Some_0,
                a.loca->Some_0,
                b.loca->Some_0,
                h.index_to_loc_fmt,
                m.num_glyphs,
                glyf_length(s) as usize,
            );
        }
    }
}

} // verus!
