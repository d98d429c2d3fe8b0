//! The `glyf` table: glyph outlines, decoded one glyph at a time from the
//! byte range that `loca` gives.
//!
//! A simple glyph stores its contour end points, its instructions, a
//! run-length coded array of point flags, and then the X and the Y
//! coordinates as deltas whose width and sign the flags select. A compound
//! glyph (negative contour count) is recognized but not decoded further.
use vstd::prelude::*;
use crate::bytes::{be_i16, be_u16, copy_range, fits, in_bounds, read_i16, read_u16};
use crate::loca::Location;

verus! {

pub const MASK_ON_CURVE_POINT: u8 = 0x01;
pub const MASK_X_SHORT_VECTOR: u8 = 0x02;
pub const MASK_Y_SHORT_VECTOR: u8 = 0x04;
pub const MASK_REPEAT_FLAG: u8 = 0x08;
pub const MASK_X_IS_SAME_OR_POSITIVE_X_SHORT_VECTOR: u8 = 0x10;
pub const MASK_Y_IS_SAME_OR_POSITIVE_Y_SHORT_VECTOR: u8 = 0x20;

/// The size of the glyph header.
pub const GLYPH_HEADER_LENGTH: usize = 10;

/// Glyph decoding errors.
#[derive(Clone, Copy, Debug, PartialEq, Eq, Structural)]
pub enum ParseError {
    /// The glyph data ends before a field it must hold, or a location
    /// reaches past the end of the `glyf` table.
    OutOfBounds,
}

/// A decoded prefix followed by what decoding the rest gives.
pub open spec fn prepend<T>(a: Seq<T>, x: Result<(Seq<T>, int), ParseError>) -> Result<(Seq<T>, int), ParseError> {
    match x {
        Ok((rest, end)) => Ok((a + rest, end)),
        Err(e) => Err(e),
    }
}

proof fn lemma_prepend_assoc<T>(a: Seq<T>, b: Seq<T>, x: Result<(Seq<T>, int), ParseError>)
    ensures
        prepend(a, prepend(b, x)) == prepend(a + b, x),
{
    if x is Ok {
        assert(a + (b + x->Ok_0.0) =~= (a + b) + x->Ok_0.0);
    }
}

/// `n` copies of the flag `f`.
pub open spec fn run_of(f: u8, n: int) -> Seq<u8> {
    Seq::new(n as nat, |_j: int| f)
}

/// The `need` flags coded from `pos` on, with the position after them: a
/// flag byte with the repeat bit set is followed by a count `r` and stands
/// for `r + 1` copies of itself. A run that would reach past the number of
/// flags still needed is cut there; its count byte is consumed all the same.
pub open spec fn flags_from(s: Seq<u8>, pos: int, need: int) -> Result<(Seq<u8>, int), ParseError>
    decreases need,
{
    if need <= 0 {
        Ok((Seq::empty(), pos))
    } else if !(0 <= pos < s.len()) {
        Err(ParseError::OutOfBounds)
    } else {
        let f = s[pos];
        if f & MASK_REPEAT_FLAG == 0 {
            prepend(seq![f], flags_from(s, pos + 1, need - 1))
        } else if pos + 1 >= s.len() {
            Err(ParseError::OutOfBounds)
        } else {
            let n = if s[pos + 1] as int + 1 > need {
                need
            } else {
                s[pos + 1] as int + 1
            };
            prepend(run_of(f, n), flags_from(s, pos + 2, need - n))
        }
    }
}

/// One coordinate delta at `pos`, selected by the flag's short-vector bit and
/// same-or-positive bit, with the position after it.
pub open spec fn coord_step(s: Seq<u8>, pos: int, flag: u8, short_mask: u8, same_mask: u8) -> Result<(i16, int), ParseError> {
    if flag & short_mask != 0 {
        if !(0 <= pos < s.len()) {
            Err(ParseError::OutOfBounds)
        } else if flag & same_mask != 0 {
            Ok(((s[pos] as int) as i16, pos + 1))
        } else {
            Ok(((0 - s[pos] as int) as i16, pos + 1))
        }
    } else if flag & same_mask != 0 {
        Ok((0, pos))
    } else if !in_bounds(s, pos, 2) {
        Err(ParseError::OutOfBounds)
    } else {
        Ok((be_i16(s, pos) as i16, pos + 2))
    }
}

/// The deltas for flags `i..` from `pos` on, with the position after them.
pub open spec fn coords_from(s: Seq<u8>, pos: int, flags: Seq<u8>, i: int, short_mask: u8, same_mask: u8) -> Result<(Seq<i16>, int), ParseError>
    decreases flags.len() - i,
{
    if i >= flags.len() {
        Ok((Seq::empty(), pos))
    } else {
        match coord_step(s, pos, flags[i], short_mask, same_mask) {
            Err(e) => Err(e),
            Ok((d, p)) => prepend(seq![d], coords_from(s, p, flags, i + 1, short_mask, same_mask)),
        }
    }
}

/// What a simple glyph's data holds, over plain values.
pub struct SimpleGlyphModel {
    pub end_points: Seq<u16>,
    pub instructions: Seq<u8>,
    pub flags: Seq<u8>,
    pub x_coordinates: Seq<i16>,
    pub y_coordinates: Seq<i16>,
    /// The position just after the last coordinate.
    pub end: int,
}

/// The contour end points stored at the start of `s`.
pub open spec fn end_points(s: Seq<u8>, n: int) -> Seq<u16> {
    Seq::new(n as nat, |i: int| be_u16(s, 2 * i) as u16)
}

/// The number of points: one more than the last end point, none without contours.
pub open spec fn num_points(ends: Seq<u16>) -> int {
    if ends.len() == 0 {
        0
    } else {
        ends.last() as int + 1
    }
}

/// The simple glyph with `n` contours whose data is `s`.
pub open spec fn simple_glyph(s: Seq<u8>, n: int) -> Result<SimpleGlyphModel, ParseError> {
    if 2 * n + 2 > s.len() {
        Err(ParseError::OutOfBounds)
    } else {
        let ends = end_points(s, n);
        let ilen = be_u16(s, 2 * n);
        let ipos = 2 * n + 2;
        if ipos + ilen > s.len() {
            Err(ParseError::OutOfBounds)
        } else {
            match flags_from(s, ipos + ilen, num_points(ends)) {
                Err(e) => Err(e),
                Ok((flags, after_flags)) => match coords_from(s, after_flags, flags, 0, MASK_X_SHORT_VECTOR, MASK_X_IS_SAME_OR_POSITIVE_X_SHORT_VECTOR) {
                    Err(e) => Err(e),
                    Ok((xs, after_x)) => match coords_from(s, after_x, flags, 0, MASK_Y_SHORT_VECTOR, MASK_Y_IS_SAME_OR_POSITIVE_Y_SHORT_VECTOR) {
                        Err(e) => Err(e),
                        Ok((ys, after_y)) => Ok(
                            SimpleGlyphModel {
                                end_points: ends,
                                instructions: s.subrange(ipos, ipos + ilen),
                                flags,
                                x_coordinates: xs,
                                y_coordinates: ys,
                                end: after_y,
                            },
                        ),
                    },
                },
            }
        }
    }
}

#[derive(Clone, Debug)]
pub struct SimpleGlyphTable {
    pub end_points_of_contours: Vec<u16>,
    pub instruction_length: usize,
    pub instructions: Vec<u8>,
    pub flags: Vec<u8>,
    /// Deltas from the previous point's X; the first from zero.
    pub x_coordinates: Vec<i16>,
    /// Deltas from the previous point's Y; the first from zero.
    pub y_coordinates: Vec<i16>,
    /// How many bytes of the glyph data the outline took.
    pub byte_length: usize,
}

impl SimpleGlyphTable {
    /// The table holds what the model states.
    pub open spec fn holds(&self, m: SimpleGlyphModel) -> bool {
        &&& self.end_points_of_contours@ == m.end_points
        &&& self.instructions@ == m.instructions
        &&& self.instruction_length == m.instructions.len()
        &&& self.flags@ == m.flags
        &&& self.x_coordinates@ == m.x_coordinates
        &&& self.y_coordinates@ == m.y_coordinates
        &&& self.byte_length == m.end
    }

    /// Decodes the simple glyph with `num_contours` contours whose data
    /// (after the glyph header) is `table_data`.
    pub fn deserialize(table_data: &[u8], num_contours: i16) -> (r: Result<SimpleGlyphTable, ParseError>)
        requires
            num_contours >= 0,
        ensures
            r is Ok <==> simple_glyph(table_data@, num_contours as int) is Ok,
            r is Ok ==> r->Ok_0.holds(simple_glyph(table_data@, num_contours as int)->Ok_0),
            r is Err ==> r->Err_0 == simple_glyph(table_data@, num_contours as int)->Err_0,
    {
        let ghost s = table_data@;
        let n = num_contours as usize;
        if !fits(table_data.len(), 2 * n, 2) {
            return Err(ParseError::OutOfBounds);
        }
        let mut end_points_of_contours: Vec<u16> = Vec::new();
        let mut i: usize = 0;
        while i < n
            invariant
                i <= n,
                n < 0x8000,
                2 * n + 2 <= s.len(),
                s == table_data@,
                end_points_of_contours@ =~= end_points(s, i as int),
            decreases n - i,
        {
            let e = read_u16(table_data, 2 * i).unwrap();
            end_points_of_contours.push(e);
            i = i + 1;
        }
        let ghost ends = end_points(s, n as int);
        let num = if n == 0 {
            0
        } else {
            end_points_of_contours[n - 1] as usize + 1
        };
        assert(num == num_points(ends));
        let instruction_length = read_u16(table_data, 2 * n).unwrap() as usize;
        let offset_instructions = 2 * n + 2;
        if !fits(table_data.len(), offset_instructions, instruction_length) {
            return Err(ParseError::OutOfBounds);
        }
        let instructions = copy_range(table_data, offset_instructions, offset_instructions + instruction_length);
        let mut cursor = offset_instructions + instruction_length;
        let flags = match Self::deserialize_flags(table_data, &mut cursor, num) {
            Ok(f) => f,
            Err(e) => return Err(e),
        };
        let x_coordinates = match Self::deserialize_x_coordinates(table_data, &mut cursor, &flags) {
            Ok(v) => v,
            Err(e) => return Err(e),
        };
        let y_coordinates = match Self::deserialize_y_coordinates(table_data, &mut cursor, &flags) {
            Ok(v) => v,
            Err(e) => return Err(e),
        };
        Ok(SimpleGlyphTable {
            end_points_of_contours,
            instruction_length,
            instructions,
            flags,
            x_coordinates,
            y_coordinates,
            byte_length: cursor,
        })
    }

    /// Decodes `num_points` flags from `*cursor` on, and moves the cursor
    /// past them.
    pub fn deserialize_flags(table_data: &[u8], cursor: &mut usize, num_points: usize) -> (r: Result<Vec<u8>, ParseError>)
        ensures
            r is Ok <==> flags_from(table_data@, *old(cursor) as int, num_points as int) is Ok,
            r is Ok ==> (r->Ok_0@, *final(cursor) as int) == flags_from(table_data@, *old(cursor) as int, num_points as int)->Ok_0,
            r is Err ==> r->Err_0 == flags_from(table_data@, *old(cursor) as int, num_points as int)->Err_0,
    {
        let ghost s = table_data@;
        let ghost start = *cursor as int;
        let mut flags: Vec<u8> = Vec::new();
        while flags.len() < num_points
            invariant
                s == table_data@,
                start == *old(cursor) as int,
                flags@.len() <= num_points,
                flags_from(s, start, num_points as int) == prepend(flags@, flags_from(s, *cursor as int, num_points - flags@.len())),
            decreases num_points - flags@.len(),
        {
            let ghost need = num_points - flags@.len();
            let ghost here = *cursor as int;
            if *cursor >= table_data.len() {
                assert(flags_from(s, here, need) == Err::<(Seq<u8>, int), ParseError>(ParseError::OutOfBounds));
                return Err(ParseError::OutOfBounds);
            }
            let flag = table_data[*cursor];
            *cursor = *cursor + 1;
            let mut repetitions: usize = if flag & MASK_REPEAT_FLAG == 0 {
                0
            } else {
                if *cursor >= table_data.len() {
                    assert(flags_from(s, here, need) == Err::<(Seq<u8>, int), ParseError>(ParseError::OutOfBounds));
                    return Err(ParseError::OutOfBounds);
                }
                let count = table_data[*cursor];
                *cursor = *cursor + 1;
                count as usize
            };
            if repetitions + 1 > num_points - flags.len() {
                // The run is cut at the number of flags still needed.
                repetitions = num_points - flags.len() - 1;
            }
            let ghost before = flags@;
            let mut k: usize = 0;
            while k <= repetitions
                invariant
                    k <= repetitions + 1,
                    flags@ == before + run_of(flag, k as int),
                    before.len() + repetitions + 1 <= num_points,
                decreases repetitions + 1 - k,
            {
                flags.push(flag);
                k = k + 1;
                assert(flags@ =~= before + run_of(flag, k as int));
            }
            proof {
                let n = repetitions as int + 1;
                if flag & MASK_REPEAT_FLAG == 0 {
                    assert(run_of(flag, 1) =~= seq![flag]);
                }
                lemma_prepend_assoc(before, run_of(flag, n), flags_from(s, *cursor as int, need - n));
            }
        }
        proof {
            assert(flags@ + Seq::<u8>::empty() =~= flags@);
        }
        Ok(flags)
    }

    /// Decodes one delta per flag from `*cursor` on with the given flag bits,
    /// and moves the cursor past them.
    fn deserialize_coordinates(table_data: &[u8], cursor: &mut usize, flags: &Vec<u8>, short_mask: u8, same_mask: u8) -> (r: Result<Vec<i16>, ParseError>)
        ensures
            r is Ok <==> coords_from(table_data@, *old(cursor) as int, flags@, 0, short_mask, same_mask) is Ok,
            r is Ok ==> (r->Ok_0@, *final(cursor) as int) == coords_from(table_data@, *old(cursor) as int, flags@, 0, short_mask, same_mask)->Ok_0,
            r is Err ==> r->Err_0 == coords_from(table_data@, *old(cursor) as int, flags@, 0, short_mask, same_mask)->Err_0,
    {
        let ghost s = table_data@;
        let ghost start = *cursor as int;
        let mut coordinates: Vec<i16> = Vec::new();
        let mut i: usize = 0;
        let len = table_data.len();
        while i < flags.len()
            invariant
                s == table_data@,
                len == s.len(),
                start == *old(cursor) as int,
                i <= flags@.len(),
                coordinates@.len() == i,
                coords_from(s, start, flags@, 0, short_mask, same_mask) == prepend(coordinates@, coords_from(s, *cursor as int, flags@, i as int, short_mask, same_mask)),
            decreases flags@.len() - i,
        {
            let ghost here = *cursor as int;
            let flag = flags[i];
            let value: i16 = if flag & short_mask != 0 {
                if *cursor >= table_data.len() {
                    assert(coords_from(s, here, flags@, i as int, short_mask, same_mask) == Err::<(Seq<i16>, int), ParseError>(ParseError::OutOfBounds));
                    return Err(ParseError::OutOfBounds);
                }
                let parsed = table_data[*cursor];
                *cursor = *cursor + 1;
                if flag & same_mask != 0 {
                    parsed as i16
                } else {
                    0 - parsed as i16
                }
            } else if flag & same_mask != 0 {
                0
            } else {
                match read_i16(table_data, *cursor) {
                    Some(v) => {
                        *cursor = *cursor + 2;
                        v
                    },
                    None => {
                        assert(coords_from(s, here, flags@, i as int, short_mask, same_mask) == Err::<(Seq<i16>, int), ParseError>(ParseError::OutOfBounds));
                        return Err(ParseError::OutOfBounds);
                    },
                }
            };
            proof {
                assert(coord_step(s, here, flag, short_mask, same_mask) == Ok::<(i16, int), ParseError>((value, *cursor as int)));
                assert(coords_from(s, here, flags@, i as int, short_mask, same_mask) == prepend(seq![value], coords_from(s, *cursor as int, flags@, i + 1, short_mask, same_mask)));
                lemma_prepend_assoc(coordinates@, seq![value], coords_from(s, *cursor as int, flags@, i + 1, short_mask, same_mask));
            }
            let ghost before = coordinates@;
            coordinates.push(value);
            assert(coordinates@ =~= before + seq![value]);
            i = i + 1;
        }
        proof {
            assert(coordinates@ + Seq::<i16>::empty() =~= coordinates@);
        }
        Ok(coordinates)
    }

    /// Decodes the X deltas.
    pub fn deserialize_x_coordinates(table_data: &[u8], cursor: &mut usize, flags: &Vec<u8>) -> (r: Result<Vec<i16>, ParseError>)
        ensures
            r is Ok <==> coords_from(table_data@, *old(cursor) as int, flags@, 0, MASK_X_SHORT_VECTOR, MASK_X_IS_SAME_OR_POSITIVE_X_SHORT_VECTOR) is Ok,
            r is Ok ==> (r->Ok_0@, *final(cursor) as int) == coords_from(table_data@, *old(cursor) as int, flags@, 0, MASK_X_SHORT_VECTOR, MASK_X_IS_SAME_OR_POSITIVE_X_SHORT_VECTOR)->Ok_0,
            r is Err ==> r->Err_0 == coords_from(table_data@, *old(cursor) as int, flags@, 0, MASK_X_SHORT_VECTOR, MASK_X_IS_SAME_OR_POSITIVE_X_SHORT_VECTOR)->Err_0,
    {
        Self::deserialize_coordinates(table_data, cursor, flags, MASK_X_SHORT_VECTOR, MASK_X_IS_SAME_OR_POSITIVE_X_SHORT_VECTOR)
    }

    /// Decodes the Y deltas.
    pub fn deserialize_y_coordinates(table_data: &[u8], cursor: &mut usize, flags: &Vec<u8>) -> (r: Result<Vec<i16>, ParseError>)
        ensures
            r is Ok <==> coords_from(table_data@, *old(cursor) as int, flags@, 0, MASK_Y_SHORT_VECTOR, MASK_Y_IS_SAME_OR_POSITIVE_Y_SHORT_VECTOR) is Ok,
            r is Ok ==> (r->Ok_0@, *final(cursor) as int) == coords_from(table_data@, *old(cursor) as int, flags@, 0, MASK_Y_SHORT_VECTOR, MASK_Y_IS_SAME_OR_POSITIVE_Y_SHORT_VECTOR)->Ok_0,
            r is Err ==> r->Err_0 == coords_from(table_data@, *old(cursor) as int, flags@, 0, MASK_Y_SHORT_VECTOR, MASK_Y_IS_SAME_OR_POSITIVE_Y_SHORT_VECTOR)->Err_0,
    {
        Self::deserialize_coordinates(table_data, cursor, flags, MASK_Y_SHORT_VECTOR, MASK_Y_IS_SAME_OR_POSITIVE_Y_SHORT_VECTOR)
    }
}

/// One glyph: its header, and its outline when it is a simple glyph.
#[derive(Clone, Debug)]
pub struct Glyph {
    pub num_contours: i16,
    pub min_x: i16,
    pub min_y: i16,
    pub max_x: i16,
    pub max_y: i16,
    /// Present exactly when the contour count is not negative; a compound
    /// glyph is recognized but not decoded.
    pub simple_glyph: Option<SimpleGlyphTable>,
}

/// Whether the glyph data `s` decodes.
pub open spec fn glyph_decodes(s: Seq<u8>) -> bool {
    s.len() >= 10 && (be_i16(s, 0) < 0 || simple_glyph(s.subrange(10, s.len() as int), be_i16(s, 0)) is Ok)
}

/// The error that glyph data `s` gives when it does not decode.
pub open spec fn glyph_error(s: Seq<u8>) -> ParseError {
    if s.len() < 10 {
        ParseError::OutOfBounds
    } else {
        simple_glyph(s.subrange(10, s.len() as int), be_i16(s, 0))->Err_0
    }
}

impl Glyph {
    /// The glyph decoded from its data `s`.
    pub open spec fn decodes(&self, s: Seq<u8>) -> bool {
        &&& self.num_contours as int == be_i16(s, 0)
        &&& self.min_x as int == be_i16(s, 2)
        &&& self.min_y as int == be_i16(s, 4)
        &&& self.max_x as int == be_i16(s, 6)
        &&& self.max_y as int == be_i16(s, 8)
        &&& (self.simple_glyph is Some <==> self.num_contours >= 0)
        &&& (self.simple_glyph is Some ==> self.simple_glyph->Some_0.holds(
            simple_glyph(s.subrange(10, s.len() as int), self.num_contours as int)->Ok_0,
        ))
    }

    /// Decodes the 10-byte header and, for a simple glyph, the outline.
    pub fn deserialize(glyph_data: &[u8]) -> (r: Result<Glyph, ParseError>)
        ensures
            r is Ok <==> glyph_decodes(glyph_data@),
            r is Ok ==> r->Ok_0.decodes(glyph_data@),
            r is Err ==> r->Err_0 == glyph_error(glyph_data@),
    {
        if glyph_data.len() < GLYPH_HEADER_LENGTH {
            return Err(ParseError::OutOfBounds);
        }
        let num_contours = read_i16(glyph_data, 0).unwrap();
        let mut simple_glyph: Option<SimpleGlyphTable> = None;
        if num_contours >= 0 {
            let outline = &glyph_data[GLYPH_HEADER_LENGTH..glyph_data.len()];
            match SimpleGlyphTable::deserialize(outline, num_contours) {
                Ok(t) => {
                    simple_glyph = Some(t);
                },
                Err(e) => return Err(e),
            }
        }
        Ok(Glyph {
            num_contours,
            min_x: read_i16(glyph_data, 2).unwrap(),
            min_y: read_i16(glyph_data, 4).unwrap(),
            max_x: read_i16(glyph_data, 6).unwrap(),
            max_y: read_i16(glyph_data, 8).unwrap(),
            simple_glyph,
        })
    }
}

/// The `glyf` table: the byte pool that `loca` ranges point into.
pub struct GlyfTable {
    pub data: Vec<u8>,
}

/// What reading the glyph at `loc` of the table `s` gives: no outline for an
/// empty range, a bounds error for a range past the end, else the glyph
/// decoded from that range.
pub open spec fn glyph_at_ok(s: Seq<u8>, loc: Location) -> bool {
    loc.length == 0 || (loc.offset + loc.length <= s.len()
        && glyph_decodes(s.subrange(loc.offset as int, loc.offset + loc.length)))
}

impl GlyfTable {
    pub fn parse(table_data: &[u8]) -> (r: GlyfTable)
        ensures
            r.data@ == table_data@,
    {
        GlyfTable { data: copy_range(table_data, 0, table_data.len()) }
    }

    /// Reads the glyph at `loc`: `None` for an empty range (such as a space).
    pub fn read_glyph(&self, loc: Location) -> (r: Result<Option<Glyph>, ParseError>)
        ensures
            r is Ok <==> glyph_at_ok(self.data@, loc),
            r is Ok ==> (r->Ok_0 is None <==> loc.length == 0),
            r matches Ok(Some(g)) ==> g.decodes(self.data@.subrange(loc.offset as int, loc.offset + loc.length)),
            r is Err ==> r->Err_0 == if loc.offset + loc.length > self.data@.len() {
                ParseError::OutOfBounds
            } else {
                glyph_error(self.data@.subrange(loc.offset as int, loc.offset + loc.length))
            },
    {
        if loc.length == 0 {
            return Ok(None);
        }
        if !fits(self.data.len(), loc.offset, loc.length) {
            return Err(ParseError::OutOfBounds);
        }
        let slice = self.data.as_slice();
        match Glyph::deserialize(&slice[loc.offset..loc.offset + loc.length]) {
            Ok(g) => Ok(Some(g)),
            Err(e) => Err(e),
        }
    }
}

} // verus!
