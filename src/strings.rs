//! Text conversion to UTF-8 from the encodings that `name` records use:
//! UCS-2 (big-endian), Mac OS Roman, and UTF-8 itself.
use vstd::prelude::*;
use crate::bytes::{be_u16, copy_range};

verus! {

/// The Unicode code point of a Mac OS Roman byte; the ASCII half maps to itself.
pub open spec fn mac_roman_code_point(b: u8) -> u16 {
    if b < 0x80 {
        b as u16
    } else {
        match b {
            0x80 => 0x00C4,
            0x81 => 0x00C5,
            0x82 => 0x00C7,
            0x83 => 0x00C9,
            0x84 => 0x00D1,
            0x85 => 0x00D6,
            0x86 => 0x00DC,
            0x87 => 0x00E1,
            0x88 => 0x00E0,
            0x89 => 0x00E2,
            0x8A => 0x00E4,
            0x8B => 0x00E3,
            0x8C => 0x00E5,
            0x8D => 0x00E7,
            0x8E => 0x00E9,
            0x8F => 0x00E8,
            0x90 => 0x00EA,
            0x91 => 0x00EB,
            0x92 => 0x00ED,
            0x93 => 0x00EC,
            0x94 => 0x00EE,
            0x95 => 0x00EF,
            0x96 => 0x00F1,
            0x97 => 0x00F3,
            0x98 => 0x00F2,
            0x99 => 0x00F4,
            0x9A => 0x00F6,
            0x9B => 0x00F5,
            0x9C => 0x00FA,
            0x9D => 0x00F9,
            0x9E => 0x00FB,
            0x9F => 0x00FC,
            0xA0 => 0x2020,
            0xA1 => 0x00B0,
            0xA2 => 0x00A2,
            0xA3 => 0x00A3,
            0xA4 => 0x00A7,
            0xA5 => 0x2022,
            0xA6 => 0x00B6,
            0xA7 => 0x00DF,
            0xA8 => 0x00AE,
            0xA9 => 0x00A9,
            0xAA => 0x2122,
            0xAB => 0x00B4,
            0xAC => 0x00A8,
            0xAD => 0x2260,
            0xAE => 0x00C6,
            0xAF => 0x00D8,
            0xB0 => 0x221E,
            0xB1 => 0x00B1,
            0xB2 => 0x2264,
            0xB3 => 0x2265,
            0xB4 => 0x00A5,
            0xB5 => 0x00B5,
            0xB6 => 0x2202,
            0xB7 => 0x2211,
            0xB8 => 0x220F,
            0xB9 => 0x03C0,
            0xBA => 0x222B,
            0xBB => 0x00AA,
            0xBC => 0x00BA,
            0xBD => 0x03A9,
            0xBE => 0x00E6,
            0xBF => 0x00F8,
            0xC0 => 0x00BF,
            0xC1 => 0x00A1,
            0xC2 => 0x00AC,
            0xC3 => 0x221A,
            0xC4 => 0x0192,
            0xC5 => 0x2248,
            0xC6 => 0x2206,
            0xC7 => 0x00AB,
            0xC8 => 0x00BB,
            0xC9 => 0x2026,
            0xCA => 0x00A0,
            0xCB => 0x00C0,
            0xCC => 0x00C3,
            0xCD => 0x00D5,
            0xCE => 0x0152,
            0xCF => 0x0153,
            0xD0 => 0x2013,
            0xD1 => 0x2014,
            0xD2 => 0x201C,
            0xD3 => 0x201D,
            0xD4 => 0x2018,
            0xD5 => 0x2019,
            0xD6 => 0x00F7,
            0xD7 => 0x25CA,
            0xD8 => 0x00FF,
            0xD9 => 0x0178,
            0xDA => 0x2044,
            0xDB => 0x20AC,
            0xDC => 0x2039,
            0xDD => 0x203A,
            0xDE => 0xFB01,
            0xDF => 0xFB02,
            0xE0 => 0x2021,
            0xE1 => 0x00B7,
            0xE2 => 0x201A,
            0xE3 => 0x201E,
            0xE4 => 0x2030,
            0xE5 => 0x00C2,
            0xE6 => 0x00CA,
            0xE7 => 0x00C1,
            0xE8 => 0x00CB,
            0xE9 => 0x00C8,
            0xEA => 0x00CD,
            0xEB => 0x00CE,
            0xEC => 0x00CF,
            0xED => 0x00CC,
            0xEE => 0x00D3,
            0xEF => 0x00D4,
            0xF0 => 0xF8FF,
            0xF1 => 0x00D2,
            0xF2 => 0x00DA,
            0xF3 => 0x00DB,
            0xF4 => 0x00D9,
            0xF5 => 0x0131,
            0xF6 => 0x02C6,
            0xF7 => 0x02DC,
            0xF8 => 0x00AF,
            0xF9 => 0x02D8,
            0xFA => 0x02D9,
            0xFB => 0x02DA,
            0xFC => 0x00B8,
            0xFD => 0x02DD,
            0xFE => 0x02DB,
            0xFF => 0x02C7,
            _ => 0,
        }
    }
}

/// The UTF-8 bytes of one UCS-2 code unit: one byte below 0x80, two below
/// 0x800, three otherwise.
pub open spec fn utf8_of_unit(c: int) -> Seq<u8> {
    if c < 0x80 {
        seq![c as u8]
    } else if c < 0x800 {
        seq![(0xC0 + c / 64) as u8, (0x80 + c % 64) as u8]
    } else {
        seq![(0xE0 + c / 4096) as u8, (0x80 + (c / 64) % 64) as u8, (0x80 + c % 64) as u8]
    }
}

/// The UTF-8 bytes for code units `i..` of the UCS-2 bytes `s`; a trailing
/// odd byte is ignored.
pub open spec fn ucs2_to_utf8_from(s: Seq<u8>, i: int) -> Seq<u8>
    decreases s.len() / 2 - i,
{
    if i < 0 || i >= s.len() / 2 {
        Seq::empty()
    } else {
        utf8_of_unit(be_u16(s, 2 * i)) + ucs2_to_utf8_from(s, i + 1)
    }
}

/// The UTF-8 bytes of the UCS-2 bytes `s`.
pub open spec fn ucs2_to_utf8(s: Seq<u8>) -> Seq<u8> {
    ucs2_to_utf8_from(s, 0)
}

/// The UCS-2 bytes of the Mac OS Roman bytes `s`.
pub open spec fn roman_to_ucs2(s: Seq<u8>) -> Seq<u8>
    decreases s.len(),
{
    if s.len() == 0 {
        Seq::empty()
    } else {
        let c = mac_roman_code_point(s[0]) as int;
        seq![(c / 256) as u8, (c % 256) as u8] + roman_to_ucs2(s.drop_first())
    }
}

/// Mac OS Roman text.
pub struct AppleRoman {
    pub bytes: Vec<u8>,
}

/// UCS-2 text, as big-endian code units.
pub struct Ucs2 {
    pub bytes: Vec<u8>,
}

/// UTF-8 text.
pub struct Utf8 {
    pub bytes: Vec<u8>,
}

/// The code point of a Mac OS Roman byte.
pub fn roman_code_point(b: u8) -> (r: u16)
    ensures
        r == mac_roman_code_point(b),
{
    if b < 0x80 {
        b as u16
    } else {
        match b {
            0x80 => 0x00C4,
            0x81 => 0x00C5,
            0x82 => 0x00C7,
            0x83 => 0x00C9,
            0x84 => 0x00D1,
            0x85 => 0x00D6,
            0x86 => 0x00DC,
            0x87 => 0x00E1,
            0x88 => 0x00E0,
            0x89 => 0x00E2,
            0x8A => 0x00E4,
            0x8B => 0x00E3,
            0x8C => 0x00E5,
            0x8D => 0x00E7,
            0x8E => 0x00E9,
            0x8F => 0x00E8,
            0x90 => 0x00EA,
            0x91 => 0x00EB,
            0x92 => 0x00ED,
            0x93 => 0x00EC,
            0x94 => 0x00EE,
            0x95 => 0x00EF,
            0x96 => 0x00F1,
            0x97 => 0x00F3,
            0x98 => 0x00F2,
            0x99 => 0x00F4,
            0x9A => 0x00F6,
            0x9B => 0x00F5,
            0x9C => 0x00FA,
            0x9D => 0x00F9,
            0x9E => 0x00FB,
            0x9F => 0x00FC,
            0xA0 => 0x2020,
            0xA1 => 0x00B0,
            0xA2 => 0x00A2,
            0xA3 => 0x00A3,
            0xA4 => 0x00A7,
            0xA5 => 0x2022,
            0xA6 => 0x00B6,
            0xA7 => 0x00DF,
            0xA8 => 0x00AE,
            0xA9 => 0x00A9,
            0xAA => 0x2122,
            0xAB => 0x00B4,
            0xAC => 0x00A8,
            0xAD => 0x2260,
            0xAE => 0x00C6,
            0xAF => 0x00D8,
            0xB0 => 0x221E,
            0xB1 => 0x00B1,
            0xB2 => 0x2264,
            0xB3 => 0x2265,
            0xB4 => 0x00A5,
            0xB5 => 0x00B5,
            0xB6 => 0x2202,
            0xB7 => 0x2211,
            0xB8 => 0x220F,
            0xB9 => 0x03C0,
            0xBA => 0x222B,
            0xBB => 0x00AA,
            0xBC => 0x00BA,
            0xBD => 0x03A9,
            0xBE => 0x00E6,
            0xBF => 0x00F8,
            0xC0 => 0x00BF,
            0xC1 => 0x00A1,
            0xC2 => 0x00AC,
            0xC3 => 0x221A,
            0xC4 => 0x0192,
            0xC5 => 0x2248,
            0xC6 => 0x2206,
            0xC7 => 0x00AB,
            0xC8 => 0x00BB,
            0xC9 => 0x2026,
            0xCA => 0x00A0,
            0xCB => 0x00C0,
            0xCC => 0x00C3,
            0xCD => 0x00D5,
            0xCE => 0x0152,
            0xCF => 0x0153,
            0xD0 => 0x2013,
            0xD1 => 0x2014,
            0xD2 => 0x201C,
            0xD3 => 0x201D,
            0xD4 => 0x2018,
            0xD5 => 0x2019,
            0xD6 => 0x00F7,
            0xD7 => 0x25CA,
            0xD8 => 0x00FF,
            0xD9 => 0x0178,
            0xDA => 0x2044,
            0xDB => 0x20AC,
            0xDC => 0x2039,
            0xDD => 0x203A,
            0xDE => 0xFB01,
            0xDF => 0xFB02,
            0xE0 => 0x2021,
            0xE1 => 0x00B7,
            0xE2 => 0x201A,
            0xE3 => 0x201E,
            0xE4 => 0x2030,
            0xE5 => 0x00C2,
            0xE6 => 0x00CA,
            0xE7 => 0x00C1,
            0xE8 => 0x00CB,
            0xE9 => 0x00C8,
            0xEA => 0x00CD,
            0xEB => 0x00CE,
            0xEC => 0x00CF,
            0xED => 0x00CC,
            0xEE => 0x00D3,
            0xEF => 0x00D4,
            0xF0 => 0xF8FF,
            0xF1 => 0x00D2,
            0xF2 => 0x00DA,
            0xF3 => 0x00DB,
            0xF4 => 0x00D9,
            0xF5 => 0x0131,
            0xF6 => 0x02C6,
            0xF7 => 0x02DC,
            0xF8 => 0x00AF,
            0xF9 => 0x02D8,
            0xFA => 0x02D9,
            0xFB => 0x02DA,
            0xFC => 0x00B8,
            0xFD => 0x02DD,
            0xFE => 0x02DB,
            0xFF => 0x02C7,
            _ => 0,
        }
    }
}

/// Appends the UTF-8 bytes of one code unit.
fn push_utf8_unit(out: &mut Vec<u8>, c: u16)
    ensures
        final(out)@ == old(out)@ + utf8_of_unit(c as int),
{
    if c < 0x80 {
        out.push(c as u8);
    } else if c < 0x800 {
        out.push((0xC0 + c / 64) as u8);
        out.push((0x80 + c % 64) as u8);
    } else {
        out.push((0xE0 + c / 4096) as u8);
        out.push((0x80 + (c / 64) % 64) as u8);
        out.push((0x80 + c % 64) as u8);
    }
    assert(final(out)@ =~= old(out)@ + utf8_of_unit(c as int));
}

impl AppleRoman {
    pub fn from_bytes(bytes: &[u8]) -> (r: AppleRoman)
        ensures
            r.bytes@ == bytes@,
    {
        AppleRoman { bytes: copy_range(bytes, 0, bytes.len()) }
    }

    pub fn to_bytes(&self) -> (r: &[u8])
        ensures
            r@ == self.bytes@,
    {
        self.bytes.as_slice()
    }
}

impl Ucs2 {
    pub fn from_bytes(bytes: &[u8]) -> (r: Ucs2)
        ensures
            r.bytes@ == bytes@,
    {
        Ucs2 { bytes: copy_range(bytes, 0, bytes.len()) }
    }

    pub fn to_bytes(&self) -> (r: &[u8])
        ensures
            r@ == self.bytes@,
    {
        self.bytes.as_slice()
    }

    /// Maps each Mac OS Roman byte to its code point, stored as two bytes.
    pub fn from_apple_roman(roman: &AppleRoman) -> (r: Ucs2)
        ensures
            r.bytes@ == roman_to_ucs2(roman.bytes@),
    {
        let ghost s = roman.bytes@;
        let mut output: Vec<u8> = Vec::new();
        let mut i: usize = 0;
        assert(s.subrange(0, s.len() as int) =~= s);
        assert(output@ + roman_to_ucs2(s) =~= roman_to_ucs2(s));
        while i < roman.bytes.len()
            invariant
                s == roman.bytes@,
                i <= s.len(),
                output@ + roman_to_ucs2(s.subrange(i as int, s.len() as int)) == roman_to_ucs2(s),
            decreases s.len() - i,
        {
            let c = roman_code_point(roman.bytes[i]);
            let ghost rest = s.subrange(i as int, s.len() as int);
            assert(rest.drop_first() =~= s.subrange(i + 1, s.len() as int));
            let ghost before = output@;
            output.push((c / 256) as u8);
            output.push((c % 256) as u8);
            assert(output@ =~= before + seq![(c as int / 256) as u8, (c as int % 256) as u8]);
            assert(before + roman_to_ucs2(rest) =~= output@ + roman_to_ucs2(s.subrange(i + 1, s.len() as int)));
            i = i + 1;
        }
        assert(output@ + Seq::<u8>::empty() =~= output@);
        Ucs2 { bytes: output }
    }
}

impl Utf8 {
    /// Takes UTF-8 bytes as they are.
    pub fn from_bytes(bytes: &[u8]) -> (r: Utf8)
        ensures
            r.bytes@ == bytes@,
    {
        Utf8 { bytes: copy_range(bytes, 0, bytes.len()) }
    }

    pub fn to_bytes(&self) -> (r: &[u8])
        ensures
            r@ == self.bytes@,
    {
        self.bytes.as_slice()
    }

    /// Re-encodes each UCS-2 code unit in one, two or three UTF-8 bytes.
    pub fn from_ucs2(input: &Ucs2) -> (r: Utf8)
        ensures
            r.bytes@ == ucs2_to_utf8(input.bytes@),
    {
        let bytes = input.to_bytes();
        let ghost s = bytes@;
        let mut output: Vec<u8> = Vec::new();
        let mut i: usize = 0;
        let units = bytes.len() / 2;
        assert(output@ + ucs2_to_utf8_from(s, 0) =~= ucs2_to_utf8(s));
        while i < units
            invariant
                s == bytes@,
                units == s.len() / 2,
                s.len() <= usize::MAX,
                i <= units,
                output@ + ucs2_to_utf8_from(s, i as int) == ucs2_to_utf8(s),
            decreases units - i,
        {
            assert(2 * i + 1 < s.len());
            let c = bytes[2 * i] as u16 * 256 + bytes[2 * i + 1] as u16;
            let ghost before = output@;
            push_utf8_unit(&mut output, c);
            assert(before + ucs2_to_utf8_from(s, i as int) =~= output@ + ucs2_to_utf8_from(s, i + 1));
            i = i + 1;
        }
        assert(output@ + Seq::<u8>::empty() =~= output@);
        Utf8 { bytes: output }
    }

    /// Mac OS Roman text in UTF-8, by way of UCS-2.
    pub fn from_apple_roman(roman: &AppleRoman) -> (r: Utf8)
        ensures
            r.bytes@ == ucs2_to_utf8(roman_to_ucs2(roman.bytes@)),
    {
        Self::from_ucs2(&Ucs2::from_apple_roman(roman))
    }
}

/// Every code unit below 0x80 takes one byte, below 0x800 two, and three
/// otherwise; the widths switch exactly at those thresholds.
pub proof fn lemma_utf8_unit_width(c: int)
    requires
        0 <= c < 0x10000,
    ensures
        c < 0x80 ==> utf8_of_unit(c).len() == 1,
        0x80 <= c < 0x800 ==> utf8_of_unit(c).len() == 2,
        0x800 <= c ==> utf8_of_unit(c).len() == 3,
{
}

/// ASCII bytes read as Mac OS Roman come out in UTF-8 unchanged.
pub proof fn lemma_ascii_roman_identity(s: Seq<u8>)
    requires
        forall|i: int| 0 <= i < s.len() ==> #[trigger] s[i] < 0x80,
    ensures
        ucs2_to_utf8(roman_to_ucs2(s)) == s,
{
    lemma_ascii_roman_from(s);
}

proof fn lemma_ascii_roman_from(s: Seq<u8>)
    requires
        forall|i: int| 0 <= i < s.len() ==> #[trigger] s[i] < 0x80,
    ensures
        ucs2_to_utf8_from(roman_to_ucs2(s), 0) == s,
    decreases s.len(),
{
    if s.len() > 0 {
        let t = s.drop_first();
        assert forall|i: int| 0 <= i < t.len() implies #[trigger] t[i] < 0x80 by {
            assert(t[i] == s[i + 1]);
        }
        lemma_ascii_roman_from(t);
        let u = roman_to_ucs2(s);
        let head = seq![0u8, s[0]];
        assert(u == head + roman_to_ucs2(t));
        lemma_ucs2_shift(head, roman_to_ucs2(t));
        assert(s =~= seq![s[0]] + t);
    }
}

proof fn lemma_ucs2_shift(head: Seq<u8>, rest: Seq<u8>)
    requires
        head.len() == 2,
    ensures
        ucs2_to_utf8_from(head + rest, 0) == utf8_of_unit(be_u16(head, 0)) + ucs2_to_utf8_from(rest, 0),
{
    lemma_ucs2_shift_from(head, rest, 0);
}

proof fn lemma_ucs2_shift_from(head: Seq<u8>, rest: Seq<u8>, i: int)
    requires
        head.len() == 2,
        0 <= i,
    ensures
        ucs2_to_utf8_from(head + rest, i + 1) == ucs2_to_utf8_from(rest, i),
        i == 0 ==> ucs2_to_utf8_from(head + rest, 0) == utf8_of_unit(be_u16(head, 0)) + ucs2_to_utf8_from(rest, 0),
    decreases rest.len() / 2 - i,
{
    let full = head + rest;
    assert(full.len() / 2 == rest.len() / 2 + 1);
    if i < rest.len() / 2 {
        lemma_ucs2_shift_from(head, rest, i + 1);
        assert(be_u16(full, 2 * (i + 1)) == be_u16(rest, 2 * i));
    }
    if i == 0 {
        assert(be_u16(full, 0) == be_u16(head, 0));
    }
}

} // verus!
