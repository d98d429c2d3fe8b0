//! Choosing the conversion for a record's encoding, and turning the UTF-8
//! bytes it gives into a `String`.
use vstd::prelude::*;
use vstd::utf8::{decode_utf8, valid_utf8};
use crate::encoding::Encoding;
use crate::strings::{roman_to_ucs2, ucs2_to_utf8, AppleRoman, Ucs2, Utf8};

verus! {

/// Carriage returns replaced by line feeds.
pub open spec fn cr_to_lf(s: Seq<u8>) -> Seq<u8> {
    s.map_values(|b: u8| if b == 0x0D { 0x0Au8 } else { b })
}

/// The UTF-8 bytes of a string stored in `encoding`: UCS-2 for the Unicode
/// 1.0, 1.1 and 2.0 BMP encodings and for Windows Unicode BMP; the bytes as
/// they are for the full-repertoire Unicode encodings; Mac OS Roman with
/// line endings normalized. Any other encoding gives no string.
pub open spec fn utf8_bytes_of(encoding: Option<Encoding>, b: Seq<u8>) -> Option<Seq<u8>> {
    match encoding {
        Some(Encoding::Unicode1) => Some(ucs2_to_utf8(b)),
        Some(Encoding::Unicode11) => Some(ucs2_to_utf8(b)),
        Some(Encoding::Unicode2BMP) => Some(ucs2_to_utf8(b)),
        Some(Encoding::WindowsUnicodeBMP) => Some(ucs2_to_utf8(b)),
        Some(Encoding::Unicode2Full) => Some(b),
        Some(Encoding::UnicodeFull) => Some(b),
        Some(Encoding::MacintoshRoman) => Some(cr_to_lf(ucs2_to_utf8(roman_to_ucs2(b)))),
        _ => None,
    }
}

/// The UTF-8 text of a string stored in `encoding`, when the conversion
/// applies and gives well-formed UTF-8.
pub open spec fn decoded_text(encoding: Option<Encoding>, b: Seq<u8>) -> Option<Seq<u8>> {
    match utf8_bytes_of(encoding, b) {
        Some(u) => if valid_utf8(u) {
            Some(u)
        } else {
            None
        },
        None => None,
    }
}

/// Relies on `String::from_utf8`: it accepts exactly the well-formed UTF-8
/// byte sequences, and the string holds the characters they encode.
#[verifier::external_body]
pub(crate) fn string_from_utf8(bytes: Vec<u8>) -> (r: Option<String>)
    ensures
        r is Some <==> valid_utf8(bytes@),
        r is Some ==> r->Some_0@ == decode_utf8(bytes@),
{
    String::from_utf8(bytes).ok()
}

/// Replaces each carriage return by a line feed.
pub fn normalize_line_endings(bytes: &mut Vec<u8>)
    ensures
        final(bytes)@ == cr_to_lf(old(bytes)@),
{
    let ghost before = bytes@;
    let mut i: usize = 0;
    while i < bytes.len()
        invariant
            bytes@.len() == before.len(),
            i <= bytes@.len(),
            forall|j: int| 0 <= j < i ==> #[trigger] bytes@[j] == cr_to_lf(before)[j],
            forall|j: int| i <= j < bytes@.len() ==> #[trigger] bytes@[j] == before[j],
        decreases bytes@.len() - i,
    {
        if bytes[i] == 0x0D {
            bytes.set(i, 0x0A);
        }
        i = i + 1;
    }
    assert(bytes@ =~= cr_to_lf(before));
}

/// Converts a string stored in `encoding` to UTF-8 bytes, if the encoding is
/// one that can be converted.
pub fn to_utf8_bytes(encoding: Option<Encoding>, bytes: &[u8]) -> (r: Option<Vec<u8>>)
    ensures
        r is Some <==> utf8_bytes_of(encoding, bytes@) is Some,
        r is Some ==> r->Some_0@ == utf8_bytes_of(encoding, bytes@)->Some_0,
{
    match encoding {
        Some(Encoding::Unicode1) | Some(Encoding::Unicode11) | Some(Encoding::Unicode2BMP)
        | Some(Encoding::WindowsUnicodeBMP) => {
            Some(Utf8::from_ucs2(&Ucs2::from_bytes(bytes)).bytes)
        },
        Some(Encoding::Unicode2Full) | Some(Encoding::UnicodeFull) => {
            Some(Utf8::from_bytes(bytes).bytes)
        },
        Some(Encoding::MacintoshRoman) => {
            let mut out = Utf8::from_apple_roman(&AppleRoman::from_bytes(bytes)).bytes;
            normalize_line_endings(&mut out);
            Some(out)
        },
        _ => None,
    }
}

/// The text of a string stored in `encoding`, when it can be converted to
/// well-formed UTF-8.
pub fn parse_string(encoding: Option<Encoding>, bytes: &[u8]) -> (r: Option<String>)
    ensures
        r is Some <==> decoded_text(encoding, bytes@) is Some,
        r is Some ==> r->Some_0@ == decode_utf8(decoded_text(encoding, bytes@)->Some_0),
{
    match to_utf8_bytes(encoding, bytes) {
        Some(u) => string_from_utf8(u),
        None => None,
    }
}

} // verus!
