//! The platform and encoding registry: numeric ids found in `cmap` and `name`
//! records, mapped to the text encoding they stand for.
use vstd::prelude::*;

verus! {

/// Platform ids.
#[derive(Clone, Copy, Debug, PartialEq, Eq, Structural)]
pub enum Platform {
    Unicode,
    Macintosh,
    /// Deprecated as of OpenType 1.3.
    ISO,
    Windows,
    Custom,
}

/// The platform that `id` names, if any.
pub open spec fn platform_for(id: u16) -> Option<Platform> {
    match id {
        0 => Some(Platform::Unicode),
        1 => Some(Platform::Macintosh),
        2 => Some(Platform::ISO),
        3 => Some(Platform::Windows),
        4 => Some(Platform::Custom),
        _ => None,
    }
}

impl Platform {
    /// The platform with the given id, if one is defined.
    pub fn lookup(platform_id: u16) -> (r: Option<Platform>)
        ensures
            r == platform_for(platform_id),
    {
        match platform_id {
            0 => Some(Platform::Unicode),
            1 => Some(Platform::Macintosh),
            2 => Some(Platform::ISO),
            3 => Some(Platform::Windows),
            4 => Some(Platform::Custom),
            _ => None,
        }
    }
}

/// Encodings, each scoped to one platform.
#[derive(Clone, Copy, Debug, PartialEq, Eq, Structural)]
pub enum Encoding {
    // Unicode and ISO platforms
    /// 7-bit ASCII.
    Ascii,
    /// ISO 10646.
    ISO10646,
    /// ISO 8859-1.
    ISO8859_1,
    /// Unicode 1.0 (deprecated).
    Unicode1,
    /// Unicode 1.1 (deprecated).
    Unicode11,
    /// ISO/IEC 10646 on the Unicode platform (deprecated).
    UnicodeISO10646,
    /// Unicode 2.0, BMP only.
    Unicode2BMP,
    /// Unicode 2.0, full repertoire.
    Unicode2Full,
    /// Unicode variation sequences.
    UnicodeVariation,
    /// Unicode full repertoire.
    UnicodeFull,
    // Macintosh platform
    MacintoshRoman,
    MacintoshJapanese,
    MacintoshChineseTraditional,
    MacintoshKorean,
    MacintoshArabic,
    MacintoshHebrew,
    MacintoshGreek,
    MacintoshRussian,
    MacintoshRSymbol,
    MacintoshDevanagari,
    MacintoshGurmukhi,
    MacintoshGujarati,
    MacintoshOriya,
    MacintoshBengali,
    MacintoshTamil,
    MacintoshTelugu,
    MacintoshKannada,
    MacintoshMalayalam,
    MacintoshSinhalese,
    MacintoshBurmese,
    MacintoshKhmer,
    MacintoshThai,
    MacintoshLaotian,
    MacintoshGeorgian,
    MacintoshArmenian,
    MacintoshChineseSimplified,
    MacintoshTibetan,
    MacintoshMongolian,
    MacintoshGeez,
    MacintoshSlavic,
    MacintoshVietnamese,
    MacintoshSindhi,
    MacintoshUninterpreted,
    // Windows platform
    WindowsSymbol,
    /// UCS-2.
    WindowsUnicodeBMP,
    WindowsShiftJIS,
    WindowsPRC,
    WindowsBig5,
    WindowsWansung,
    WindowsJohab,
    WindowsUnicodeUCS4,
    /// Any id on the custom platform, kept as it is.
    Custom { encoding: u16 },
}

/// The Unicode-platform encoding with id `id`, if any.
pub open spec fn unicode_encoding(id: u16) -> Option<Encoding> {
    match id {
        0 => Some(Encoding::Unicode1),
        1 => Some(Encoding::Unicode11),
        2 => Some(Encoding::UnicodeISO10646),
        3 => Some(Encoding::Unicode2BMP),
        4 => Some(Encoding::Unicode2Full),
        5 => Some(Encoding::UnicodeVariation),
        6 => Some(Encoding::UnicodeFull),
        _ => None,
    }
}

/// The Macintosh-platform encoding with id `id`, if any.
pub open spec fn macintosh_encoding(id: u16) -> Option<Encoding> {
    match id {
        0 => Some(Encoding::MacintoshRoman),
        1 => Some(Encoding::MacintoshJapanese),
        2 => Some(Encoding::MacintoshChineseTraditional),
        3 => Some(Encoding::MacintoshKorean),
        4 => Some(Encoding::MacintoshArabic),
        5 => Some(Encoding::MacintoshHebrew),
        6 => Some(Encoding::MacintoshGreek),
        7 => Some(Encoding::MacintoshRussian),
        8 => Some(Encoding::MacintoshRSymbol),
        9 => Some(Encoding::MacintoshDevanagari),
        10 => Some(Encoding::MacintoshGurmukhi),
        11 => Some(Encoding::MacintoshGujarati),
        12 => Some(Encoding::MacintoshOriya),
        13 => Some(Encoding::MacintoshBengali),
        14 => Some(Encoding::MacintoshTamil),
        15 => Some(Encoding::MacintoshTelugu),
        16 => Some(Encoding::MacintoshKannada),
        17 => Some(Encoding::MacintoshMalayalam),
        18 => Some(Encoding::MacintoshSinhalese),
        19 => Some(Encoding::MacintoshBurmese),
        20 => Some(Encoding::MacintoshKhmer),
        21 => Some(Encoding::MacintoshThai),
        22 => Some(Encoding::MacintoshLaotian),
        23 => Some(Encoding::MacintoshGeorgian),
        24 => Some(Encoding::MacintoshArmenian),
        25 => Some(Encoding::MacintoshChineseSimplified),
        26 => Some(Encoding::MacintoshTibetan),
        27 => Some(Encoding::MacintoshMongolian),
        28 => Some(Encoding::MacintoshGeez),
        29 => Some(Encoding::MacintoshSlavic),
        30 => Some(Encoding::MacintoshVietnamese),
        31 => Some(Encoding::MacintoshSindhi),
        32 => Some(Encoding::MacintoshUninterpreted),
        _ => None,
    }
}

/// The ISO-platform encoding with id `id`, if any.
pub open spec fn iso_encoding(id: u16) -> Option<Encoding> {
    match id {
        0 => Some(Encoding::Ascii),
        1 => Some(Encoding::ISO10646),
        2 => Some(Encoding::ISO8859_1),
        _ => None,
    }
}

/// The Windows-platform encoding with id `id`, if any.
pub open spec fn windows_encoding(id: u16) -> Option<Encoding> {
    match id {
        0 => Some(Encoding::WindowsSymbol),
        1 => Some(Encoding::WindowsUnicodeBMP),
        2 => Some(Encoding::WindowsShiftJIS),
        3 => Some(Encoding::WindowsPRC),
        4 => Some(Encoding::WindowsBig5),
        5 => Some(Encoding::WindowsWansung),
        6 => Some(Encoding::WindowsJohab),
        10 => Some(Encoding::WindowsUnicodeUCS4),
        _ => None,
    }
}

/// The encoding that `id` names on `platform`, if any; every id names one
/// on the custom platform.
pub open spec fn encoding_for(platform: Platform, id: u16) -> Option<Encoding> {
    match platform {
        Platform::Unicode => unicode_encoding(id),
        Platform::Macintosh => macintosh_encoding(id),
        Platform::ISO => iso_encoding(id),
        Platform::Windows => windows_encoding(id),
        Platform::Custom => Some(Encoding::Custom { encoding: id }),
    }
}

impl Encoding {
    /// The encoding that `encoding_id` names on `platform`; `None` for an id
    /// that has no meaning there. Every id is accepted on the custom platform.
    pub fn lookup(platform: Platform, encoding_id: u16) -> (r: Option<Encoding>)
        ensures
            r == encoding_for(platform, encoding_id),
    {
        match platform {
            Platform::Unicode => unicode_lookup(encoding_id),
            Platform::Macintosh => macintosh_lookup(encoding_id),
            Platform::ISO => iso_lookup(encoding_id),
            Platform::Windows => windows_lookup(encoding_id),
            Platform::Custom => Some(Encoding::Custom { encoding: encoding_id }),
        }
    }
}

fn unicode_lookup(id: u16) -> (r: Option<Encoding>)
    ensures
        r == unicode_encoding(id),
{
    match id {
        0 => Some(Encoding::Unicode1),
        1 => Some(Encoding::Unicode11),
        2 => Some(Encoding::UnicodeISO10646),
        3 => Some(Encoding::Unicode2BMP),
        4 => Some(Encoding::Unicode2Full),
        5 => Some(Encoding::UnicodeVariation),
        6 => Some(Encoding::UnicodeFull),
        _ => None,
    }
}

fn iso_lookup(id: u16) -> (r: Option<Encoding>)
    ensures
        r == iso_encoding(id),
{
    match id {
        0 => Some(Encoding::Ascii),
        1 => Some(Encoding::ISO10646),
        2 => Some(Encoding::ISO8859_1),
        _ => None,
    }
}

fn windows_lookup(id: u16) -> (r: Option<Encoding>)
    ensures
        r == windows_encoding(id),
{
    match id {
        0 => Some(Encoding::WindowsSymbol),
        1 => Some(Encoding::WindowsUnicodeBMP),
        2 => Some(Encoding::WindowsShiftJIS),
        3 => Some(Encoding::WindowsPRC),
        4 => Some(Encoding::WindowsBig5),
        5 => Some(Encoding::WindowsWansung),
        6 => Some(Encoding::WindowsJohab),
        10 => Some(Encoding::WindowsUnicodeUCS4),
        _ => None,
    }
}

fn macintosh_lookup(id: u16) -> (r: Option<Encoding>)
    ensures
        r == macintosh_encoding(id),
{
    match id {
        0 => Some(Encoding::MacintoshRoman),
        1 => Some(Encoding::MacintoshJapanese),
        2 => Some(Encoding::MacintoshChineseTraditional),
        3 => Some(Encoding::MacintoshKorean),
        4 => Some(Encoding::MacintoshArabic),
        5 => Some(Encoding::MacintoshHebrew),
        6 => Some(Encoding::MacintoshGreek),
        7 => Some(Encoding::MacintoshRussian),
        8 => Some(Encoding::MacintoshRSymbol),
        9 => Some(Encoding::MacintoshDevanagari),
        10 => Some(Encoding::MacintoshGurmukhi),
        11 => Some(Encoding::MacintoshGujarati),
        12 => Some(Encoding::MacintoshOriya),
        13 => Some(Encoding::MacintoshBengali),
        14 => Some(Encoding::MacintoshTamil),
        15 => Some(Encoding::MacintoshTelugu),
        16 => Some(Encoding::MacintoshKannada),
        17 => Some(Encoding::MacintoshMalayalam),
        18 => Some(Encoding::MacintoshSinhalese),
        19 => Some(Encoding::MacintoshBurmese),
        20 => Some(Encoding::MacintoshKhmer),
        21 => Some(Encoding::MacintoshThai),
        22 => Some(Encoding::MacintoshLaotian),
        23 => Some(Encoding::MacintoshGeorgian),
        24 => Some(Encoding::MacintoshArmenian),
        25 => Some(Encoding::MacintoshChineseSimplified),
        26 => Some(Encoding::MacintoshTibetan),
        27 => Some(Encoding::MacintoshMongolian),
        28 => Some(Encoding::MacintoshGeez),
        29 => Some(Encoding::MacintoshSlavic),
        30 => Some(Encoding::MacintoshVietnamese),
        31 => Some(Encoding::MacintoshSindhi),
        32 => Some(Encoding::MacintoshUninterpreted),
        _ => None,
    }
}

} // verus!
