//! Container-format sniffing from magic bytes.
use vstd::prelude::*;

verus! {

/// Whether the four bytes at `off` are `a b c d`.
pub open spec fn signature_at(s: Seq<u8>, off: int, a: u8, b: u8, c: u8, d: u8) -> bool {
    0 <= off && off + 4 <= s.len() && s[off] == a && s[off + 1] == b && s[off + 2] == c
        && s[off + 3] == d
}

fn matches_at(data: &[u8], off: usize, a: u8, b: u8, c: u8, d: u8) -> (r: bool)
    ensures
        r == signature_at(data@, off as int, a, b, c, d),
{
    off <= data.len() && data.len() - off >= 4 && data[off] == a && data[off + 1] == b
        && data[off + 2] == c && data[off + 3] == d
}

/// The container kinds that can be recognized from their magic bytes.
#[derive(Clone, Copy, Debug, PartialEq, Eq, Structural)]
pub enum FileType {
    /// SFNT version 0x00010000: OpenType with TrueType outlines.
    OpenTypeWithTrueTypeOutlines,
    /// `OTTO`: OpenType with CFF data.
    OpenTypeWithCFFData,
    /// `ttcf`: a collection of OpenType fonts.
    OpenTypeCollection,
    /// `typ1`: a PostScript font in an SFNT wrapper.
    PostScript,
    /// `true`: Apple-compatible TrueType.
    AppleCompatibleTrueType,
    /// `wOFF`: WOFF 1.0.
    Woff,
    /// `wOF2`: WOFF 2.0.
    Woff2,
    /// An Embedded OpenType file, recognized by its version at offset 8.
    EmbeddedOpenType,
}

/// Whether the buffer starts with the SFNT version of TrueType-outline OpenType.
pub open spec fn is_opentype_truetype(s: Seq<u8>) -> bool {
    signature_at(s, 0, 0x00, 0x01, 0x00, 0x00)
}

pub open spec fn is_opentype_cff(s: Seq<u8>) -> bool {
    signature_at(s, 0, 0x4F, 0x54, 0x54, 0x4F)
}

pub open spec fn is_opentype_collection(s: Seq<u8>) -> bool {
    signature_at(s, 0, 0x74, 0x74, 0x63, 0x66)
}

pub open spec fn is_postscript(s: Seq<u8>) -> bool {
    signature_at(s, 0, 0x74, 0x79, 0x70, 0x31)
}

pub open spec fn is_apple_truetype(s: Seq<u8>) -> bool {
    signature_at(s, 0, 0x74, 0x72, 0x75, 0x65)
}

pub open spec fn is_woff(s: Seq<u8>) -> bool {
    signature_at(s, 0, 0x77, 0x4F, 0x46, 0x46)
}

pub open spec fn is_woff2(s: Seq<u8>) -> bool {
    signature_at(s, 0, 0x77, 0x4F, 0x46, 0x32)
}

/// The Embedded OpenType versions 0x00010000, 0x00020001 and 0x00020002,
/// stored little-endian at offset 8.
pub open spec fn is_embedded_opentype(s: Seq<u8>) -> bool {
    signature_at(s, 8, 0x00, 0x00, 0x01, 0x00) || signature_at(s, 8, 0x01, 0x00, 0x02, 0x00)
        || signature_at(s, 8, 0x02, 0x00, 0x02, 0x00)
}

/// The container kind of a buffer: the signatures at offset 0 first, then
/// the one at offset 8.
pub open spec fn classify(s: Seq<u8>) -> Option<FileType> {
    if is_opentype_truetype(s) {
        Some(FileType::OpenTypeWithTrueTypeOutlines)
    } else if is_opentype_cff(s) {
        Some(FileType::OpenTypeWithCFFData)
    } else if is_opentype_collection(s) {
        Some(FileType::OpenTypeCollection)
    } else if is_postscript(s) {
        Some(FileType::PostScript)
    } else if is_apple_truetype(s) {
        Some(FileType::AppleCompatibleTrueType)
    } else if is_woff(s) {
        Some(FileType::Woff)
    } else if is_woff2(s) {
        Some(FileType::Woff2)
    } else if is_embedded_opentype(s) {
        Some(FileType::EmbeddedOpenType)
    } else {
        None
    }
}

/// Whether a container kind is laid out as an SFNT table directory that this
/// library decodes.
pub open spec fn is_sfnt_kind(t: FileType) -> bool {
    t == FileType::OpenTypeWithTrueTypeOutlines || t == FileType::OpenTypeWithCFFData
        || t == FileType::AppleCompatibleTrueType
}

impl FileType {
    /// Classifies a buffer by its magic bytes; `None` when no signature
    /// matches, including when the buffer is too short to hold one.
    pub fn detect(content: &[u8]) -> (r: Option<FileType>)
        ensures
            r == classify(content@),
    {
        if OpenTypeFile::detect(content) {
            Some(FileType::OpenTypeWithTrueTypeOutlines)
        } else if OpenTypeCffFile::detect(content) {
            Some(FileType::OpenTypeWithCFFData)
        } else if OpenTypeCollectionFile::detect(content) {
            Some(FileType::OpenTypeCollection)
        } else if PostScriptFile::detect(content) {
            Some(FileType::PostScript)
        } else if TrueTypeFile::detect(content) {
            Some(FileType::AppleCompatibleTrueType)
        } else if WoffFile::detect(content) {
            Some(FileType::Woff)
        } else if Woff2File::detect(content) {
            Some(FileType::Woff2)
        } else if EmbeddedOpenTypeFile::detect(content) {
            Some(FileType::EmbeddedOpenType)
        } else {
            None
        }
    }

    /// Whether the kind is one whose table directory this library decodes.
    pub fn is_sfnt(&self) -> (r: bool)
        ensures
            r == is_sfnt_kind(*self),
    {
        match self {
            FileType::OpenTypeWithTrueTypeOutlines
            | FileType::OpenTypeWithCFFData
            | FileType::AppleCompatibleTrueType => true,
            _ => false,
        }
    }
}

/// OpenType with TrueType outlines.
pub struct OpenTypeFile {}

impl OpenTypeFile {
    pub fn detect(content: &[u8]) -> (r: bool)
        ensures
            r == is_opentype_truetype(content@),
    {
        matches_at(content, 0, 0x00, 0x01, 0x00, 0x00)
    }
}

/// OpenType with CFF data.
pub struct OpenTypeCffFile {}

impl OpenTypeCffFile {
    pub fn detect(content: &[u8]) -> (r: bool)
        ensures
            r == is_opentype_cff(content@),
    {
        matches_at(content, 0, 0x4F, 0x54, 0x54, 0x4F)
    }
}

/// An OpenType font collection.
pub struct OpenTypeCollectionFile {}

impl OpenTypeCollectionFile {
    pub fn detect(content: &[u8]) -> (r: bool)
        ensures
            r == is_opentype_collection(content@),
    {
        matches_at(content, 0, 0x74, 0x74, 0x63, 0x66)
    }
}

/// A PostScript font in an SFNT wrapper.
pub struct PostScriptFile {}

impl PostScriptFile {
    pub fn detect(content: &[u8]) -> (r: bool)
        ensures
            r == is_postscript(content@),
    {
        matches_at(content, 0, 0x74, 0x79, 0x70, 0x31)
    }
}

/// Apple-compatible TrueType.
pub struct TrueTypeFile {}

impl TrueTypeFile {
    pub fn detect(content: &[u8]) -> (r: bool)
        ensures
            r == is_apple_truetype(content@),
    {
        matches_at(content, 0, 0x74, 0x72, 0x75, 0x65)
    }
}

/// WOFF 1.0.
pub struct WoffFile {}

impl WoffFile {
    pub fn detect(content: &[u8]) -> (r: bool)
        ensures
            r == is_woff(content@),
    {
        matches_at(content, 0, 0x77, 0x4F, 0x46, 0x46)
    }
}

/// WOFF 2.0.
pub struct Woff2File {}

impl Woff2File {
    pub fn detect(content: &[u8]) -> (r: bool)
        ensures
            r == is_woff2(content@),
    {
        matches_at(content, 0, 0x77, 0x4F, 0x46, 0x32)
    }
}

/// Embedded OpenType.
pub struct EmbeddedOpenTypeFile {}

impl EmbeddedOpenTypeFile {
    pub fn detect(content: &[u8]) -> (r: bool)
        ensures
            r == is_embedded_opentype(content@),
    {
        matches_at(content, 8, 0x00, 0x00, 0x01, 0x00) || matches_at(content, 8, 0x01, 0x00, 0x02, 0x00)
            || matches_at(content, 8, 0x02, 0x00, 0x02, 0x00)
    }
}

} // verus!
