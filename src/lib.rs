//! A decoder for SFNT-based font files (OpenType and TrueType): container
//! sniffing, the table directory, the `head`, `maxp`, `loca`, `glyf`, `cmap`
//! and `name` tables, and conversion of metadata strings to UTF-8.
use vstd::prelude::*;

pub mod bytes;
pub mod container;
pub mod encoding;
pub mod sfnt;
pub mod head;
pub mod maxp;
pub mod loca;
pub mod glyf;
pub mod cmap;
pub mod strings;
pub mod name;
pub mod opentype;
pub mod text;
pub mod font;

pub use font::{Font, FontParseErr};
pub use name::Name;

verus! {

} // verus!
