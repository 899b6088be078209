//! User interface text: the glyph quads of a font and its kerning lookups.

pub mod font;
