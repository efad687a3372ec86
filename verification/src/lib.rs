//! Planning of PDF documents from laid-out page frames.
//!
//! The library turns frames into a complete description of a document: the
//! number of every indirect object, the operators of each page's content
//! stream, the objects that embed the fonts and the images. Lengths are whole
//! numbers throughout; writing the description out as a file is left to the
//! caller.
//!
//! * [`remap`] gives the fonts and images in use small consecutive indices.
//! * [`refs`] numbers all objects before any of them is described.
//! * [`content`] writes the operators of a page.
//! * [`font_embed`] and [`image_encode`] describe the font and image objects;
//!   [`glyph_order`] gathers the map from glyphs back to codepoints.
//! * [`collect`] gathers what frames use.
//! * [`export`] puts the document together.
//! * [`geom`], [`layout`], [`font`] and [`raster`] hold what goes in.
//! * [`font_file`] reads a face from a font file.
//!
//! Every function states what it computes, and Verus proves that it does.
//! Three things are taken on trust, each behind small functions that say so:
//! the zlib streams of `miniz_oxide` in [`compress`], the character maps of
//! `pdf_writer` in [`font_embed`], and what `ttf_parser` finds in a font file
//! in [`font_file`].

pub mod collect;
pub mod compress;
pub mod content;
pub mod export;
pub mod font;
pub mod font_embed;
pub mod font_file;
pub mod geom;
pub mod glyph_order;
pub mod image_encode;
pub mod layout;
pub mod raster;
pub mod refs;
pub mod remap;
