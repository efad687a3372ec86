//! Font faces as the export reads them.

use crate::geom::{div_to_zero, Em};
use crate::layout::FaceId;
use vstd::prelude::*;

verus! {

/// The bounding box of all glyphs of a face, in font units.
#[derive(Clone, Copy, PartialEq, Eq, Debug, Structural)]
pub struct BoundingBox {
    pub x_min: i16,
    pub y_min: i16,
    pub x_max: i16,
    pub y_max: i16,
}

/// One character mapping table of a face.
#[derive(Clone, Debug)]
pub struct CmapSubtable {
    /// Whether the table maps Unicode codepoints.
    pub unicode: bool,
    /// The codepoints that the table lists, in its order, each with the glyph
    /// that the face shows for it.
    pub mappings: Vec<(char, u16)>,
}

/// A font face: its program, and what the export reads of its tables.
#[derive(Clone, Debug)]
pub struct FontFace {
    /// The bytes of the font file.
    pub buffer: Vec<u8>,
    /// The index of the face in the font file.
    pub index: u32,
    /// The number of font units in one em.
    pub units_per_em: u16,
    pub ascender: Em,
    pub descender: Em,
    pub cap_height: Em,
    /// The PostScript name from the naming table, if it has one.
    pub postscript_name: Option<String>,
    /// Whether the outlines are in a `CFF ` or `CFF2` table.
    pub cff_outlines: bool,
    /// The horizontal advance of each glyph in font units, by glyph number;
    /// `None` for a glyph without horizontal metrics.
    pub advances: Vec<Option<u16>>,
    pub monospaced: bool,
    pub italic: bool,
    pub bounding_box: BoundingBox,
    /// The slant of the face as a whole number of angle units.
    pub italic_angle: i32,
    /// The weight class as the font file gives it: 400 for a regular face,
    /// 700 for a bold one; any number may stand here.
    pub weight: u16,
    /// The character mapping tables in the order of the font file.
    pub cmap: Vec<CmapSubtable>,
}

/// `units` font units in thousandths of an em of `units_per_em` units,
/// rounded towards zero; zero if an em has no units.
pub open spec fn em_of_units(units: int, units_per_em: int) -> int {
    if units_per_em <= 0 {
        0
    } else {
        div_to_zero(units * 1000, units_per_em)
    }
}

impl FontFace {
    /// The number of glyphs of the face.
    pub open spec fn glyph_count(&self) -> nat {
        self.advances@.len()
    }

    /// The advance of a glyph in thousandths of an em, if the face has
    /// horizontal metrics for it.
    pub open spec fn spec_advance(&self, glyph: u16) -> Option<int> {
        if glyph < self.advances@.len() {
            match self.advances@[glyph as int] {
                Some(units) => Some(em_of_units(units as int, self.units_per_em as int)),
                None => None,
            }
        } else {
            None
        }
    }

    /// The width of the glyph with the number `glyph` in the width table of
    /// the embedded font: its advance in thousandths of an em, or zero where
    /// it has none.
    pub open spec fn width_at(&self, glyph: int) -> int {
        match self.advances@[glyph] {
            Some(units) => em_of_units(units as int, self.units_per_em as int),
            None => 0,
        }
    }

    /// Converts font units, which take sixteen bits, to ems.
    pub fn to_em(&self, units: i32) -> (r: Em)
        requires
            -65536 < units < 65536,
        ensures
            r.0 == em_of_units(units as int, self.units_per_em as int),
    {
        if self.units_per_em == 0 {
            Em(0)
        } else {
            let scaled: i64 = (units as i64) * 1000;
            Em((scaled / (self.units_per_em as i64)) as i32)
        }
    }

    /// The advance of a glyph, if the face has horizontal metrics for it.
    pub fn advance(&self, glyph: u16) -> (r: Option<Em>)
        ensures
            match r {
                Some(em) => self.spec_advance(glyph) == Some(em.0 as int),
                None => self.spec_advance(glyph) is None,
            },
    {
        if (glyph as usize) < self.advances.len() {
            match self.advances[glyph as usize] {
                Some(units) => Some(self.to_em(units as i32)),
                None => None,
            }
        } else {
            None
        }
    }
}

/// The font faces of a document, by the number in their `FaceId`.
#[derive(Clone, Debug)]
pub struct FontStore {
    pub faces: Vec<FontFace>,
}

impl FontStore {
    /// Whether the store has a face for `id`.
    pub open spec fn has(&self, id: FaceId) -> bool {
        id.0 < self.faces@.len()
    }

    /// The face for `id`.
    pub open spec fn face(&self, id: FaceId) -> FontFace
        recommends
            self.has(id),
    {
        self.faces@[id.0 as int]
    }

    /// Whether the store has a face for `id`.
    pub fn contains(&self, id: FaceId) -> (b: bool)
        ensures
            b == self.has(id),
    {
        (id.0 as usize) < self.faces.len()
    }

    /// The face for `id`.
    pub fn get(&self, id: FaceId) -> (face: &FontFace)
        requires
            self.has(id),
        ensures
            *face == self.face(id),
    {
        &self.faces[id.0 as usize]
    }
}

} // verus!
