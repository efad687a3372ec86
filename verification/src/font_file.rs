//! Reading a face from a font file with `ttf_parser`.

use crate::font::{BoundingBox, CmapSubtable, FontFace};
use crate::geom::Em;
use vstd::prelude::*;

verus! {

/// A parsed face of the `ttf_parser` crate. It borrows the bytes of the font
/// file.
#[verifier::external_type_specification]
#[verifier::external_body]
pub struct ExFace<'a>(::ttf_parser::Face<'a>);

/// The bytes of the font file that a face was parsed from.
pub uninterp spec fn face_data(face: ::ttf_parser::Face) -> Seq<u8>;

/// The index at which a face was parsed from its font file.
pub uninterp spec fn face_index(face: ::ttf_parser::Face) -> u32;

/// Whether `ttf_parser` finds a face at `index` in a font file.
pub uninterp spec fn font_parses(data: Seq<u8>, index: u32) -> bool;

/// Whether the face has a table with the given tag of four bytes.
pub uninterp spec fn font_has_table(data: Seq<u8>, index: u32, tag: Seq<u8>) -> bool;

/// The number of glyphs of the face.
pub uninterp spec fn font_glyph_count(data: Seq<u8>, index: u32) -> u16;

/// The horizontal advance of a glyph in font units, as the table of
/// horizontal metrics gives it.
pub uninterp spec fn font_advance(data: Seq<u8>, index: u32, glyph: u16) -> Option<u16>;

/// Whether the face says of itself that all its glyphs have one width.
pub uninterp spec fn font_monospaced(data: Seq<u8>, index: u32) -> bool;

/// Whether the face says of itself that it is italic.
pub uninterp spec fn font_italic(data: Seq<u8>, index: u32) -> bool;

/// The bounding box of all glyphs: the smallest `x` and `y`, then the
/// largest, in font units.
pub uninterp spec fn font_bounding_box(data: Seq<u8>, index: u32) -> (i16, i16, i16, i16);

/// The weight class of the face.
pub uninterp spec fn font_weight(data: Seq<u8>, index: u32) -> u16;

/// Whether the character mapping table at place `table` maps Unicode
/// codepoints; `None` if `ttf_parser`, going through the tables from the
/// first, does not come to a table at that place: the face has fewer tables,
/// or the table there or one before it cannot be read.
pub uninterp spec fn font_cmap_unicode(data: Seq<u8>, index: u32, table: u16) -> Option<bool>;

/// The codepoints that the character mapping table at place `table` lists,
/// in its order; none if `ttf_parser` does not come to a table at that place.
pub uninterp spec fn font_cmap_codepoints(data: Seq<u8>, index: u32, table: u16) -> Seq<u32>;

/// The glyph that the face shows for a character.
pub uninterp spec fn font_glyph_index(data: Seq<u8>, index: u32, c: char) -> Option<u16>;

/// Calls `ttf_parser::Face::from_slice`. Parsing reads nothing but the bytes
/// and the index, so the contract names whether it succeeds, and says of the
/// face what it was parsed from.
#[verifier::external_body]
fn parse_face<'a>(data: &'a [u8], index: u32) -> (r: Option<::ttf_parser::Face<'a>>)
    ensures
        match r {
            Some(face) => font_parses(data@, index) && face_data(face) == data@ && face_index(face)
                == index,
            None => !font_parses(data@, index),
        },
{
    ::ttf_parser::Face::from_slice(data, index).ok()
}

/// Calls `ttf_parser::Face::table_data` and tells whether it found the table.
#[verifier::external_body]
fn has_table(face: &::ttf_parser::Face, tag: &[u8; 4]) -> (r: bool)
    ensures
        r == font_has_table(face_data(*face), face_index(*face), tag@),
{
    face.table_data(::ttf_parser::Tag::from_bytes(tag)).is_some()
}

/// Calls `ttf_parser::Face::number_of_glyphs`.
#[verifier::external_body]
fn number_of_glyphs(face: &::ttf_parser::Face) -> (r: u16)
    ensures
        r == font_glyph_count(face_data(*face), face_index(*face)),
{
    face.number_of_glyphs()
}

/// Calls `ttf_parser::Face::glyph_hor_advance`. The crate is built without
/// its support for variable fonts, so the call reads the table of horizontal
/// metrics alone and returns for every face and glyph.
#[verifier::external_body]
fn glyph_hor_advance(face: &::ttf_parser::Face, glyph: u16) -> (r: Option<u16>)
    ensures
        r == font_advance(face_data(*face), face_index(*face), glyph),
{
    face.glyph_hor_advance(::ttf_parser::GlyphId(glyph))
}

/// Calls `ttf_parser::Face::is_monospaced`.
#[verifier::external_body]
fn is_monospaced(face: &::ttf_parser::Face) -> (r: bool)
    ensures
        r == font_monospaced(face_data(*face), face_index(*face)),
{
    face.is_monospaced()
}

/// Calls `ttf_parser::Face::is_italic`.
#[verifier::external_body]
fn is_italic(face: &::ttf_parser::Face) -> (r: bool)
    ensures
        r == font_italic(face_data(*face), face_index(*face)),
{
    face.is_italic()
}

/// Calls `ttf_parser::Face::global_bounding_box`.
#[verifier::external_body]
fn global_bounding_box(face: &::ttf_parser::Face) -> (r: BoundingBox)
    ensures
        (r.x_min, r.y_min, r.x_max, r.y_max) == font_bounding_box(
            face_data(*face),
            face_index(*face),
        ),
{
    let rect = face.global_bounding_box();
    BoundingBox { x_min: rect.x_min, y_min: rect.y_min, x_max: rect.x_max, y_max: rect.y_max }
}

/// Calls `ttf_parser::Face::weight` and takes the number of the weight.
#[verifier::external_body]
fn weight(face: &::ttf_parser::Face) -> (r: u16)
    ensures
        r == font_weight(face_data(*face), face_index(*face)),
{
    face.weight().to_number()
}

/// Calls `ttf_parser::Face::character_mapping_subtables`, goes to the table
/// at place `table`, and calls `ttf_parser::cmap::Subtable::is_unicode` on it.
#[verifier::external_body]
fn subtable_is_unicode(face: &::ttf_parser::Face, table: u16) -> (r: Option<bool>)
    ensures
        r == font_cmap_unicode(face_data(*face), face_index(*face), table),
{
    match face.character_mapping_subtables().nth(table as usize) {
        Some(subtable) => Some(subtable.is_unicode()),
        None => None,
    }
}

/// Adds a codepoint to those that were listed.
fn list(codepoints: &mut Vec<u32>, codepoint: u32)
    ensures
        final(codepoints)@ == old(codepoints)@.push(codepoint),
{
    codepoints.push(codepoint);
}

/// Calls `ttf_parser::Face::character_mapping_subtables`, goes to the table
/// at place `table`, and calls `ttf_parser::cmap::Subtable::codepoints` on it,
/// which hands over the codepoints of the table one by one.
#[verifier::external_body]
fn subtable_codepoints(face: &::ttf_parser::Face, table: u16) -> (r: Vec<u32>)
    ensures
        r@ == font_cmap_codepoints(face_data(*face), face_index(*face), table),
{
    let mut codepoints = Vec::new();
    if let Some(subtable) = face.character_mapping_subtables().nth(table as usize) {
        subtable.codepoints(|codepoint| list(&mut codepoints, codepoint));
    }
    codepoints
}

/// Calls `ttf_parser::Face::glyph_index`.
#[verifier::external_body]
fn glyph_index(face: &::ttf_parser::Face, c: char) -> (r: Option<u16>)
    ensures
        r == font_glyph_index(face_data(*face), face_index(*face), c),
{
    match face.glyph_index(c) {
        Some(glyph) => Some(glyph.0),
        None => None,
    }
}

/// Whether a number is a Unicode scalar value: a codepoint that is no
/// surrogate.
pub open spec fn is_scalar_value(n: u32) -> bool {
    n < 0xD800 || 0xE000 <= n < 0x11_0000
}

/// Calls `char::from_u32`, which gives the character for a Unicode scalar
/// value and `None` for any other number.
#[verifier::external_body]
fn char_from_u32(n: u32) -> (r: Option<char>)
    ensures
        match r {
            Some(c) => is_scalar_value(n) && c == n as char,
            None => !is_scalar_value(n),
        },
{
    char::from_u32(n)
}

/// What is known of a face before its tables are read here.
#[derive(Clone, Debug)]
pub struct FaceInfo {
    /// The number of font units in one em, if the face gives a valid one.
    pub units_per_em: Option<u16>,
    /// The ascender in font units.
    pub ascender: i16,
    /// The descender in font units.
    pub descender: i16,
    /// The height of capital letters in font units, if the face gives one.
    pub cap_height: Option<i16>,
    /// The PostScript name from the naming table, if it has one.
    pub postscript_name: Option<String>,
    /// The slant of the face as a whole number of angle units.
    pub italic_angle: i32,
}

/// The tag of the table of CFF outlines: `CFF` and a space.
pub open spec fn cff_tag() -> Seq<u8> {
    seq![67u8, 70u8, 70u8, 32u8]
}

/// The tag of the table of CFF outlines of the second version: `CFF2`.
pub open spec fn cff2_tag() -> Seq<u8> {
    seq![67u8, 70u8, 70u8, 50u8]
}

/// For the first `n` of the codepoints that are characters and for which the
/// face shows a glyph: each with that glyph, in the order of the codepoints.
pub open spec fn codepoint_mappings(data: Seq<u8>, index: u32, codepoints: Seq<u32>, n: int) -> Seq<
    (char, u16),
>
    decreases n,
{
    if n <= 0 {
        Seq::empty()
    } else {
        let rest = codepoint_mappings(data, index, codepoints, n - 1);
        let codepoint = codepoints[n - 1];
        if is_scalar_value(codepoint) {
            match font_glyph_index(data, index, codepoint as char) {
                Some(glyph) => rest.push((codepoint as char, glyph)),
                None => rest,
            }
        } else {
            rest
        }
    }
}

/// The character mapping table at place `table`: whether it maps Unicode
/// codepoints, and if it does, the codepoints that it lists with their
/// glyphs. `None` if `ttf_parser` does not come to a table at that place.
pub open spec fn font_table(data: Seq<u8>, index: u32, table: u16) -> Option<
    (bool, Seq<(char, u16)>),
> {
    match font_cmap_unicode(data, index, table) {
        Some(unicode) => {
            let codepoints = font_cmap_codepoints(data, index, table);
            Some(
                (
                    unicode,
                    if unicode {
                        codepoint_mappings(data, index, codepoints, codepoints.len() as int)
                    } else {
                        Seq::empty()
                    },
                ),
            )
        },
        None => None,
    }
}

/// The character mapping tables at the places below `n`, as far as there is
/// a readable table at every place before them.
pub open spec fn font_tables(data: Seq<u8>, index: u32, n: int) -> Seq<(bool, Seq<(char, u16)>)>
    decreases n,
{
    if n <= 0 {
        Seq::empty()
    } else {
        let rest = font_tables(data, index, n - 1);
        if rest.len() == n - 1 {
            match font_table(data, index, (n - 1) as u16) {
                Some(table) => rest.push(table),
                None => rest,
            }
        } else {
            rest
        }
    }
}

/// What a table of a face holds.
pub open spec fn table_view(table: CmapSubtable) -> (bool, Seq<(char, u16)>) {
    (table.unicode, table.mappings@)
}

/// What the tables of a face hold.
pub open spec fn tables_view(tables: Seq<CmapSubtable>) -> Seq<(bool, Seq<(char, u16)>)> {
    tables.map_values(|table: CmapSubtable| table_view(table))
}

/// The number of font units in one em of a face: zero, with which all its
/// lengths are zero, if the face gives no valid number.
pub open spec fn units_of(info: FaceInfo) -> u16 {
    match info.units_per_em {
        Some(units) => units,
        None => 0,
    }
}

/// The height of capital letters of a face in font units: the ascender, if
/// the face gives no height.
pub open spec fn cap_height_of(info: FaceInfo) -> i16 {
    match info.cap_height {
        Some(height) => height,
        None => info.ascender,
    }
}

/// Whether `face` is what the font file `data` holds at `index`, with what
/// is known of it beforehand.
pub open spec fn face_reads(face: FontFace, data: Seq<u8>, index: u32, info: FaceInfo) -> bool {
    let upm = units_of(info) as int;
    &&& face.buffer@ == data
    &&& face.index == index
    &&& face.units_per_em == units_of(info)
    &&& face.ascender.0 == crate::font::em_of_units(info.ascender as int, upm)
    &&& face.descender.0 == crate::font::em_of_units(info.descender as int, upm)
    &&& face.cap_height.0 == crate::font::em_of_units(cap_height_of(info) as int, upm)
    &&& face.postscript_name == info.postscript_name
    &&& face.italic_angle == info.italic_angle
    &&& face.cff_outlines == (font_has_table(data, index, cff_tag()) || font_has_table(
        data,
        index,
        cff2_tag(),
    ))
    &&& face.advances@ == Seq::new(
        font_glyph_count(data, index) as nat,
        |glyph: int| font_advance(data, index, glyph as u16),
    )
    &&& face.monospaced == font_monospaced(data, index)
    &&& face.italic == font_italic(data, index)
    &&& (
        face.bounding_box.x_min,
        face.bounding_box.y_min,
        face.bounding_box.x_max,
        face.bounding_box.y_max,
    ) == font_bounding_box(data, index)
    &&& face.weight == font_weight(data, index)
    &&& tables_view(face.cmap@) == font_tables(data, index, 0xffff)
}

/// The tables below `n` are at most `n`, and once a place has no readable
/// table, no later place adds one.
proof fn lemma_font_tables_stop(data: Seq<u8>, index: u32, n: int, more: int)
    requires
        0 <= n <= more,
    ensures
        font_tables(data, index, n).len() <= n,
        font_tables(data, index, n).len() < n ==> font_tables(data, index, more) == font_tables(
            data,
            index,
            n,
        ),
    decreases more,
{
    if n > 0 {
        lemma_font_tables_stop(data, index, n - 1, n - 1);
    }
    if n < more {
        lemma_font_tables_stop(data, index, n, more - 1);
        lemma_font_tables_stop(data, index, more - 1, more - 1);
    }
}

/// Reads the codepoints of a table that are characters for which the face
/// shows a glyph, each with that glyph.
fn read_mappings(ttf: &::ttf_parser::Face, table: u16) -> (mappings: Vec<(char, u16)>)
    ensures
        mappings@ == codepoint_mappings(
            face_data(*ttf),
            face_index(*ttf),
            font_cmap_codepoints(face_data(*ttf), face_index(*ttf), table),
            font_cmap_codepoints(face_data(*ttf), face_index(*ttf), table).len() as int,
        ),
{
    let codepoints = subtable_codepoints(ttf, table);
    let mut mappings: Vec<(char, u16)> = Vec::new();
    let mut k: usize = 0;
    while k < codepoints.len()
        invariant
            k <= codepoints.len(),
            codepoints@ == font_cmap_codepoints(face_data(*ttf), face_index(*ttf), table),
            mappings@ == codepoint_mappings(
                face_data(*ttf),
                face_index(*ttf),
                codepoints@,
                k as int,
            ),
        decreases codepoints.len() - k,
    {
        match char_from_u32(codepoints[k]) {
            Some(c) => {
                match glyph_index(ttf, c) {
                    Some(glyph) => {
                        mappings.push((c, glyph));
                    },
                    None => {},
                }
            },
            None => {},
        }
        k += 1;
    }
    mappings
}

/// Reads the character mapping tables of a face.
fn read_tables(ttf: &::ttf_parser::Face) -> (tables: Vec<CmapSubtable>)
    ensures
        tables_view(tables@) == font_tables(face_data(*ttf), face_index(*ttf), 0xffff),
{
    let ghost data = face_data(*ttf);
    let ghost index = face_index(*ttf);
    let mut tables: Vec<CmapSubtable> = Vec::new();
    let mut place: u16 = 0;
    let mut more = true;
    assert(tables_view(tables@) =~= Seq::empty());
    while more && place < 0xffff
        invariant
            place <= 0xffff,
            data == face_data(*ttf),
            index == face_index(*ttf),
            tables_view(tables@) == font_tables(data, index, place as int),
            more ==> tables@.len() == place,
            !more ==> tables@.len() < place,
        decreases 0xffff - place + if more { 1int } else { 0int },
    {
        match subtable_is_unicode(ttf, place) {
            Some(unicode) => {
                let mappings = if unicode {
                    read_mappings(ttf, place)
                } else {
                    Vec::new()
                };
                let table = CmapSubtable { unicode, mappings };
                assert(tables_view(tables@.push(table)) =~= tables_view(tables@).push(
                    table_view(table),
                ));
                tables.push(table);
            },
            None => {
                more = false;
            },
        }
        place += 1;
    }
    proof {
        lemma_font_tables_stop(data, index, place as int, 0xffff);
    }
    tables
}

impl FontFace {
    /// Reads a face from a font file. Returns `None` if no face can be parsed
    /// at `index`.
    pub fn read(buffer: Vec<u8>, index: u32, info: FaceInfo) -> (r: Option<FontFace>)
        ensures
            match r {
                Some(face) => font_parses(buffer@, index) && face_reads(
                    face,
                    buffer@,
                    index,
                    info,
                ),
                None => !font_parses(buffer@, index),
            },
    {
        let ttf = match parse_face(buffer.as_slice(), index) {
            Some(ttf) => ttf,
            None => {
                return None;
            },
        };
        let cff: [u8; 4] = [67, 70, 70, 32];
        let cff2: [u8; 4] = [67, 70, 70, 50];
        assert(cff@ =~= cff_tag());
        assert(cff2@ =~= cff2_tag());
        let cff_outlines = has_table(&ttf, &cff) || has_table(&ttf, &cff2);

        let count: u16 = number_of_glyphs(&ttf);
        let mut advances: Vec<Option<u16>> = Vec::new();
        let mut glyph: u16 = 0;
        while glyph < count
            invariant
                glyph <= count,
                face_data(ttf) == buffer@,
                face_index(ttf) == index,
                advances@.len() == glyph,
                forall|g: int|
                    0 <= g < glyph ==> advances@[g] == font_advance(buffer@, index, g as u16),
            decreases count - glyph,
        {
            advances.push(glyph_hor_advance(&ttf, glyph));
            glyph += 1;
        }
        assert(advances@ =~= Seq::new(
            font_glyph_count(buffer@, index) as nat,
            |glyph: int| font_advance(buffer@, index, glyph as u16),
        ));

        let monospaced = is_monospaced(&ttf);
        let italic = is_italic(&ttf);
        let bounding_box = global_bounding_box(&ttf);
        let weight = weight(&ttf);
        let cmap = read_tables(&ttf);

        let units_per_em: u16 = match info.units_per_em {
            Some(units) => units,
            None => 0,
        };
        let cap_height: i16 = match info.cap_height {
            Some(height) => height,
            None => info.ascender,
        };
        let mut face = FontFace {
            buffer: Vec::new(),
            index,
            units_per_em: units_per_em,
            ascender: Em(0),
            descender: Em(0),
            cap_height: Em(0),
            postscript_name: info.postscript_name,
            cff_outlines,
            advances,
            monospaced,
            italic,
            bounding_box,
            italic_angle: info.italic_angle,
            weight,
            cmap,
        };
        face.ascender = face.to_em(info.ascender as i32);
        face.descender = face.to_em(info.descender as i32);
        face.cap_height = face.to_em(cap_height as i32);
        face.buffer = buffer;
        Some(face)
    }
}

} // verus!
