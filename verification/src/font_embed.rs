//! The objects that embed fonts: for each font a composite font, its
//! descendant with the widths of all glyphs, a descriptor, and the character
//! map that leads from glyphs back to codepoints.

use crate::compress::{deflate, deflated};
use crate::font::{em_of_units, CmapSubtable, FontFace, FontStore};
use crate::layout::FaceId;
use crate::refs::{Counts, FontRefs, Refs};
use crate::remap::Remapper;
use std::collections::HashMap;
use std::collections::HashSet;
use vstd::prelude::*;
use vstd::string::StrSliceExecFns;
use vstd::string::StringSliceAdditionalSpecFns;
use vstd::string::StringExecFns;

verus! {

broadcast use vstd::std_specs::hash::group_hash_axioms;

/// The builder of character maps of the `pdf_writer` crate.
#[verifier::external_type_specification]
#[verifier::external_body]
pub struct ExUnicodeCmap(::pdf_writer::types::UnicodeCmap);

/// The name, the registry, the ordering and the supplement that a character
/// map under construction was made with.
pub uninterp spec fn cmap_header(cmap: ::pdf_writer::types::UnicodeCmap) -> (Seq<u8>, Seq<u8>, Seq<u8>, i32);

/// The pairs of glyph and codepoint that were added to a character map under
/// construction, in the order in which they were added.
pub uninterp spec fn cmap_pairs(cmap: ::pdf_writer::types::UnicodeCmap) -> Seq<(u16, char)>;

/// The file that `pdf_writer` writes for a character map with the given name,
/// registry, ordering and supplement that maps each glyph of `pairs` to its
/// codepoint.
pub uninterp spec fn cmap_file(
    name: Seq<u8>,
    registry: Seq<u8>,
    ordering: Seq<u8>,
    supplement: i32,
    pairs: Seq<(u16, char)>,
) -> Seq<u8>;

/// Calls `pdf_writer::types::UnicodeCmap::new`. The new map holds no pair, and
/// remembers what it was made with.
#[verifier::external_body]
fn cmap_new(name: &[u8], registry: &[u8], ordering: &[u8], supplement: i32) -> (cmap:
    ::pdf_writer::types::UnicodeCmap)
    ensures
        cmap_header(cmap) == (name@, registry@, ordering@, supplement),
        cmap_pairs(cmap) == Seq::<(u16, char)>::empty(),
{
    let info = ::pdf_writer::types::SystemInfo {
        registry: ::pdf_writer::Str(registry),
        ordering: ::pdf_writer::Str(ordering),
        supplement,
    };
    ::pdf_writer::types::UnicodeCmap::new(::pdf_writer::Name(name), info)
}

/// Calls `pdf_writer::types::UnicodeCmap::pair`, which adds one pair after those
/// that the map holds.
#[verifier::external_body]
fn cmap_pair(cmap: &mut ::pdf_writer::types::UnicodeCmap, glyph: u16, codepoint: char)
    ensures
        cmap_header(*final(cmap)) == cmap_header(*old(cmap)),
        cmap_pairs(*final(cmap)) == cmap_pairs(*old(cmap)).push((glyph, codepoint)),
{
    cmap.pair(glyph, codepoint)
}

/// Calls `pdf_writer::types::UnicodeCmap::finish`. What it writes depends on
/// nothing but what the map was made with and the pairs added to it; the
/// contract gives it a name.
#[verifier::external_body]
fn cmap_finish(cmap: ::pdf_writer::types::UnicodeCmap) -> (file: Vec<u8>)
    ensures
        file@ == cmap_file(
            cmap_header(cmap).0,
            cmap_header(cmap).1,
            cmap_header(cmap).2,
            cmap_header(cmap).3,
            cmap_pairs(cmap),
        ),
{
    cmap.finish()
}

/// Which kind of CID-keyed font the descendant font is.
#[derive(Clone, Copy, PartialEq, Eq, Debug, Structural)]
pub enum CidFontType {
    /// The glyphs are described by CFF outlines.
    Type0,
    /// The glyphs are described by TrueType outlines.
    Type2,
}

/// Properties of a font that a reader may go by.
#[derive(Clone, Copy, PartialEq, Eq, Debug, Structural)]
pub struct FontFlags {
    pub serif: bool,
    pub fixed_pitch: bool,
    pub italic: bool,
    pub symbolic: bool,
    pub small_cap: bool,
}

/// A rectangle by two opposite corners, in thousandths of an em.
#[derive(Clone, Copy, PartialEq, Eq, Debug, Structural)]
pub struct FontBox {
    pub x1: i32,
    pub y1: i32,
    pub x2: i32,
    pub y2: i32,
}

/// The metrics of a font descriptor. Lengths are in thousandths of an em.
#[derive(Clone, Copy, PartialEq, Eq, Debug, Structural)]
pub struct FontDescriptor {
    pub flags: FontFlags,
    pub bbox: FontBox,
    /// The slant, as the face gives it.
    pub italic_angle: i32,
    pub ascent: i32,
    pub descent: i32,
    pub cap_height: i32,
    /// The estimated thickness of vertical stems, in thousandths of a unit
    /// of the width table.
    pub stem_v: i32,
}

/// The five objects that embed one font.
#[derive(Clone, Debug)]
pub struct FontObject {
    /// The numbers of the objects.
    pub refs: FontRefs,
    /// The face that is embedded.
    pub face_id: FaceId,
    /// The name of the font in the composite font, its descendant and the
    /// descriptor.
    pub base_font: String,
    /// The predefined encoding of the composite font.
    pub encoding: String,
    /// The subtype of the descendant font.
    pub subtype: CidFontType,
    /// The issuer of the character collection.
    pub registry: String,
    /// The name of the character collection.
    pub ordering: String,
    /// The version of the character collection.
    pub supplement: i32,
    /// The predefined map from character identifiers to glyphs.
    pub cid_to_gid_map: String,
    /// The width of every glyph of the face, by glyph number.
    pub widths: Vec<i32>,
    pub descriptor: FontDescriptor,
    /// The compressed character map from glyphs back to codepoints.
    pub to_unicode: Vec<u8>,
    /// The compressed font program: a subset of it if there is one, the
    /// whole if not.
    pub program: Vec<u8>,
    /// The glyphs that the document shows in this font, in rising order: those
    /// that a subset of the font program has to keep.
    pub glyphs: Vec<u16>,
}

/// What a `FontObject` stands for.
pub struct FontObjectView {
    pub refs: FontRefs,
    pub face_id: FaceId,
    pub base_font: Seq<char>,
    pub encoding: Seq<char>,
    pub subtype: CidFontType,
    pub registry: Seq<char>,
    pub ordering: Seq<char>,
    pub supplement: i32,
    pub cid_to_gid_map: Seq<char>,
    pub widths: Seq<i32>,
    pub descriptor: FontDescriptor,
    pub to_unicode: Seq<u8>,
    pub program: Seq<u8>,
    pub glyphs: Seq<u16>,
}

impl View for FontObject {
    type V = FontObjectView;

    open spec fn view(&self) -> FontObjectView {
        FontObjectView {
            refs: self.refs,
            face_id: self.face_id,
            base_font: self.base_font@,
            encoding: self.encoding@,
            subtype: self.subtype,
            registry: self.registry@,
            ordering: self.ordering@,
            supplement: self.supplement,
            cid_to_gid_map: self.cid_to_gid_map@,
            widths: self.widths@,
            descriptor: self.descriptor,
            to_unicode: self.to_unicode@,
            program: self.program@,
            glyphs: self.glyphs@,
        }
    }
}

/// Whether `pattern` stands in `text` from place `i` on.
pub open spec fn occurs_at(text: Seq<char>, pattern: Seq<char>, i: int) -> bool {
    0 <= i && i + pattern.len() <= text.len() && text.subrange(i, i + pattern.len()) == pattern
}

/// Whether `pattern` stands somewhere in `text`.
pub open spec fn occurs(text: Seq<char>, pattern: Seq<char>) -> bool {
    exists|i: int| occurs_at(text, pattern, i)
}

/// Whether `pattern` stands somewhere in `text`.
pub fn contains_str(text: &str, pattern: &str) -> (b: bool)
    ensures
        b == occurs(text@, pattern@),
{
    let n: usize = text.unicode_len();
    let m: usize = pattern.unicode_len();
    if m > n {
        return false;
    }
    if m == 0 {
        assert(text@.subrange(0, 0) =~= pattern@);
        assert(occurs_at(text@, pattern@, 0));
        return true;
    }
    let mut i: usize = 0;
    while i <= n - m
        invariant
            n == text@.len(),
            m == pattern@.len(),
            0 < m <= n,
            i <= n - m + 1,
            forall|k: int| 0 <= k < i ==> !occurs_at(text@, pattern@, k),
        decreases n - m + 1 - i,
    {
        let mut j: usize = 0;
        let mut same = true;
        while same && j < m
            invariant
                n == text@.len(),
                m == pattern@.len(),
                i + m <= n,
                j <= m,
                same ==> forall|t: int| 0 <= t < j ==> text@[i + t] == pattern@[t],
                !same ==> !occurs_at(text@, pattern@, i as int),
            decreases m - j + if same { 1int } else { 0int },
        {
            if text.get_char(i + j) == pattern.get_char(j) {
                j += 1;
            } else {
                same = false;
                assert(text@.subrange(i as int, i + m)[j as int] != pattern@[j as int]);
            }
        }
        if same {
            assert(text@.subrange(i as int, i + m) =~= pattern@);
            assert(occurs_at(text@, pattern@, i as int));
            return true;
        }
        i += 1;
    }
    false
}

/// The name under which a face is embedded: its PostScript name, or
/// `unknown`.
pub open spec fn font_name(face: FontFace) -> Seq<char> {
    match face.postscript_name {
        Some(name) => name@,
        None => "unknown"@,
    }
}

/// The name of the embedded font: six letters that mark a subset, a plus
/// sign, and the name of the face.
pub open spec fn base_font_name(face: FontFace) -> Seq<char> {
    "ABCDEF+"@ + font_name(face)
}

/// The estimate of the stem thickness for a weight class, in thousandths:
/// 10 and 0.244 for each step of the weight class above 50.
pub open spec fn stem_v(weight: u16) -> int {
    10000 + 244 * (weight - 50)
}

/// The descriptor of a face. A face counts as a serif face if its name holds
/// `Serif`; every face is marked as symbolic and as small caps.
pub open spec fn descriptor(face: FontFace) -> FontDescriptor {
    let upm = face.units_per_em as int;
    FontDescriptor {
        flags: FontFlags {
            serif: occurs(font_name(face), "Serif"@),
            fixed_pitch: face.monospaced,
            italic: face.italic,
            symbolic: true,
            small_cap: true,
        },
        bbox: FontBox {
            x1: em_of_units(face.bounding_box.x_min as int, upm) as i32,
            y1: em_of_units(face.bounding_box.y_min as int, upm) as i32,
            x2: em_of_units(face.bounding_box.x_max as int, upm) as i32,
            y2: em_of_units(face.bounding_box.y_max as int, upm) as i32,
        },
        italic_angle: face.italic_angle,
        ascent: face.ascender.0,
        descent: face.descender.0,
        cap_height: face.cap_height.0,
        stem_v: stem_v(face.weight) as i32,
    }
}

/// The widths of all glyphs of a face, by glyph number.
pub open spec fn widths(face: FontFace) -> Seq<i32> {
    Seq::new(face.advances@.len(), |glyph: int| face.width_at(glyph) as i32)
}

/// The pairs of codepoint and glyph that the Unicode tables among the first
/// `n` tables list, in the order of the tables.
pub open spec fn unicode_mappings(cmap: Seq<CmapSubtable>, n: int) -> Seq<(char, u16)>
    decreases n,
{
    if n <= 0 {
        Seq::empty()
    } else if cmap[n - 1].unicode {
        unicode_mappings(cmap, n - 1) + cmap[n - 1].mappings@
    } else {
        unicode_mappings(cmap, n - 1)
    }
}

/// The codepoint of the first of the pairs whose glyph is `glyph`.
pub open spec fn first_codepoint(pairs: Seq<(char, u16)>, glyph: u16) -> Option<char>
    decreases pairs.len(),
{
    if pairs.len() == 0 {
        None
    } else {
        match first_codepoint(pairs.drop_last(), glyph) {
            Some(c) => Some(c),
            None => if pairs.last().1 == glyph {
                Some(pairs.last().0)
            } else {
                None
            },
        }
    }
}

/// The glyphs below `n` that are in use, in rising order.
pub open spec fn glyphs_below(used: Set<u16>, n: int) -> Seq<u16>
    decreases n,
{
    if n <= 0 {
        Seq::empty()
    } else if used.contains((n - 1) as u16) {
        glyphs_below(used, n - 1).push((n - 1) as u16)
    } else {
        glyphs_below(used, n - 1)
    }
}

/// For the glyphs below `n` that are in use and have a codepoint among the
/// pairs: each glyph with its first codepoint, in rising order of the glyphs.
pub open spec fn reverse_map_below(pairs: Seq<(char, u16)>, used: Set<u16>, n: int) -> Seq<
    (u16, char),
>
    decreases n,
{
    if n <= 0 {
        Seq::empty()
    } else {
        let rest = reverse_map_below(pairs, used, n - 1);
        let glyph = (n - 1) as u16;
        match first_codepoint(pairs, glyph) {
            Some(c) => if used.contains(glyph) {
                rest.push((glyph, c))
            } else {
                rest
            },
            None => rest,
        }
    }
}

/// The map from the glyphs in use back to codepoints: for each glyph the
/// first codepoint that a Unicode table of the face lists for it.
pub open spec fn reverse_map(face: FontFace, used: Set<u16>) -> Seq<(u16, char)> {
    reverse_map_below(unicode_mappings(face.cmap@, face.cmap@.len() as int), used, 0x1_0000)
}

/// The compressed character map of a face for the glyphs in use.
pub open spec fn to_unicode(face: FontFace, used: Set<u16>) -> Seq<u8> {
    deflated(
        cmap_file(
            "Custom".spec_bytes(),
            "Adobe".spec_bytes(),
            "Identity".spec_bytes(),
            0,
            reverse_map(face, used),
        ),
    )
}

/// What a subset of a font program stands for.
pub open spec fn subset_view(subset: Option<Vec<u8>>) -> Option<Seq<u8>> {
    match subset {
        Some(bytes) => Some(bytes@),
        None => None,
    }
}

/// What the subsets of font programs stand for.
pub open spec fn subsets_view(subsets: Seq<Option<Vec<u8>>>) -> Seq<Option<Seq<u8>>> {
    subsets.map_values(|subset: Option<Vec<u8>>| subset_view(subset))
}

/// The subset for the font with index `k`; none where the subsets do not
/// reach as far.
pub open spec fn subset_at(subsets: Seq<Option<Seq<u8>>>, k: int) -> Option<Seq<u8>> {
    if 0 <= k < subsets.len() {
        subsets[k]
    } else {
        None
    }
}

/// The compressed font program that is embedded for a face: the subset if
/// there is one, the whole font program if not.
pub open spec fn program_stream(face: FontFace, subset: Option<Seq<u8>>) -> Seq<u8> {
    deflated(
        match subset {
            Some(bytes) => bytes,
            None => face.buffer@,
        },
    )
}

/// The objects that embed the font with index `k`.
pub open spec fn font_object(
    counts: Counts,
    ids: Seq<u32>,
    fonts: FontStore,
    used: Map<u32, Set<u16>>,
    subsets: Seq<Option<Seq<u8>>>,
    k: int,
) -> FontObjectView {
    let face_id = FaceId(ids[k]);
    let face = fonts.face(face_id);
    FontObjectView {
        refs: counts.font_refs(k),
        face_id,
        base_font: base_font_name(face),
        encoding: "Identity-H"@,
        subtype: if face.cff_outlines {
            CidFontType::Type0
        } else {
            CidFontType::Type2
        },
        registry: "Adobe"@,
        ordering: "Identity"@,
        supplement: 0,
        cid_to_gid_map: "Identity"@,
        widths: widths(face),
        descriptor: descriptor(face),
        to_unicode: to_unicode(face, used[ids[k]]),
        program: program_stream(face, subset_at(subsets, k)),
        glyphs: glyphs_below(used[ids[k]], 0x1_0000),
    }
}

/// The sets of glyphs that a map from faces to hash sets holds.
pub open spec fn sets_view(sets: Map<u32, HashSet<u16>>) -> Map<u32, Set<u16>> {
    sets.map_values(|set: HashSet<u16>| set@)
}

/// The first codepoint for a glyph among pairs with one pair more.
pub proof fn lemma_first_codepoint_push(pairs: Seq<(char, u16)>, pair: (char, u16), glyph: u16)
    ensures
        first_codepoint(pairs.push(pair), glyph) == (match first_codepoint(pairs, glyph) {
            Some(c) => Some(c),
            None => if pair.1 == glyph {
                Some(pair.0)
            } else {
                None
            },
        }),
{
    assert(pairs.push(pair).drop_last() =~= pairs);
}

/// The pairs of the Unicode tables among the first `tables` tables.
pub open spec fn mappings_upto(cmap: Seq<CmapSubtable>, tables: usize) -> Seq<(char, u16)> {
    unicode_mappings(cmap, tables as int)
}

/// The pairs of the Unicode tables among the first `tables` tables, and the
/// first `entries` pairs of the table after them.
pub open spec fn mappings_within(cmap: Seq<CmapSubtable>, tables: usize, entries: usize) -> Seq<
    (char, u16),
> {
    unicode_mappings(cmap, tables as int) + cmap[tables as int].mappings@.take(entries as int)
}

/// The table at place `place`.
pub open spec fn table_at(cmap: Seq<CmapSubtable>, place: usize) -> CmapSubtable {
    cmap[place as int]
}

/// All pairs of the Unicode tables of a face.
pub open spec fn all_mappings(face: FontFace) -> Seq<(char, u16)> {
    unicode_mappings(face.cmap@, face.cmap@.len() as int)
}

/// Whether a map holds, for the pairs seen so far, each glyph in use that
/// has a codepoint among them, with the first of its codepoints.
pub open spec fn holds_first(mapping: Map<u16, char>, seen: Seq<(char, u16)>, used: Set<u16>) -> bool {
    forall|glyph: u16|
        (#[trigger] mapping.contains_key(glyph) <==> used.contains(glyph) && first_codepoint(
            seen,
            glyph,
        ) is Some) && (mapping.contains_key(glyph) ==> Some(mapping[glyph]) == first_codepoint(
            seen,
            glyph,
        ))
}

/// What the map has to hold once one more pair is seen: the pair, if its
/// glyph is in use and has no codepoint yet.
pub open spec fn with_pair(mapping: Map<u16, char>, used: Set<u16>, pair: (char, u16)) -> Map<
    u16,
    char,
> {
    if used.contains(pair.1) && !mapping.contains_key(pair.1) {
        mapping.insert(pair.1, pair.0)
    } else {
        mapping
    }
}

/// Before any pair of a table is seen, the pairs of the tables before it are
/// seen.
pub proof fn lemma_within_start(cmap: Seq<CmapSubtable>, tables: usize)
    requires
        tables < cmap.len(),
    ensures
        mappings_within(cmap, tables, 0) == mappings_upto(cmap, tables),
{
    assert(mappings_within(cmap, tables, 0) =~= mappings_upto(cmap, tables));
}

/// Seeing one more pair of a table keeps the map as it has to be.
pub proof fn lemma_within_step(
    cmap: Seq<CmapSubtable>,
    tables: usize,
    entries: usize,
    mapping: Map<u16, char>,
    used: Set<u16>,
)
    requires
        tables < cmap.len(),
        entries < cmap[tables as int].mappings@.len() <= usize::MAX,
        holds_first(mapping, mappings_within(cmap, tables, entries), used),
    ensures
        holds_first(
            with_pair(mapping, used, cmap[tables as int].mappings@[entries as int]),
            mappings_within(cmap, tables, (entries + 1) as usize),
            used,
        ),
{
    let seen = mappings_within(cmap, tables, entries);
    let pair = cmap[tables as int].mappings@[entries as int];
    assert(mappings_within(cmap, tables, (entries + 1) as usize) =~= seen.push(pair));
    assert forall|glyph: u16|
        first_codepoint(seen.push(pair), glyph) == (match first_codepoint(seen, glyph) {
            Some(c) => Some(c),
            None => if pair.1 == glyph {
                Some(pair.0)
            } else {
                None
            },
        }) by {
        lemma_first_codepoint_push(seen, pair, glyph);
    }
}

/// When all pairs of a Unicode table are seen, the pairs of the tables up to
/// it are seen; a table that is not Unicode adds nothing.
pub proof fn lemma_within_end(cmap: Seq<CmapSubtable>, tables: usize)
    requires
        tables < cmap.len() <= usize::MAX,
        cmap[tables as int].mappings@.len() <= usize::MAX,
    ensures
        cmap[tables as int].unicode ==> mappings_within(
            cmap,
            tables,
            cmap[tables as int].mappings@.len() as usize,
        ) == mappings_upto(cmap, (tables + 1) as usize),
        !cmap[tables as int].unicode ==> mappings_upto(cmap, tables) == mappings_upto(
            cmap,
            (tables + 1) as usize,
        ),
{
    let table = cmap[tables as int].mappings@;
    assert(table.take(table.len() as int) =~= table);
    assert(mappings_within(cmap, tables, table.len() as usize) =~= unicode_mappings(
        cmap,
        tables as int,
    ) + table);
}

/// Rising pairs that are the entries of a map of first codepoints are the
/// map from the glyphs in use back to codepoints, as far as the glyphs below
/// `n` go.
proof fn lemma_rising_below(
    pairs: Seq<(u16, char)>,
    mapping: Map<u16, char>,
    walk: Seq<(char, u16)>,
    used: Set<u16>,
    n: int,
) -> (count: int)
    requires
        0 <= n <= 0x1_0000,
        holds_first(mapping, walk, used),
        forall|i: int, j: int| 0 <= i < j < pairs.len() ==> pairs[i].0 < pairs[j].0,
        forall|i: int|
            0 <= i < pairs.len() ==> mapping.contains_key(#[trigger] pairs[i].0)
                && mapping[pairs[i].0] == pairs[i].1,
        forall|glyph: u16| #[trigger]
            mapping.contains_key(glyph) ==> exists|i: int|
                0 <= i < pairs.len() && #[trigger] pairs[i].0 == glyph,
    ensures
        0 <= count <= pairs.len(),
        reverse_map_below(walk, used, n) == pairs.take(count),
        forall|i: int| 0 <= i < count ==> #[trigger] pairs[i].0 < n,
        forall|i: int| count <= i < pairs.len() ==> #[trigger] pairs[i].0 >= n,
    decreases n,
{
    if n == 0 {
        assert(pairs.take(0) =~= Seq::empty());
        0
    } else {
        let before = lemma_rising_below(pairs, mapping, walk, used, n - 1);
        let glyph = (n - 1) as u16;
        if mapping.contains_key(glyph) {
            let i = choose|i: int| 0 <= i < pairs.len() && #[trigger] pairs[i].0 == glyph;
            assert(i >= before);
            if i > before {
                assert(pairs[before].0 < pairs[i].0);
                assert(pairs[before].0 >= n - 1);
            }
            assert(i == before);
            assert(pairs.take(before + 1) =~= pairs.take(before).push(pairs[before]));
            assert forall|j: int| before + 1 <= j < pairs.len() implies #[trigger] pairs[j].0
                >= n by {
                assert(pairs[before].0 < pairs[j].0);
            }
            before + 1
        } else {
            assert forall|j: int| before <= j < pairs.len() implies #[trigger] pairs[j].0 >= n by {
                if pairs[j].0 == glyph {
                    assert(mapping.contains_key(pairs[j].0));
                }
            }
            before
        }
    }
}

/// Rising pairs that are the entries of a map of first codepoints are the
/// map from the glyphs in use back to codepoints.
pub proof fn lemma_rising_is_reverse_map(
    pairs: Seq<(u16, char)>,
    mapping: Map<u16, char>,
    walk: Seq<(char, u16)>,
    used: Set<u16>,
)
    requires
        holds_first(mapping, walk, used),
        forall|i: int, j: int| 0 <= i < j < pairs.len() ==> pairs[i].0 < pairs[j].0,
        forall|i: int|
            0 <= i < pairs.len() ==> mapping.contains_key(#[trigger] pairs[i].0)
                && mapping[pairs[i].0] == pairs[i].1,
        forall|glyph: u16| #[trigger]
            mapping.contains_key(glyph) ==> exists|i: int|
                0 <= i < pairs.len() && #[trigger] pairs[i].0 == glyph,
    ensures
        pairs == reverse_map_below(walk, used, 0x1_0000),
{
    let count = lemma_rising_below(pairs, mapping, walk, used, 0x1_0000);
    if count < pairs.len() {
        assert(pairs[count].0 >= 0x1_0000);
    }
    assert(pairs.take(count) =~= pairs);
}

/// The glyphs in use, in rising order.
pub fn used_glyphs(used: &HashSet<u16>) -> (glyphs: Vec<u16>)
    ensures
        glyphs@ == glyphs_below(used@, 0x1_0000),
{
    let mut glyphs: Vec<u16> = Vec::new();
    let mut n: u32 = 0;
    while n < 0x1_0000
        invariant
            n <= 0x1_0000,
            glyphs@ == glyphs_below(used@, n as int),
        decreases 0x1_0000 - n,
    {
        let glyph: u16 = n as u16;
        if used.contains(&glyph) {
            glyphs.push(glyph);
        }
        n += 1;
    }
    glyphs
}

/// Builds and compresses the character map of a face for the glyphs in use.
pub fn to_unicode_cmap(face: &FontFace, used: &HashSet<u16>) -> (stream: Vec<u8>)
    ensures
        stream@ == to_unicode(*face, used@),
{
    let pairs = crate::glyph_order::reverse_pairs(face, used);
    let mut cmap = cmap_new("Custom".as_bytes(), "Adobe".as_bytes(), "Identity".as_bytes(), 0);
    let mut k: usize = 0;
    while k < pairs.len()
        invariant
            k <= pairs.len(),
            cmap_header(cmap) == (
                "Custom".spec_bytes(),
                "Adobe".spec_bytes(),
                "Identity".spec_bytes(),
                0i32,
            ),
            cmap_pairs(cmap) == pairs@.take(k as int),
        decreases pairs.len() - k,
    {
        let pair = pairs[k];
        cmap_pair(&mut cmap, pair.0, pair.1);
        assert(pairs@.take(k + 1) =~= pairs@.take(k as int).push(pair));
        k += 1;
    }
    assert(pairs@.take(k as int) =~= pairs@);
    let file = cmap_finish(cmap);
    deflate(file.as_slice())
}

/// The widths of all glyphs of a face.
pub fn glyph_widths(face: &FontFace) -> (r: Vec<i32>)
    ensures
        r@ == widths(*face),
{
    let mut out: Vec<i32> = Vec::new();
    let mut glyph: usize = 0;
    while glyph < face.advances.len()
        invariant
            glyph <= face.advances.len(),
            out@.len() == glyph,
            forall|k: int| 0 <= k < glyph ==> out@[k] == face.width_at(k) as i32,
        decreases face.advances.len() - glyph,
    {
        let units: u16 = match face.advances[glyph] {
            Some(units) => units,
            None => 0,
        };
        out.push(face.to_em(units as i32).to_pdf());
        glyph += 1;
    }
    assert(out@ =~= widths(*face));
    out
}

/// The name of a face.
fn face_name(face: &FontFace) -> (name: &str)
    ensures
        name@ == font_name(*face),
{
    match &face.postscript_name {
        Some(name) => name.as_str(),
        None => "unknown",
    }
}

/// The descriptor of a face.
pub fn describe(face: &FontFace) -> (r: FontDescriptor)
    ensures
        r == descriptor(*face),
{
    let serif = contains_str(face_name(face), "Serif");
    let bbox = face.bounding_box;
    FontDescriptor {
        flags: FontFlags {
            serif,
            fixed_pitch: face.monospaced,
            italic: face.italic,
            symbolic: true,
            small_cap: true,
        },
        bbox: FontBox {
            x1: face.to_em(bbox.x_min as i32).to_pdf(),
            y1: face.to_em(bbox.y_min as i32).to_pdf(),
            x2: face.to_em(bbox.x_max as i32).to_pdf(),
            y2: face.to_em(bbox.y_max as i32).to_pdf(),
        },
        italic_angle: face.italic_angle,
        ascent: face.ascender.to_pdf(),
        descent: face.descender.to_pdf(),
        cap_height: face.cap_height.to_pdf(),
        stem_v: 10000 + 244 * (face.weight as i32 - 50),
    }
}

/// Describes the objects that embed a face under the given numbers, for the
/// glyphs in use, with the subset of its font program if there is one.
pub fn write_font(
    refs: FontRefs,
    face_id: FaceId,
    face: &FontFace,
    used: &HashSet<u16>,
    subset: &Option<Vec<u8>>,
) -> (font: FontObject)
    ensures
        font@ == (FontObjectView {
            refs,
            face_id,
            base_font: base_font_name(*face),
            encoding: "Identity-H"@,
            subtype: if face.cff_outlines {
                CidFontType::Type0
            } else {
                CidFontType::Type2
            },
            registry: "Adobe"@,
            ordering: "Identity"@,
            supplement: 0,
            cid_to_gid_map: "Identity"@,
            widths: widths(*face),
            descriptor: descriptor(*face),
            to_unicode: to_unicode(*face, used@),
            program: program_stream(*face, subset_view(*subset)),
            glyphs: glyphs_below(used@, 0x1_0000),
        }),
{
    let mut base_font = String::from_str("ABCDEF+");
    base_font.append(face_name(face));
    let subtype = if face.cff_outlines {
        CidFontType::Type0
    } else {
        CidFontType::Type2
    };
    FontObject {
        refs,
        face_id,
        base_font,
        encoding: String::from_str("Identity-H"),
        subtype,
        registry: String::from_str("Adobe"),
        ordering: String::from_str("Identity"),
        supplement: 0,
        cid_to_gid_map: String::from_str("Identity"),
        widths: glyph_widths(face),
        descriptor: describe(face),
        to_unicode: to_unicode_cmap(face, used),
        program: embed_program(face.buffer.as_slice(), subset),
        glyphs: used_glyphs(used),
    }
}

/// Whether the store holds a face for each identifier.
pub open spec fn fonts_resolve(ids: Seq<u32>, fonts: FontStore) -> bool {
    forall|k: int| 0 <= k < ids.len() ==> fonts.has(FaceId(#[trigger] ids[k]))
}

/// Describes the objects that embed the fonts of a document, in the order of
/// their indices. `glyphs` holds for each face the glyphs that the document
/// shows in it, `subsets` for each index the subset of the font program if
/// there is one; a font that `subsets` does not reach is embedded whole.
///
/// The numbering must have been made for this number of fonts.
pub fn write_fonts(
    refs: &Refs,
    font_map: &Remapper,
    fonts: &FontStore,
    glyphs: &HashMap<u32, HashSet<u16>>,
    subsets: &Vec<Option<Vec<u8>>>,
) -> (objects: Vec<FontObject>)
    requires
        font_map.wf(),
        fonts_resolve(font_map@, *fonts),
        refs@.fonts == font_map@.len(),
        forall|k: int| 0 <= k < font_map@.len() ==> glyphs@.contains_key(#[trigger] font_map@[k]),
    ensures
        objects@.len() == font_map@.len(),
        forall|k: int|
            0 <= k < objects@.len() ==> (#[trigger] objects@[k])@ == font_object(
                refs@,
                font_map@,
                *fonts,
                sets_view(glyphs@),
                subsets_view(subsets@),
                k,
            ),
{
    let ids = font_map.layout_indices();
    let whole: Option<Vec<u8>> = None;
    let font_refs = refs.fonts();
    let mut objects: Vec<FontObject> = Vec::new();
    let mut k: usize = 0;
    while k < ids.len()
        invariant
            k <= ids.len(),
            ids@ == font_map@,
            fonts_resolve(font_map@, *fonts),
            forall|j: int|
                0 <= j < font_map@.len() ==> glyphs@.contains_key(#[trigger] font_map@[j]),
            font_refs@.len() == font_map@.len(),
            forall|j: int|
                0 <= j < font_refs@.len() ==> #[trigger] font_refs@[j] == refs@.font_refs(j),
            objects@.len() == k,
            forall|j: int|
                0 <= j < objects@.len() ==> (#[trigger] objects@[j])@ == font_object(
                    refs@,
                    font_map@,
                    *fonts,
                    sets_view(glyphs@),
                    subsets_view(subsets@),
                    j,
                ),
            whole is None,
        decreases ids.len() - k,
    {
        let face_id = FaceId(ids[k]);
        let face = fonts.get(face_id);
        let subset = if k < subsets.len() {
            &subsets[k]
        } else {
            &whole
        };
        assert(glyphs@.contains_key(font_map@[k as int]));
        let used = glyphs.get(&ids[k]).unwrap();
        let font = write_font(font_refs[k], face_id, face, used, subset);
        objects.push(font);
        k += 1;
    }
    objects
}

/// Chooses and compresses the font program that is embedded: the subset if
/// there is one, the whole font program if not.
pub fn embed_program(full: &[u8], subset: &Option<Vec<u8>>) -> (stream: Vec<u8>)
    ensures
        stream@ == deflated(
            match *subset {
                Some(bytes) => bytes@,
                None => full@,
            },
        ),
{
    match subset {
        Some(bytes) => deflate(bytes.as_slice()),
        None => deflate(full),
    }
}

} // verus!
