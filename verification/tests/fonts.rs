use pdf_export::font::{BoundingBox, CmapSubtable, FontFace, FontStore};
use pdf_export::font_embed::{
    contains_str, describe, embed_program, glyph_widths, to_unicode_cmap, used_glyphs,
    write_font, write_fonts, CidFontType, FontBox, FontFlags,
};
use pdf_export::glyph_order::{reverse_pairs, sorted_pairs};
use pdf_export::geom::Em;
use pdf_export::layout::FaceId;
use pdf_export::refs::{Ref, Refs};
use pdf_export::remap::Remapper;
use std::collections::{HashMap, HashSet};

fn face() -> FontFace {
    FontFace {
        buffer: vec![1, 2, 3, 4],
        index: 0,
        units_per_em: 2048,
        ascender: Em(900),
        descender: Em(-250),
        cap_height: Em(700),
        postscript_name: Some("NotoSerif-Regular".to_string()),
        cff_outlines: false,
        advances: vec![Some(1229), None, Some(2048), Some(0), Some(1)],
        monospaced: false,
        italic: true,
        bounding_box: BoundingBox { x_min: -500, y_min: -600, x_max: 3000, y_max: 2100 },
        italic_angle: -12,
        weight: 400,
        cmap: vec![
            CmapSubtable { unicode: false, mappings: vec![('x', 2)] },
            CmapSubtable { unicode: true, mappings: vec![('A', 2), ('B', 4), ('C', 2), ('D', 3)] },
            CmapSubtable { unicode: true, mappings: vec![('E', 0), ('F', 4)] },
        ],
    }
}

fn set(glyphs: &[u16]) -> HashSet<u16> {
    glyphs.iter().copied().collect()
}

fn inflate(data: &[u8]) -> Vec<u8> {
    miniz_oxide::inflate::decompress_to_vec_zlib(data).unwrap()
}

fn holds(text: &[u8], part: &[u8]) -> bool {
    text.windows(part.len()).any(|w| w == part)
}

#[test]
fn units_become_thousandths_of_an_em() {
    let f = face();
    assert_eq!(f.to_em(1229), Em(600));
    assert_eq!(f.to_em(2048), Em(1000));
    assert_eq!(f.to_em(0), Em(0));
    assert_eq!(f.to_em(-500), Em(-244));
    assert_eq!(f.to_em(-1), Em(0));
    assert_eq!(f.to_em(65535), Em(31999));
    assert_eq!(f.to_em(-65535), Em(-31999));
    let mut small = face();
    small.units_per_em = 1;
    assert_eq!(small.to_em(65535), Em(65_535_000));
    let mut none = face();
    none.units_per_em = 0;
    assert_eq!(none.to_em(700), Em(0));
    assert_eq!(Em(-31999).to_pdf(), -31999);
}

#[test]
fn advance_is_known_for_glyphs_with_metrics() {
    let f = face();
    assert_eq!(f.advance(0), Some(Em(600)));
    assert_eq!(f.advance(1), None);
    assert_eq!(f.advance(2), Some(Em(1000)));
    assert_eq!(f.advance(5), None);
    assert_eq!(f.advance(u16::MAX), None);
}

#[test]
fn widths_cover_every_glyph() {
    assert_eq!(glyph_widths(&face()), vec![600, 0, 1000, 0, 0]);
    let mut empty = face();
    empty.advances = vec![];
    assert_eq!(glyph_widths(&empty), Vec::<i32>::new());
}

#[test]
fn text_search_finds_patterns() {
    assert!(contains_str("NotoSerif-Regular", "Serif"));
    assert!(contains_str("Serif", "Serif"));
    assert!(contains_str("SansSerif", "Serif"));
    assert!(contains_str("SeSerif", "Serif"));
    assert!(!contains_str("Seri", "Serif"));
    assert!(!contains_str("serif", "Serif"));
    assert!(!contains_str("", "Serif"));
    assert!(contains_str("", ""));
    assert!(contains_str("abc", ""));
    assert!(contains_str("Sérif Serif", "Serif"));
}

#[test]
fn descriptor_holds_flags_and_metrics() {
    let d = describe(&face());
    assert_eq!(
        d.flags,
        FontFlags { serif: true, fixed_pitch: false, italic: true, symbolic: true, small_cap: true }
    );
    assert_eq!(d.bbox, FontBox { x1: -244, y1: -292, x2: 1464, y2: 1025 });
    assert_eq!(d.italic_angle, -12);
    assert_eq!(d.ascent, 900);
    assert_eq!(d.descent, -250);
    assert_eq!(d.cap_height, 700);
    assert_eq!(d.stem_v, 95_400);
}

#[test]
fn stem_thickness_follows_the_weight() {
    for (weight, stem_v) in [(50u16, 10_000), (1, -1_956), (700, 168_600), (u16::MAX, 15_988_340)] {
        let mut f = face();
        f.weight = weight;
        assert_eq!(describe(&f).stem_v, stem_v);
    }
}

#[test]
fn face_without_serif_in_its_name_is_no_serif_face() {
    let mut f = face();
    f.postscript_name = Some("Helvetica".to_string());
    f.monospaced = true;
    f.italic = false;
    let flags = describe(&f).flags;
    assert_eq!(
        flags,
        FontFlags { serif: false, fixed_pitch: true, italic: false, symbolic: true, small_cap: true }
    );
    f.postscript_name = None;
    assert!(!describe(&f).flags.serif);
}

#[test]
fn reverse_map_takes_the_first_codepoint_of_each_used_glyph() {
    let f = face();
    assert_eq!(reverse_pairs(&f, &set(&[4, 2, 0, 9])), vec![(0, 'E'), (2, 'A'), (4, 'B')]);
    assert_eq!(reverse_pairs(&f, &set(&[3])), vec![(3, 'D')]);
    assert_eq!(reverse_pairs(&f, &set(&[1, 7])), vec![]);
    assert_eq!(reverse_pairs(&f, &set(&[])), vec![]);
}

#[test]
fn tables_that_are_not_unicode_are_left_out() {
    let mut f = face();
    f.cmap = vec![CmapSubtable { unicode: false, mappings: vec![('x', 2)] }];
    assert_eq!(reverse_pairs(&f, &set(&[2])), vec![]);
}

#[test]
fn largest_glyph_number_is_mapped() {
    let mut f = face();
    f.cmap = vec![CmapSubtable { unicode: true, mappings: vec![('z', u16::MAX), ('a', 0)] }];
    assert_eq!(reverse_pairs(&f, &set(&[u16::MAX, 0])), vec![(0, 'a'), (u16::MAX, 'z')]);
}

#[test]
fn used_glyphs_come_in_rising_order() {
    assert_eq!(used_glyphs(&set(&[500, 3, 65535, 0, 3])), vec![0, 3, 500, 65535]);
    assert_eq!(used_glyphs(&set(&[])), Vec::<u16>::new());
}

#[test]
fn character_map_lists_the_pairs() {
    let stream = to_unicode_cmap(&face(), &set(&[0, 2, 4]));
    let file = inflate(&stream);
    assert!(holds(&file, b"begincmap"));
    assert!(holds(&file, b"/CMapName /Custom def"));
    assert!(holds(&file, b"/Registry (Adobe) def"));
    assert!(holds(&file, b"/Ordering (Identity) def"));
    assert!(holds(&file, b"/Supplement 0 def"));
    assert!(holds(&file, b"3 beginbfchar\n<0000> <0045>\n<0002> <0041>\n<0004> <0042>\nendbfchar"));
    assert!(file.ends_with(b"%%EOF"));

    let none = inflate(&to_unicode_cmap(&face(), &set(&[])));
    assert!(holds(&none, b"begincmap"));
    assert!(!holds(&none, b"beginbfchar"));
    assert_ne!(none, file);
}

#[test]
fn character_map_writes_codepoints_beyond_the_basic_plane() {
    let mut f = face();
    f.cmap = vec![CmapSubtable { unicode: true, mappings: vec![('\u{1F600}', 7)] }];
    let file = inflate(&to_unicode_cmap(&f, &set(&[7])));
    assert!(holds(&file, b"1 beginbfchar\n<0007> <D83DDE00>\nendbfchar"));
}

#[test]
fn font_object_names_the_embedded_font() {
    let refs = Refs::new(0, 1, 0, 0).unwrap().fonts()[0];
    let font = write_font(refs, FaceId(3), &face(), &set(&[2, 4]), &Some(vec![5, 6]));
    assert_eq!(font.refs, refs);
    assert_eq!(font.face_id, FaceId(3));
    assert_eq!(font.base_font, "ABCDEF+NotoSerif-Regular");
    assert_eq!(font.encoding, "Identity-H");
    assert_eq!(font.subtype, CidFontType::Type2);
    assert_eq!(font.registry, "Adobe");
    assert_eq!(font.ordering, "Identity");
    assert_eq!(font.supplement, 0);
    assert_eq!(font.cid_to_gid_map, "Identity");
    assert_eq!(font.widths, vec![600, 0, 1000, 0, 0]);
    assert_eq!(font.descriptor, describe(&face()));
    assert_eq!(font.to_unicode, to_unicode_cmap(&face(), &set(&[2, 4])));
    assert_eq!(font.glyphs, vec![2, 4]);
    assert_eq!(inflate(&font.program), vec![5, 6]);
}

#[test]
fn face_without_a_name_is_unknown() {
    let mut f = face();
    f.postscript_name = None;
    f.cff_outlines = true;
    let refs = Refs::new(0, 1, 0, 0).unwrap().fonts()[0];
    let font = write_font(refs, FaceId(0), &f, &set(&[]), &None);
    assert_eq!(font.base_font, "ABCDEF+unknown");
    assert_eq!(inflate(&font.program), vec![1, 2, 3, 4]);
    assert_eq!(font.subtype, CidFontType::Type0);
}

#[test]
fn fonts_are_written_in_the_order_of_their_indices() {
    let mut second = face();
    second.postscript_name = Some("Second".to_string());
    let store = FontStore { faces: vec![face(), second] };
    let mut map = Remapper::new();
    map.insert(1);
    map.insert(0);
    let refs = Refs::new(2, 2, 0, 0).unwrap();
    let glyphs: HashMap<u32, HashSet<u16>> =
        [(1, set(&[4])), (0, set(&[0, 2]))].into_iter().collect();
    let objects = write_fonts(&refs, &map, &store, &glyphs, &vec![None, Some(vec![8])]);
    assert_eq!(objects.len(), 2);
    assert_eq!(objects[0].face_id, FaceId(1));
    assert_eq!(objects[0].base_font, "ABCDEF+Second");
    assert_eq!(objects[0].glyphs, vec![4]);
    assert_eq!(objects[0].refs.type0_font, Ref(7));
    assert_eq!(objects[0].refs.data, Ref(11));
    assert_eq!(objects[1].face_id, FaceId(0));
    assert_eq!(objects[1].base_font, "ABCDEF+NotoSerif-Regular");
    assert_eq!(objects[1].glyphs, vec![0, 2]);
    assert_eq!(objects[1].refs.type0_font, Ref(12));
    assert_eq!(objects[1].refs.cid_font, Ref(13));
    assert_eq!(objects[1].refs.font_descriptor, Ref(14));
    assert_eq!(objects[1].refs.cmap, Ref(15));
    assert_eq!(objects[1].refs.data, Ref(16));
    assert_eq!(inflate(&objects[0].program), vec![1, 2, 3, 4]);
    assert_eq!(inflate(&objects[1].program), vec![8]);
    let objects = write_fonts(&refs, &map, &store, &glyphs, &vec![]);
    assert_eq!(inflate(&objects[1].program), vec![1, 2, 3, 4]);
}

#[test]
fn subset_is_embedded_if_there_is_one() {
    let full: Vec<u8> = (0..200).collect();
    let subset: Vec<u8> = vec![9, 8, 7];
    assert_eq!(inflate(&embed_program(&full, &Some(subset.clone()))), subset);
    assert_eq!(inflate(&embed_program(&full, &None)), full);
    assert_eq!(inflate(&embed_program(&full, &Some(vec![]))), Vec::<u8>::new());
}

#[test]
fn font_store_finds_faces_by_number() {
    let store = FontStore { faces: vec![face()] };
    assert!(store.contains(FaceId(0)));
    assert!(!store.contains(FaceId(1)));
    assert_eq!(store.get(FaceId(0)).units_per_em, 2048);
}

#[test]
fn entries_of_a_map_come_in_rising_order() {
    let mapping: std::collections::BTreeMap<u16, char> =
        [(700, 'c'), (3, 'a'), (65535, 'd'), (0, 'z'), (42, 'b')].into_iter().collect();
    assert_eq!(
        sorted_pairs(&mapping),
        vec![(0, 'z'), (3, 'a'), (42, 'b'), (700, 'c'), (65535, 'd')]
    );
    assert_eq!(sorted_pairs(&std::collections::BTreeMap::new()), vec![]);
}
