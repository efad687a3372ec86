use pdf_export::font::{BoundingBox, CmapSubtable, FontFace};
use pdf_export::font_embed::glyph_widths;
use pdf_export::glyph_order::reverse_pairs;
use pdf_export::font_file::FaceInfo;
use pdf_export::geom::Em;
use std::collections::HashSet;

fn be16(out: &mut Vec<u8>, value: u16) {
    out.extend_from_slice(&value.to_be_bytes());
}

fn be32(out: &mut Vec<u8>, value: u32) {
    out.extend_from_slice(&value.to_be_bytes());
}

fn head() -> Vec<u8> {
    let mut t = vec![0; 54];
    t[18..20].copy_from_slice(&1000u16.to_be_bytes());
    t[36..38].copy_from_slice(&(-100i16).to_be_bytes());
    t[38..40].copy_from_slice(&(-200i16).to_be_bytes());
    t[40..42].copy_from_slice(&900i16.to_be_bytes());
    t[42..44].copy_from_slice(&800i16.to_be_bytes());
    t
}

fn hhea() -> Vec<u8> {
    let mut t = vec![0; 36];
    t[4..6].copy_from_slice(&800i16.to_be_bytes());
    t[6..8].copy_from_slice(&(-200i16).to_be_bytes());
    t[34..36].copy_from_slice(&3u16.to_be_bytes());
    t
}

fn maxp() -> Vec<u8> {
    let mut t = vec![];
    be32(&mut t, 0x0000_5000);
    be16(&mut t, 4);
    t
}

fn hmtx() -> Vec<u8> {
    let mut t = vec![];
    for advance in [500u16, 600, 550] {
        be16(&mut t, advance);
        be16(&mut t, 0);
    }
    be16(&mut t, 0);
    t
}

fn os2() -> Vec<u8> {
    let mut t = vec![0; 78];
    t[4..6].copy_from_slice(&700u16.to_be_bytes());
    t[62..64].copy_from_slice(&1u16.to_be_bytes());
    t
}

fn post() -> Vec<u8> {
    let mut t = vec![0; 32];
    t[0..4].copy_from_slice(&0x0003_0000u32.to_be_bytes());
    t[12..16].copy_from_slice(&1u32.to_be_bytes());
    t
}

fn trimmed_table(first: u16, glyphs: &[u16]) -> Vec<u8> {
    let mut t = vec![];
    be16(&mut t, 6);
    be16(&mut t, 10 + 2 * glyphs.len() as u16);
    be16(&mut t, 0);
    be16(&mut t, first);
    be16(&mut t, glyphs.len() as u16);
    for glyph in glyphs {
        be16(&mut t, *glyph);
    }
    t
}

fn cmap() -> Vec<u8> {
    // A Macintosh table, then two Unicode tables.
    let tables = [
        (1u16, trimmed_table(65, &[1])),
        (0, trimmed_table(65, &[1, 2, 3])),
        (0, trimmed_table(0xd7ff, &[3, 1])),
    ];
    let mut t = vec![];
    be16(&mut t, 0);
    be16(&mut t, tables.len() as u16);
    let mut offset = 4 + 8 * tables.len() as u32;
    for (platform, table) in &tables {
        be16(&mut t, *platform);
        be16(&mut t, 3);
        be32(&mut t, offset);
        offset += table.len() as u32;
    }
    for (_, table) in &tables {
        t.extend_from_slice(table);
    }
    t
}

fn font(outlines: Option<&[u8; 4]>) -> Vec<u8> {
    font_with(outlines.map(|tag| (*tag, vec![1, 2, 3, 4])))
}

fn font_with(extra: Option<([u8; 4], Vec<u8>)>) -> Vec<u8> {
    let mut tables: Vec<([u8; 4], Vec<u8>)> = vec![
        (*b"OS/2", os2()),
        (*b"cmap", cmap()),
        (*b"head", head()),
        (*b"hhea", hhea()),
        (*b"hmtx", hmtx()),
        (*b"maxp", maxp()),
        (*b"post", post()),
    ];
    if let Some(table) = extra {
        tables.push(table);
    }
    tables.sort();

    let mut file = vec![];
    be32(&mut file, 0x0001_0000);
    be16(&mut file, tables.len() as u16);
    be16(&mut file, 0);
    be16(&mut file, 0);
    be16(&mut file, 0);
    let mut offset = 12 + 16 * tables.len() as u32;
    for (tag, table) in &tables {
        file.extend_from_slice(tag);
        be32(&mut file, 0);
        be32(&mut file, offset);
        be32(&mut file, table.len() as u32);
        offset += table.len() as u32;
    }
    for (_, table) in &tables {
        file.extend_from_slice(table);
    }
    file
}

fn info() -> FaceInfo {
    FaceInfo {
        units_per_em: Some(1000),
        ascender: 800,
        descender: -200,
        cap_height: Some(700),
        postscript_name: Some("Probe-BoldItalic".to_string()),
        italic_angle: -9500,
    }
}

#[test]
fn face_is_read_from_a_font_file() {
    let file = font(None);
    let face = FontFace::read(file.clone(), 0, info()).unwrap();
    assert_eq!(face.buffer, file);
    assert_eq!(face.index, 0);
    assert_eq!(face.units_per_em, 1000);
    assert_eq!(face.ascender, Em(800));
    assert_eq!(face.descender, Em(-200));
    assert_eq!(face.cap_height, Em(700));
    assert_eq!(face.postscript_name, Some("Probe-BoldItalic".to_string()));
    assert_eq!(face.italic_angle, -9500);
    assert!(!face.cff_outlines);
    assert_eq!(face.advances, vec![Some(500), Some(600), Some(550), Some(550)]);
    assert!(face.monospaced);
    assert!(face.italic);
    assert_eq!(
        face.bounding_box,
        BoundingBox { x_min: -100, y_min: -200, x_max: 900, y_max: 800 }
    );
    assert_eq!(face.weight, 700);
    let tables: Vec<(bool, Vec<(char, u16)>)> =
        face.cmap.iter().map(|t: &CmapSubtable| (t.unicode, t.mappings.clone())).collect();
    assert_eq!(
        tables,
        vec![
            (false, vec![]),
            (true, vec![('A', 1), ('B', 2), ('C', 3)]),
            (true, vec![('\u{d7ff}', 3)]),
        ]
    );
}

#[test]
fn metrics_are_scaled_by_the_units_of_an_em() {
    let mut info = info();
    info.units_per_em = Some(2048);
    info.ascender = 1638;
    info.descender = -410;
    info.cap_height = Some(i16::MAX);
    let face = FontFace::read(font(None), 0, info).unwrap();
    assert_eq!(face.ascender, Em(799));
    assert_eq!(face.descender, Em(-200));
    assert_eq!(face.cap_height, Em(15999));
    assert_eq!(glyph_widths(&face), vec![244, 292, 268, 268]);
}

#[test]
fn outlines_are_told_by_their_table() {
    assert!(FontFace::read(font(Some(b"CFF ")), 0, info()).unwrap().cff_outlines);
    assert!(FontFace::read(font(Some(b"CFF2")), 0, info()).unwrap().cff_outlines);
    assert!(!FontFace::read(font(Some(b"CFF3")), 0, info()).unwrap().cff_outlines);
    assert!(!FontFace::read(font(Some(b"glyf")), 0, info()).unwrap().cff_outlines);
}

#[test]
fn what_is_no_font_is_not_read() {
    assert!(FontFace::read(vec![], 0, info()).is_none());
    assert!(FontFace::read(b"no font at all, only text".to_vec(), 0, info()).is_none());
    let mut cut = font(None);
    cut.truncate(40);
    assert!(FontFace::read(cut, 0, info()).is_none());
}

#[test]
fn glyphs_of_a_read_face_map_back_to_codepoints() {
    let face = FontFace::read(font(None), 0, info()).unwrap();
    let used: HashSet<u16> = [0u16, 1, 3].into_iter().collect();
    assert_eq!(reverse_pairs(&face, &used), vec![(1, 'A'), (3, 'C')]);
}

#[test]
fn missing_metrics_have_stand_ins() {
    let mut info = info();
    info.cap_height = None;
    let face = FontFace::read(font(None), 0, info).unwrap();
    assert_eq!(face.cap_height, Em(800));

    let mut info = self::info();
    info.units_per_em = None;
    let face = FontFace::read(font(None), 0, info).unwrap();
    assert_eq!(face.units_per_em, 0);
    assert_eq!(face.ascender, Em(0));
    assert_eq!(face.descender, Em(0));
    assert_eq!(face.cap_height, Em(0));
    assert_eq!(glyph_widths(&face), vec![0, 0, 0, 0]);
}

#[test]
fn advances_come_from_the_horizontal_metrics_alone() {
    // A table of variation axes with one axis: a variable font.
    let mut axes = vec![];
    be32(&mut axes, 0x0001_0000);
    be16(&mut axes, 16);
    be16(&mut axes, 0);
    be16(&mut axes, 1);
    be16(&mut axes, 20);
    be16(&mut axes, 0);
    be16(&mut axes, 0);
    axes.extend_from_slice(&[0; 20]);
    let file = font_with(Some((*b"fvar", axes)));

    // The font crate is built without variable fonts and does not read it.
    assert!(!ttf_parser::Face::from_slice(&file, 0).unwrap().is_variable());
    let face = FontFace::read(file, 0, info()).unwrap();
    let plain = FontFace::read(font(None), 0, info()).unwrap();
    assert_eq!(face.advances, plain.advances);
    assert_eq!(face.advances, vec![Some(500), Some(600), Some(550), Some(550)]);
}
