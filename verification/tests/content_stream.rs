use pdf_export::content::{encode_glyphs, to_page, write_page, Op, TextItem};
use pdf_export::font::{BoundingBox, FontFace, FontStore};
use pdf_export::geom::{Em, Length, Path, PathElement, Point, Size};
use pdf_export::layout::{
    Color, Element, FaceId, Frame, Geometry, Glyph, ImageId, Paint, RgbaColor, Text,
};
use pdf_export::remap::Remapper;

fn face(units_per_em: u16, advances: Vec<Option<u16>>) -> FontFace {
    FontFace {
        buffer: vec![],
        index: 0,
        units_per_em,
        ascender: Em(800),
        descender: Em(-200),
        cap_height: Em(700),
        postscript_name: None,
        cff_outlines: false,
        advances,
        monospaced: false,
        italic: false,
        bounding_box: BoundingBox { x_min: 0, y_min: 0, x_max: 0, y_max: 0 },
        italic_angle: 0,
        weight: 400,
        cmap: vec![],
    }
}

fn plain_face() -> FontFace {
    face(1000, vec![Some(500); 16])
}

fn rgb(r: u8, g: u8, b: u8) -> Paint {
    Paint::Color(Color::Rgba(RgbaColor { r, g, b, a: 255 }))
}

fn point(x: i32, y: i32) -> Point {
    Point { x: Length(x), y: Length(y) }
}

fn size(w: i32, h: i32) -> Size {
    Size { w: Length(w), h: Length(h) }
}

fn glyph(id: u16, x_advance: i32, x_offset: i32) -> Glyph {
    Glyph { id, x_advance: Em(x_advance), x_offset: Em(x_offset) }
}

fn text(face_id: u32, size: i32, fill: Paint, glyphs: Vec<Glyph>) -> Element {
    Element::Text(Text { face_id: FaceId(face_id), size: Length(size), fill, glyphs })
}

fn maps(fonts: &[u32], images: &[u32]) -> (Remapper, Remapper) {
    let mut font_map = Remapper::new();
    for id in fonts {
        font_map.insert(*id);
    }
    let mut image_map = Remapper::new();
    for id in images {
        image_map.insert(*id);
    }
    (font_map, image_map)
}

fn show(bytes: &[u8]) -> TextItem {
    TextItem::Show(bytes.to_vec())
}

#[test]
fn single_text_run_with_kerning() {
    let mut advances = vec![None; 7];
    advances[5] = Some(600);
    advances[6] = Some(550);
    let fonts = FontStore { faces: vec![face(1000, advances)] };
    let (font_map, image_map) = maps(&[0], &[]);
    let black = rgb(0, 0, 0);
    let frame = Frame {
        size: size(200, 100),
        elements: vec![(
            point(10, 20),
            text(0, 12, black, vec![glyph(5, 600, 0), glyph(6, 600, 0)]),
        )],
    };
    let ops = write_page(&frame, &font_map, &image_map, &fonts);
    assert_eq!(
        ops,
        vec![
            Op::BeginText,
            Op::SetFillRgb { r: 0, g: 0, b: 0 },
            Op::SetFont { index: 0, size: 12 },
            Op::SetTextMatrix { x: 10, y: 80 },
            Op::ShowPositioned {
                items: vec![show(&[0x00, 0x05]), TextItem::Adjust(-50), show(&[0x00, 0x06])],
            },
            Op::EndText,
        ]
    );
    let selects = ops.iter().filter(|op| matches!(op, Op::SetFont { .. })).count();
    assert_eq!(selects, 1);
}

#[test]
fn difference_of_the_first_glyph_comes_before_it() {
    let mut advances = vec![None; 7];
    advances[5] = Some(550);
    advances[6] = Some(600);
    let fonts = FontStore { faces: vec![face(1000, advances)] };
    let (font_map, image_map) = maps(&[0], &[]);
    let frame = Frame {
        size: size(200, 100),
        elements: vec![(
            point(10, 20),
            text(0, 12, rgb(0, 0, 0), vec![glyph(5, 600, 0), glyph(6, 600, 0)]),
        )],
    };
    let ops = write_page(&frame, &font_map, &image_map, &fonts);
    assert_eq!(
        ops,
        vec![
            Op::BeginText,
            Op::SetFillRgb { r: 0, g: 0, b: 0 },
            Op::SetFont { index: 0, size: 12 },
            Op::SetTextMatrix { x: 10, y: 80 },
            Op::ShowPositioned {
                items: vec![TextItem::Adjust(-50), show(&[0x00, 0x05, 0x00, 0x06])],
            },
            Op::EndText,
        ]
    );
}

#[test]
fn run_without_differences_is_one_string() {
    let items = encode_glyphs(
        &vec![glyph(1, 500, 0), glyph(2, 500, 0), glyph(3, 500, 0)],
        &plain_face(),
    );
    assert_eq!(items, vec![show(&[0, 1, 0, 2, 0, 3])]);
}

#[test]
fn offset_of_the_last_glyph_is_not_taken_back() {
    let items = encode_glyphs(&vec![glyph(1, 500, 0), glyph(2, 500, 40)], &plain_face());
    assert_eq!(items, vec![show(&[0, 1]), TextItem::Adjust(-40), show(&[0, 2])]);
}

#[test]
fn narrower_advance_moves_the_pen_to_the_right() {
    let items = encode_glyphs(&vec![glyph(1, 500, 0), glyph(2, 430, 0)], &plain_face());
    assert_eq!(items, vec![show(&[0, 1]), TextItem::Adjust(70), show(&[0, 2])]);
}

#[test]
fn glyph_bytes_are_big_endian() {
    let f = face(1000, vec![]);
    let items = encode_glyphs(&vec![glyph(0x1234, 0, 0), glyph(0x00ff, 0, 0)], &f);
    assert_eq!(items, vec![show(&[0x12, 0x34, 0x00, 0xff])]);
}

#[test]
fn empty_run_has_no_items() {
    let items = encode_glyphs(&vec![], &plain_face());
    assert_eq!(items, Vec::<TextItem>::new());
}

#[test]
fn offset_moves_one_glyph_only() {
    // The second glyph is moved right by 30 and the pen is put back after it.
    let items = encode_glyphs(
        &vec![glyph(1, 500, 0), glyph(2, 500, 30), glyph(3, 500, 0)],
        &plain_face(),
    );
    assert_eq!(
        items,
        vec![
            show(&[0, 1]),
            TextItem::Adjust(-30),
            show(&[0, 2]),
            TextItem::Adjust(30),
            show(&[0, 3]),
        ]
    );
}

#[test]
fn offset_before_the_first_glyph_comes_first() {
    let items = encode_glyphs(&vec![glyph(1, 500, -20), glyph(2, 500, -20)], &plain_face());
    // The offset of the first glyph is taken back after it and given again.
    assert_eq!(items, vec![TextItem::Adjust(20), show(&[0, 1, 0, 2])]);
}

#[test]
fn advance_and_offset_add_up() {
    let items = encode_glyphs(&vec![glyph(1, 500, 0), glyph(2, 620, 15)], &plain_face());
    assert_eq!(items, vec![show(&[0, 1]), TextItem::Adjust(-135), show(&[0, 2])]);
    let items = encode_glyphs(&vec![glyph(1, 620, 0), glyph(2, 500, 15)], &plain_face());
    assert_eq!(
        items,
        vec![TextItem::Adjust(-120), show(&[0, 1]), TextItem::Adjust(-15), show(&[0, 2])]
    );
}

#[test]
fn glyph_without_metrics_leaves_only_its_offset() {
    let f = face(1000, vec![Some(500), None]);
    let items = encode_glyphs(&vec![glyph(1, 900, 0), glyph(40, 900, 0), glyph(0, 500, 0)], &f);
    assert_eq!(items, vec![show(&[0, 1, 0, 40, 0, 0])]);
}

#[test]
fn native_advance_is_scaled_by_units_per_em() {
    // 1024 of 2048 units are 500 thousandths of an em.
    let f = face(2048, vec![Some(1024)]);
    let items = encode_glyphs(&vec![glyph(0, 500, 0), glyph(0, 510, 0)], &f);
    assert_eq!(items, vec![show(&[0, 0]), TextItem::Adjust(-10), show(&[0, 0])]);
}

#[test]
fn one_font_select_for_each_run_of_equal_face_and_size() {
    let fonts = FontStore { faces: vec![plain_face(), plain_face()] };
    let (font_map, image_map) = maps(&[0, 1], &[]);
    let black = rgb(0, 0, 0);
    let pairs = [(0u32, 10), (0, 10), (0, 10), (1, 10), (1, 12), (1, 12), (0, 10), (0, 10)];
    let elements = pairs
        .iter()
        .map(|(f, s)| (point(0, 0), text(*f, *s, black, vec![glyph(1, 500, 0)])))
        .collect();
    let frame = Frame { size: size(100, 100), elements };
    let ops = write_page(&frame, &font_map, &image_map, &fonts);
    let selects: Vec<&Op> = ops.iter().filter(|op| matches!(op, Op::SetFont { .. })).collect();
    assert_eq!(
        selects,
        vec![
            &Op::SetFont { index: 0, size: 10 },
            &Op::SetFont { index: 1, size: 10 },
            &Op::SetFont { index: 1, size: 12 },
            &Op::SetFont { index: 0, size: 10 },
        ]
    );
    let fills = ops.iter().filter(|op| matches!(op, Op::SetFillRgb { .. })).count();
    assert_eq!(fills, 1);
    let begins = ops.iter().filter(|op| matches!(op, Op::BeginText)).count();
    let ends = ops.iter().filter(|op| matches!(op, Op::EndText)).count();
    assert_eq!((begins, ends), (1, 1));
}

#[test]
fn font_index_is_the_dense_index() {
    let fonts = FontStore { faces: vec![plain_face(), plain_face(), plain_face()] };
    let (font_map, image_map) = maps(&[2, 0], &[]);
    let frame = Frame {
        size: size(100, 100),
        elements: vec![
            (point(0, 0), text(0, 10, rgb(0, 0, 0), vec![])),
            (point(0, 0), text(2, 10, rgb(0, 0, 0), vec![])),
        ],
    };
    let ops = write_page(&frame, &font_map, &image_map, &fonts);
    let selects: Vec<&Op> = ops.iter().filter(|op| matches!(op, Op::SetFont { .. })).collect();
    assert_eq!(
        selects,
        vec![&Op::SetFont { index: 1, size: 10 }, &Op::SetFont { index: 0, size: 10 }]
    );
}

#[test]
fn fill_colour_is_set_only_when_it_changes() {
    let fonts = FontStore { faces: vec![plain_face()] };
    let (font_map, image_map) = maps(&[0], &[]);
    let red = rgb(255, 0, 0);
    let blue = rgb(0, 0, 255);
    let frame = Frame {
        size: size(100, 100),
        elements: vec![
            (point(0, 0), text(0, 10, red, vec![])),
            (point(0, 10), text(0, 10, red, vec![])),
            (point(0, 20), text(0, 10, blue, vec![])),
            (point(0, 30), text(0, 10, red, vec![])),
        ],
    };
    let ops = write_page(&frame, &font_map, &image_map, &fonts);
    let fills: Vec<&Op> = ops.iter().filter(|op| matches!(op, Op::SetFillRgb { .. })).collect();
    assert_eq!(
        fills,
        vec![
            &Op::SetFillRgb { r: 255, g: 0, b: 0 },
            &Op::SetFillRgb { r: 0, g: 0, b: 255 },
            &Op::SetFillRgb { r: 255, g: 0, b: 0 },
        ]
    );
}

#[test]
fn layout_points_are_flipped_on_the_page() {
    assert_eq!(to_page(Length(300), point(40, 25)), (40, 275));
    assert_eq!(to_page(Length(300), point(0, 300)), (0, 0));
    assert_eq!(to_page(Length(100), point(-5, 120)), (-5, -20));
    assert_eq!(
        to_page(Length(i32::MIN), point(i32::MAX, i32::MAX)),
        (i32::MAX as i64, i32::MIN as i64 - i32::MAX as i64)
    );
}

#[test]
fn elements_at_distinct_heights() {
    let fonts = FontStore { faces: vec![plain_face()] };
    let (font_map, image_map) = maps(&[0], &[4]);
    let black = rgb(0, 0, 0);
    let grey = rgb(9, 9, 9);
    let frame = Frame {
        size: size(400, 300),
        elements: vec![
            (point(40, 25), text(0, 10, black, vec![glyph(1, 500, 0)])),
            (point(15, 100), Element::Geometry(Geometry::Rect(size(50, 20)), grey)),
            (point(70, 250), Element::Image(ImageId(4), size(30, 40))),
            (point(5, 290), text(0, 10, black, vec![])),
        ],
    };
    let ops = write_page(&frame, &font_map, &image_map, &fonts);
    assert_eq!(
        ops,
        vec![
            Op::BeginText,
            Op::SetFillRgb { r: 0, g: 0, b: 0 },
            Op::SetFont { index: 0, size: 10 },
            Op::SetTextMatrix { x: 40, y: 275 },
            Op::ShowPositioned { items: vec![show(&[0, 1])] },
            Op::EndText,
            Op::SaveState,
            Op::SetFillRgb { r: 9, g: 9, b: 9 },
            Op::Rect { x: 15, y: 180, w: 50, h: 20 },
            Op::FillNonzero,
            Op::RestoreState,
            Op::SaveState,
            Op::PlaceImage { w: 30, h: 40, x: 70, y: 10 },
            Op::XObject { index: 0 },
            Op::RestoreState,
            Op::BeginText,
            Op::SetTextMatrix { x: 5, y: 10 },
            Op::ShowPositioned { items: vec![] },
            Op::EndText,
        ]
    );
}

#[test]
fn degenerate_rectangles_paint_nothing() {
    let fonts = FontStore { faces: vec![] };
    let (font_map, image_map) = maps(&[], &[]);
    for (w, h) in [(0, 10), (10, 0), (-5, 10), (10, -5), (0, 0), (i32::MIN, i32::MIN)] {
        let frame = Frame {
            size: size(100, 100),
            elements: vec![(
                point(10, 10),
                Element::Geometry(Geometry::Rect(size(w, h)), rgb(1, 2, 3)),
            )],
        };
        let ops = write_page(&frame, &font_map, &image_map, &fonts);
        assert_eq!(ops, vec![Op::SaveState, Op::RestoreState]);
    }
}

#[test]
fn smallest_rectangle_is_painted() {
    let fonts = FontStore { faces: vec![] };
    let (font_map, image_map) = maps(&[], &[]);
    let frame = Frame {
        size: size(100, 100),
        elements: vec![(point(10, 10), Element::Geometry(Geometry::Rect(size(1, 1)), rgb(1, 2, 3)))],
    };
    let ops = write_page(&frame, &font_map, &image_map, &fonts);
    assert_eq!(
        ops,
        vec![
            Op::SaveState,
            Op::SetFillRgb { r: 1, g: 2, b: 3 },
            Op::Rect { x: 10, y: 89, w: 1, h: 1 },
            Op::FillNonzero,
            Op::RestoreState,
        ]
    );
}

#[test]
fn line_is_stroked() {
    let fonts = FontStore { faces: vec![] };
    let (font_map, image_map) = maps(&[], &[]);
    let frame = Frame {
        size: size(100, 100),
        elements: vec![(
            point(10, 30),
            Element::Geometry(Geometry::Line(point(25, 5), Length(2)), rgb(7, 8, 9)),
        )],
    };
    let ops = write_page(&frame, &font_map, &image_map, &fonts);
    assert_eq!(
        ops,
        vec![
            Op::SaveState,
            Op::SetStrokeRgb { r: 7, g: 8, b: 9 },
            Op::SetLineWidth { width: 2 },
            Op::MoveTo { x: 10, y: 70 },
            Op::LineTo { x: 35, y: 65 },
            Op::Stroke,
            Op::RestoreState,
        ]
    );
}

#[test]
fn path_is_built_and_filled() {
    let fonts = FontStore { faces: vec![] };
    let (font_map, image_map) = maps(&[], &[]);
    let path = Path(vec![
        PathElement::MoveTo(point(0, 0)),
        PathElement::LineTo(point(10, 0)),
        PathElement::CubicTo(point(10, 5), point(5, 10), point(0, 10)),
        PathElement::ClosePath,
    ]);
    let frame = Frame {
        size: size(100, 100),
        elements: vec![(point(20, 30), Element::Geometry(Geometry::Path(path), rgb(0, 255, 0)))],
    };
    let ops = write_page(&frame, &font_map, &image_map, &fonts);
    assert_eq!(
        ops,
        vec![
            Op::SaveState,
            Op::SetFillRgb { r: 0, g: 255, b: 0 },
            Op::MoveTo { x: 20, y: 70 },
            Op::LineTo { x: 30, y: 70 },
            Op::CubicTo { x1: 30, y1: 65, x2: 25, y2: 60, x3: 20, y3: 60 },
            Op::ClosePath,
            Op::FillNonzero,
            Op::RestoreState,
        ]
    );
}

#[test]
fn ellipse_is_four_curves() {
    let path = Path::ellipse(size(100, 60));
    assert_eq!(
        path.0,
        vec![
            PathElement::MoveTo(point(0, 30)),
            PathElement::CubicTo(point(0, 46), point(23, 60), point(50, 60)),
            PathElement::CubicTo(point(77, 60), point(100, 46), point(100, 30)),
            PathElement::CubicTo(point(100, 14), point(77, 0), point(50, 0)),
            PathElement::CubicTo(point(23, 0), point(0, 14), point(0, 30)),
        ]
    );
    let fonts = FontStore { faces: vec![] };
    let (font_map, image_map) = maps(&[], &[]);
    let frame = Frame {
        size: size(300, 200),
        elements: vec![(
            point(10, 20),
            Element::Geometry(Geometry::Ellipse(size(100, 60)), rgb(0, 0, 0)),
        )],
    };
    let ops = write_page(&frame, &font_map, &image_map, &fonts);
    assert_eq!(
        ops,
        vec![
            Op::SaveState,
            Op::SetFillRgb { r: 0, g: 0, b: 0 },
            Op::MoveTo { x: 10, y: 150 },
            Op::CubicTo { x1: 10, y1: 134, x2: 33, y2: 120, x3: 60, y3: 120 },
            Op::CubicTo { x1: 87, y1: 120, x2: 110, y2: 134, x3: 110, y3: 150 },
            Op::CubicTo { x1: 110, y1: 166, x2: 87, y2: 180, x3: 60, y3: 180 },
            Op::CubicTo { x1: 33, y1: 180, x2: 10, y2: 166, x3: 10, y3: 150 },
            Op::FillNonzero,
            Op::RestoreState,
        ]
    );
}

#[test]
fn ellipse_of_extreme_size_does_not_overflow() {
    let path = Path::ellipse(size(i32::MAX, i32::MIN));
    assert_eq!(path.0.len(), 5);
    assert_eq!(path.0[0], PathElement::MoveTo(point(0, -1073741824)));
}

#[test]
fn links_paint_nothing_and_keep_the_text_open() {
    let fonts = FontStore { faces: vec![plain_face()] };
    let (font_map, image_map) = maps(&[0], &[]);
    let black = rgb(0, 0, 0);
    let frame = Frame {
        size: size(100, 100),
        elements: vec![
            (point(0, 0), Element::Link("https://example.org".to_string(), size(10, 10))),
            (point(0, 10), text(0, 10, black, vec![])),
            (point(0, 20), Element::Link("https://example.org".to_string(), size(10, 10))),
            (point(0, 30), text(0, 10, black, vec![])),
        ],
    };
    let ops = write_page(&frame, &font_map, &image_map, &fonts);
    assert_eq!(
        ops,
        vec![
            Op::BeginText,
            Op::SetFillRgb { r: 0, g: 0, b: 0 },
            Op::SetFont { index: 0, size: 10 },
            Op::SetTextMatrix { x: 0, y: 90 },
            Op::ShowPositioned { items: vec![] },
            Op::SetTextMatrix { x: 0, y: 70 },
            Op::ShowPositioned { items: vec![] },
            Op::EndText,
        ]
    );
}

#[test]
fn empty_page_has_an_empty_stream() {
    let fonts = FontStore { faces: vec![] };
    let (font_map, image_map) = maps(&[], &[]);
    let frame = Frame { size: size(100, 100), elements: vec![] };
    assert_eq!(write_page(&frame, &font_map, &image_map, &fonts), Vec::<Op>::new());
}

#[test]
fn shape_between_text_closes_and_reopens_the_text() {
    let fonts = FontStore { faces: vec![plain_face()] };
    let (font_map, image_map) = maps(&[0], &[]);
    let black = rgb(0, 0, 0);
    let frame = Frame {
        size: size(100, 100),
        elements: vec![
            (point(0, 0), text(0, 10, black, vec![])),
            (point(0, 0), Element::Geometry(Geometry::Rect(size(0, 0)), black)),
            (point(0, 0), text(0, 10, black, vec![])),
        ],
    };
    let ops = write_page(&frame, &font_map, &image_map, &fonts);
    assert_eq!(
        ops,
        vec![
            Op::BeginText,
            Op::SetFillRgb { r: 0, g: 0, b: 0 },
            Op::SetFont { index: 0, size: 10 },
            Op::SetTextMatrix { x: 0, y: 100 },
            Op::ShowPositioned { items: vec![] },
            Op::EndText,
            Op::SaveState,
            Op::RestoreState,
            Op::BeginText,
            Op::SetTextMatrix { x: 0, y: 100 },
            Op::ShowPositioned { items: vec![] },
            Op::EndText,
        ]
    );
}

#[test]
fn image_index_is_the_dense_index() {
    let fonts = FontStore { faces: vec![] };
    let (font_map, image_map) = maps(&[], &[9, 3, 5]);
    let frame = Frame {
        size: size(100, 100),
        elements: vec![(point(0, 0), Element::Image(ImageId(5), size(10, 10)))],
    };
    let ops = write_page(&frame, &font_map, &image_map, &fonts);
    assert_eq!(ops[2], Op::XObject { index: 2 });
}
