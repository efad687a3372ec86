//! The operators of a page's content stream.

use crate::font::{FontFace, FontStore};
use crate::geom::{ellipse_path, Length, Path, PathElement, Point, Size};
use crate::layout::{Color, Element, FaceId, Frame, Geometry, Glyph, ImageId, Paint, Text};
use crate::remap::{position, Remapper};
use vstd::prelude::*;

verus! {

/// One entry of a show operator that positions its strings.
#[derive(Clone, Debug, PartialEq, Eq)]
pub enum TextItem {
    /// A string of glyphs, two bytes for each, the high byte first.
    Show(Vec<u8>),
    /// A move of the pen to the left, in thousandths of the font size.
    Adjust(i64),
}

/// What a `TextItem` stands for.
pub enum TextItemView {
    Show(Seq<u8>),
    Adjust(int),
}

impl View for TextItem {
    type V = TextItemView;

    open spec fn view(&self) -> TextItemView {
        match self {
            TextItem::Show(bytes) => TextItemView::Show(bytes@),
            TextItem::Adjust(amount) => TextItemView::Adjust(*amount as int),
        }
    }
}

/// An operator of a content stream. Places and sizes are in page space, whose
/// origin is the bottom left corner of the page and whose `y` grows upwards;
/// they are in the length units of the frames.
#[derive(Clone, Debug, PartialEq, Eq)]
pub enum Op {
    /// Opens a text object.
    BeginText,
    /// Closes the text object.
    EndText,
    /// Sets the fill colour.
    SetFillRgb { r: u8, g: u8, b: u8 },
    /// Sets the stroke colour.
    SetStrokeRgb { r: u8, g: u8, b: u8 },
    /// Sets the thickness of strokes.
    SetLineWidth { width: i64 },
    /// Selects the font with the given index at the given size.
    SetFont { index: usize, size: i64 },
    /// Moves the start of the next line of text to a point, without scaling.
    SetTextMatrix { x: i64, y: i64 },
    /// Shows strings of glyphs with adjustments between them.
    ShowPositioned { items: Vec<TextItem> },
    /// Saves the graphics state.
    SaveState,
    /// Restores the graphics state that was saved last.
    RestoreState,
    /// Adds a rectangle to the path, by its lower left corner and its size.
    Rect { x: i64, y: i64, w: i64, h: i64 },
    /// Starts a new part of the path at a point.
    MoveTo { x: i64, y: i64 },
    /// Adds a straight line to the path.
    LineTo { x: i64, y: i64 },
    /// Adds a cubic curve to the path: two control points and the end.
    CubicTo { x1: i64, y1: i64, x2: i64, y2: i64, x3: i64, y3: i64 },
    /// Closes the current part of the path.
    ClosePath,
    /// Fills the path by the nonzero winding rule.
    FillNonzero,
    /// Strokes the path.
    Stroke,
    /// Maps the unit square to the rectangle of the given size whose lower
    /// left corner is at the given point.
    PlaceImage { w: i64, h: i64, x: i64, y: i64 },
    /// Paints the image with the given index.
    XObject { index: usize },
}

/// What an `Op` stands for.
pub enum OpView {
    BeginText,
    EndText,
    SetFillRgb { r: u8, g: u8, b: u8 },
    SetStrokeRgb { r: u8, g: u8, b: u8 },
    SetLineWidth { width: int },
    SetFont { index: int, size: int },
    SetTextMatrix { x: int, y: int },
    ShowPositioned { items: Seq<TextItemView> },
    SaveState,
    RestoreState,
    Rect { x: int, y: int, w: int, h: int },
    MoveTo { x: int, y: int },
    LineTo { x: int, y: int },
    CubicTo { x1: int, y1: int, x2: int, y2: int, x3: int, y3: int },
    ClosePath,
    FillNonzero,
    Stroke,
    PlaceImage { w: int, h: int, x: int, y: int },
    XObject { index: int },
}

/// The views of a sequence of text items.
pub open spec fn items_view(items: Seq<TextItem>) -> Seq<TextItemView> {
    items.map_values(|item: TextItem| item@)
}

impl View for Op {
    type V = OpView;

    open spec fn view(&self) -> OpView {
        match self {
            Op::BeginText => OpView::BeginText,
            Op::EndText => OpView::EndText,
            Op::SetFillRgb { r, g, b } => OpView::SetFillRgb { r: *r, g: *g, b: *b },
            Op::SetStrokeRgb { r, g, b } => OpView::SetStrokeRgb { r: *r, g: *g, b: *b },
            Op::SetLineWidth { width } => OpView::SetLineWidth { width: *width as int },
            Op::SetFont { index, size } => OpView::SetFont {
                index: *index as int,
                size: *size as int,
            },
            Op::SetTextMatrix { x, y } => OpView::SetTextMatrix { x: *x as int, y: *y as int },
            Op::ShowPositioned { items } => OpView::ShowPositioned { items: items_view(items@) },
            Op::SaveState => OpView::SaveState,
            Op::RestoreState => OpView::RestoreState,
            Op::Rect { x, y, w, h } => OpView::Rect {
                x: *x as int,
                y: *y as int,
                w: *w as int,
                h: *h as int,
            },
            Op::MoveTo { x, y } => OpView::MoveTo { x: *x as int, y: *y as int },
            Op::LineTo { x, y } => OpView::LineTo { x: *x as int, y: *y as int },
            Op::CubicTo { x1, y1, x2, y2, x3, y3 } => OpView::CubicTo {
                x1: *x1 as int,
                y1: *y1 as int,
                x2: *x2 as int,
                y2: *y2 as int,
                x3: *x3 as int,
                y3: *y3 as int,
            },
            Op::ClosePath => OpView::ClosePath,
            Op::FillNonzero => OpView::FillNonzero,
            Op::Stroke => OpView::Stroke,
            Op::PlaceImage { w, h, x, y } => OpView::PlaceImage {
                w: *w as int,
                h: *h as int,
                x: *x as int,
                y: *y as int,
            },
            Op::XObject { index } => OpView::XObject { index: *index as int },
        }
    }
}

/// The views of a sequence of operators.
pub open spec fn ops_view(ops: Seq<Op>) -> Seq<OpView> {
    ops.map_values(|op: Op| op@)
}

/// Where a point of layout space lies in the page space of a page of the
/// given height: as far from the left edge, and as far below the top edge as
/// it was.
pub open spec fn page_point(height: Length, pos: Point) -> (int, int) {
    (pos.x.0 as int, height.0 - pos.y.0)
}

/// Converts a point of layout space to page space.
pub fn to_page(height: Length, pos: Point) -> (r: (i64, i64))
    ensures
        (r.0 as int, r.1 as int) == page_point(height, pos),
        r.0 == pos.x.0,
        r.1 == height.0 - pos.y.0,
{
    (pos.x.0 as i64, height.0 as i64 - pos.y.0 as i64)
}

/// The operator that sets the fill colour to a paint.
pub open spec fn fill_ops(paint: Paint) -> Seq<OpView> {
    seq![OpView::SetFillRgb { r: paint.rgb().0, g: paint.rgb().1, b: paint.rgb().2 }]
}

/// The operators that set the stroke colour to a paint and the thickness of
/// strokes.
pub open spec fn stroke_ops(paint: Paint, thickness: int) -> Seq<OpView> {
    seq![
        OpView::SetStrokeRgb { r: paint.rgb().0, g: paint.rgb().1, b: paint.rgb().2 },
        OpView::SetLineWidth { width: thickness },
    ]
}

/// The operator for one segment of a path whose element stands at `(x, y)`
/// in page space: each point of the segment lies to the right of and below
/// that place.
pub open spec fn segment_op(x: int, y: int, segment: PathElement) -> OpView {
    match segment {
        PathElement::MoveTo(p) => OpView::MoveTo { x: x + p.x.0, y: y - p.y.0 },
        PathElement::LineTo(p) => OpView::LineTo { x: x + p.x.0, y: y - p.y.0 },
        PathElement::CubicTo(p1, p2, p3) => OpView::CubicTo {
            x1: x + p1.x.0,
            y1: y - p1.y.0,
            x2: x + p2.x.0,
            y2: y - p2.y.0,
            x3: x + p3.x.0,
            y3: y - p3.y.0,
        },
        PathElement::ClosePath => OpView::ClosePath,
    }
}

/// The operators that build a path segment by segment and fill it.
pub open spec fn path_ops(x: int, y: int, path: Seq<PathElement>) -> Seq<OpView> {
    path.map_values(|segment: PathElement| segment_op(x, y, segment)).push(OpView::FillNonzero)
}

/// The two bytes that show a glyph: the high byte of its number, then the low.
pub open spec fn glyph_bytes(id: u16) -> Seq<u8> {
    seq![(id >> 8) as u8, (id & 0xff) as u8]
}

/// How far a glyph is asked to advance beyond the advance that its font
/// gives it; nothing where the font gives none.
pub open spec fn difference(glyph: Glyph, face: FontFace) -> int {
    match face.spec_advance(glyph.id) {
        Some(native) => glyph.x_advance.0 - native,
        None => 0,
    }
}

/// What a glyph leaves pending for the glyph after it: its own offset, taken
/// back, so that the offset moves this glyph alone.
pub open spec fn carry(glyph: Glyph) -> int {
    -glyph.x_offset.0
}

/// The adjustment that has gathered before the glyph at place `i`: what the
/// glyph before it left pending, the glyph's own offset, and the glyph's own
/// difference of asked and native advance.
pub open spec fn shift(glyphs: Seq<Glyph>, face: FontFace, i: int) -> int {
    (if i == 0 {
        0
    } else {
        carry(glyphs[i - 1])
    }) + glyphs[i].x_offset.0 + difference(glyphs[i], face)
}

/// The items with the pending bytes, if there are any, shown as a string.
pub open spec fn flushed(items: Seq<TextItemView>, pending: Seq<u8>) -> Seq<TextItemView> {
    if pending.len() > 0 {
        items.push(TextItemView::Show(pending))
    } else {
        items
    }
}

/// The items written for the first `n` glyphs of a run, and the bytes that
/// wait to be shown. Before a glyph at which an adjustment has gathered, the
/// bytes that wait are shown and the adjustment is written, negated, since an
/// adjustment moves the pen to the left; then the glyph's bytes are added to
/// those that wait. What the last glyph leaves pending is not written.
pub open spec fn run_items(glyphs: Seq<Glyph>, face: FontFace, n: int) -> (Seq<TextItemView>, Seq<u8>)
    decreases n,
{
    if n <= 0 {
        (Seq::empty(), Seq::empty())
    } else {
        let (items, pending) = run_items(glyphs, face, n - 1);
        let by = shift(glyphs, face, n - 1);
        if by != 0 {
            (
                flushed(items, pending).push(TextItemView::Adjust(-by)),
                glyph_bytes(glyphs[n - 1].id),
            )
        } else {
            (items, pending + glyph_bytes(glyphs[n - 1].id))
        }
    }
}

/// The items of the show operator for a run of glyphs.
pub open spec fn text_items(glyphs: Seq<Glyph>, face: FontFace) -> Seq<TextItemView> {
    let (items, pending) = run_items(glyphs, face, glyphs.len() as int);
    flushed(items, pending)
}

/// What the encoder remembers from one element of a page to the next.
pub struct EncoderState {
    /// Whether a text object is open.
    pub in_text: bool,
    /// The fill colour that text was last shown in.
    pub fill: Option<Paint>,
    /// The face and size that were last selected.
    pub font: Option<(FaceId, Length)>,
}

/// The state at the start of a page.
pub open spec fn initial_state() -> EncoderState {
    EncoderState { in_text: false, fill: None, font: None }
}

/// The state after an element.
pub open spec fn state_after(state: EncoderState, element: Element) -> EncoderState {
    match element {
        Element::Text(text) => EncoderState {
            in_text: true,
            fill: Some(text.fill),
            font: Some((text.face_id, text.size)),
        },
        Element::Geometry(_, _) => EncoderState { in_text: false, ..state },
        Element::Image(_, _) => EncoderState { in_text: false, ..state },
        Element::Link(_, _) => state,
    }
}

/// The operator that brings the stream into the mode that an element needs:
/// text opens a text object unless one is open, a shape or an image closes
/// the open one.
pub open spec fn enter_ops(in_text: bool, element: Element) -> Seq<OpView> {
    match element {
        Element::Text(_) => if in_text {
            Seq::empty()
        } else {
            seq![OpView::BeginText]
        },
        Element::Geometry(_, _) => if in_text {
            seq![OpView::EndText]
        } else {
            Seq::empty()
        },
        Element::Image(_, _) => if in_text {
            seq![OpView::EndText]
        } else {
            Seq::empty()
        },
        Element::Link(_, _) => Seq::empty(),
    }
}

/// The operators that show a run of text at `(x, y)`: the fill colour if it
/// differs from the one in use, the font if face or size differ from those
/// in use, the place, and the glyphs.
pub open spec fn text_ops(
    state: EncoderState,
    x: int,
    y: int,
    text: Text,
    font_map: Seq<u32>,
    fonts: FontStore,
) -> Seq<OpView> {
    (if state.fill == Some(text.fill) {
        Seq::empty()
    } else {
        fill_ops(text.fill)
    }) + (if state.font == Some((text.face_id, text.size)) {
        Seq::empty()
    } else {
        seq![
            OpView::SetFont {
                index: position(font_map, text.face_id.0),
                size: text.size.0 as int,
            },
        ]
    }) + seq![
        OpView::SetTextMatrix { x, y },
        OpView::ShowPositioned { items: text_items(text.glyphs@, fonts.face(text.face_id)) },
    ]
}

/// The operators that paint a shape whose element stands at `(x, y)`. A
/// rectangle without a positive width and height paints nothing.
pub open spec fn shape_ops(x: int, y: int, geometry: Geometry, paint: Paint) -> Seq<OpView> {
    match geometry {
        Geometry::Rect(size) => if size.w.0 > 0 && size.h.0 > 0 {
            fill_ops(paint) + seq![
                OpView::Rect { x, y: y - size.h.0, w: size.w.0 as int, h: size.h.0 as int },
                OpView::FillNonzero,
            ]
        } else {
            Seq::empty()
        },
        Geometry::Ellipse(size) => fill_ops(paint) + path_ops(x, y, ellipse_path(size)),
        Geometry::Line(target, thickness) => stroke_ops(paint, thickness.0 as int) + seq![
            OpView::MoveTo { x, y },
            OpView::LineTo { x: x + target.x.0, y: y - target.y.0 },
            OpView::Stroke,
        ],
        Geometry::Path(path) => fill_ops(paint) + path_ops(x, y, path.0@),
    }
}

/// The operators for a shape, between a save and a restore of the graphics
/// state.
pub open spec fn geometry_ops(x: int, y: int, geometry: Geometry, paint: Paint) -> Seq<OpView> {
    seq![OpView::SaveState] + shape_ops(x, y, geometry, paint) + seq![OpView::RestoreState]
}

/// The operators that paint an image of the given size whose top left corner
/// is at `(x, y)`.
pub open spec fn image_ops(x: int, y: int, id: ImageId, size: Size, image_map: Seq<u32>) -> Seq<
    OpView,
> {
    seq![
        OpView::SaveState,
        OpView::PlaceImage { w: size.w.0 as int, h: size.h.0 as int, x, y: y - size.h.0 },
        OpView::XObject { index: position(image_map, id.0) },
        OpView::RestoreState,
    ]
}

/// The operators for one element at its place on a page of the given height.
/// A link paints nothing.
pub open spec fn element_ops(
    state: EncoderState,
    height: Length,
    pos: Point,
    element: Element,
    font_map: Seq<u32>,
    image_map: Seq<u32>,
    fonts: FontStore,
) -> Seq<OpView> {
    let (x, y) = page_point(height, pos);
    enter_ops(state.in_text, element) + match element {
        Element::Text(text) => text_ops(state, x, y, text, font_map, fonts),
        Element::Geometry(geometry, paint) => geometry_ops(x, y, geometry, paint),
        Element::Image(id, size) => image_ops(x, y, id, size, image_map),
        Element::Link(_, _) => Seq::empty(),
    }
}

/// The state after the first `n` elements of a page.
pub open spec fn state_at(elements: Seq<(Point, Element)>, n: int) -> EncoderState
    decreases n,
{
    if n <= 0 {
        initial_state()
    } else {
        state_after(state_at(elements, n - 1), elements[n - 1].1)
    }
}

/// The operators for the first `n` elements of a page.
pub open spec fn ops_upto(
    page: Frame,
    n: int,
    font_map: Seq<u32>,
    image_map: Seq<u32>,
    fonts: FontStore,
) -> Seq<OpView>
    decreases n,
{
    if n <= 0 {
        Seq::empty()
    } else {
        ops_upto(page, n - 1, font_map, image_map, fonts) + element_ops(
            state_at(page.elements@, n - 1),
            page.size.h,
            page.elements@[n - 1].0,
            page.elements@[n - 1].1,
            font_map,
            image_map,
            fonts,
        )
    }
}

/// The content stream of a page: the operators of its elements in their
/// order, and the end of the text object if one is still open.
pub open spec fn page_ops(page: Frame, font_map: Seq<u32>, image_map: Seq<u32>, fonts: FontStore) -> Seq<
    OpView,
> {
    let n = page.elements@.len() as int;
    ops_upto(page, n, font_map, image_map, fonts) + (if state_at(page.elements@, n).in_text {
        seq![OpView::EndText]
    } else {
        Seq::empty()
    })
}

/// Whether the resources hold what an element names: the face of its text is
/// recorded in the font map and the store has it; its image is recorded in
/// the image map.
pub open spec fn element_resolves(
    element: Element,
    font_map: Seq<u32>,
    image_map: Seq<u32>,
    fonts: FontStore,
) -> bool {
    match element {
        Element::Text(text) => font_map.contains(text.face_id.0) && fonts.has(text.face_id),
        Element::Image(id, _) => image_map.contains(id.0),
        _ => true,
    }
}

/// Whether the resources hold what the elements of a page name.
pub open spec fn page_resolves(
    page: Frame,
    font_map: Seq<u32>,
    image_map: Seq<u32>,
    fonts: FontStore,
) -> bool {
    forall|k: int|
        0 <= k < page.elements@.len() ==> element_resolves(
            (#[trigger] page.elements@[k]).1,
            font_map,
            image_map,
            fonts,
        )
}

/// The view of a sequence with one more operator is the view of the sequence
/// with the view of that operator.
proof fn lemma_ops_push(ops: Seq<Op>, op: Op)
    ensures
        ops_view(ops.push(op)) == ops_view(ops).push(op@),
{
    assert(ops_view(ops.push(op)) =~= ops_view(ops).push(op@));
}

/// The same for text items.
proof fn lemma_items_push(items: Seq<TextItem>, item: TextItem)
    ensures
        items_view(items.push(item)) == items_view(items).push(item@),
{
    assert(items_view(items.push(item)) =~= items_view(items).push(item@));
}

/// Whether a coordinate is small enough to have the coordinates of a path
/// added to it.
pub open spec fn in_page_range(v: i64) -> bool {
    -0x1_0000_0000 <= v <= 0x1_0000_0000
}

/// Adds one operator to a content stream.
fn emit(content: &mut Vec<Op>, op: Op)
    ensures
        ops_view(final(content)@) == ops_view(old(content)@).push(op@),
{
    proof {
        lemma_ops_push(content@, op);
    }
    content.push(op);
}

/// Adds one item to the items of a show operator.
fn push_item(items: &mut Vec<TextItem>, item: TextItem)
    ensures
        items_view(final(items)@) == items_view(old(items)@).push(item@),
{
    proof {
        lemma_items_push(items@, item);
    }
    items.push(item);
}

/// Writes a change of the fill colour into a content stream.
fn write_fill(content: &mut Vec<Op>, fill: Paint)
    ensures
        ops_view(final(content)@) == ops_view(old(content)@) + fill_ops(fill),
{
    match fill {
        Paint::Color(Color::Rgba(c)) => {
            emit(content, Op::SetFillRgb { r: c.r, g: c.g, b: c.b });
        },
    }
    assert(ops_view(content@) =~= ops_view(old(content)@) + fill_ops(fill));
}

/// Writes a change of the stroke colour and thickness into a content stream.
fn write_stroke(content: &mut Vec<Op>, stroke: Paint, thickness: i64)
    ensures
        ops_view(final(content)@) == ops_view(old(content)@) + stroke_ops(stroke, thickness as int),
{
    match stroke {
        Paint::Color(Color::Rgba(c)) => {
            emit(content, Op::SetStrokeRgb { r: c.r, g: c.g, b: c.b });
        },
    }
    emit(content, Op::SetLineWidth { width: thickness });
    assert(ops_view(content@) =~= ops_view(old(content)@) + stroke_ops(stroke, thickness as int));
}

/// Writes a path into a content stream and fills it.
fn write_path(content: &mut Vec<Op>, x: i64, y: i64, path: &Path)
    requires
        in_page_range(x),
        in_page_range(y),
    ensures
        ops_view(final(content)@) == ops_view(old(content)@) + path_ops(
            x as int,
            y as int,
            path.0@,
        ),
{
    let ghost before = ops_view(content@);
    let ghost segments = path.0@.map_values(|segment: PathElement| segment_op(x as int, y as int, segment));
    let mut i: usize = 0;
    while i < path.0.len()
        invariant
            i <= path.0.len(),
            in_page_range(x),
            in_page_range(y),
            segments == path.0@.map_values(
                |segment: PathElement| segment_op(x as int, y as int, segment),
            ),
            ops_view(content@) == before + segments.take(i as int),
        decreases path.0.len() - i,
    {
        let op = match path.0[i] {
            PathElement::MoveTo(p) => Op::MoveTo { x: x + p.x.0 as i64, y: y - p.y.0 as i64 },
            PathElement::LineTo(p) => Op::LineTo { x: x + p.x.0 as i64, y: y - p.y.0 as i64 },
            PathElement::CubicTo(p1, p2, p3) => Op::CubicTo {
                x1: x + p1.x.0 as i64,
                y1: y - p1.y.0 as i64,
                x2: x + p2.x.0 as i64,
                y2: y - p2.y.0 as i64,
                x3: x + p3.x.0 as i64,
                y3: y - p3.y.0 as i64,
            },
            PathElement::ClosePath => Op::ClosePath,
        };
        assert(op@ == segments[i as int]);
        emit(content, op);
        assert(segments.take(i + 1) =~= segments.take(i as int).push(segments[i as int]));
        assert(ops_view(content@) =~= before + segments.take(i + 1));
        i += 1;
    }
    emit(content, Op::FillNonzero);
    assert(segments.take(i as int) =~= segments);
    assert(ops_view(content@) =~= before + path_ops(x as int, y as int, path.0@));
}

/// Writes the items of the show operator for a run of glyphs of a face.
pub fn encode_glyphs(glyphs: &Vec<Glyph>, face: &FontFace) -> (items: Vec<TextItem>)
    ensures
        items_view(items@) == text_items(glyphs@, *face),
{
    let mut items: Vec<TextItem> = Vec::new();
    let mut encoded: Vec<u8> = Vec::new();
    let mut adjustment: i64 = 0;
    let mut i: usize = 0;
    assert(items_view(items@) =~= Seq::empty());
    while i < glyphs.len()
        invariant
            i <= glyphs.len(),
            items_view(items@) == run_items(glyphs@, *face, i as int).0,
            encoded@ == run_items(glyphs@, *face, i as int).1,
            adjustment == (if i == 0 {
                0
            } else {
                carry(glyphs@[i - 1])
            }),
            -0x1_0000_0000 <= adjustment <= 0x1_0000_0000,
        decreases glyphs.len() - i,
    {
        let glyph = glyphs[i];
        let ghost items_before = items_view(items@);
        let ghost pending_before = encoded@;
        adjustment = adjustment + glyph.x_offset.0 as i64;
        match face.advance(glyph.id) {
            Some(advance) => {
                adjustment = adjustment + (glyph.x_advance.0 as i64 - advance.0 as i64);
            },
            None => {},
        }
        assert(adjustment == shift(glyphs@, *face, i as int));
        if adjustment != 0 {
            if encoded.len() > 0 {
                push_item(&mut items, TextItem::Show(encoded));
            }
            push_item(&mut items, TextItem::Adjust(-adjustment));
            adjustment = 0;
            assert(items_view(items@) == flushed(items_before, pending_before).push(
                TextItemView::Adjust(-shift(glyphs@, *face, i as int)),
            ));
            encoded = Vec::new();
        }
        encoded.push((glyph.id >> 8) as u8);
        encoded.push((glyph.id & 0xff) as u8);
        assert(encoded@ =~= run_items(glyphs@, *face, i + 1).1);
        adjustment = adjustment - glyph.x_offset.0 as i64;
        i += 1;
    }
    if encoded.len() > 0 {
        push_item(&mut items, TextItem::Show(encoded));
    }
    items
}

/// Writes the operators for a shape whose element stands at `(x, y)`.
fn write_geometry(content: &mut Vec<Op>, x: i64, y: i64, geometry: &Geometry, paint: Paint)
    requires
        in_page_range(x),
        in_page_range(y),
    ensures
        ops_view(final(content)@) == ops_view(old(content)@) + geometry_ops(
            x as int,
            y as int,
            *geometry,
            paint,
        ),
{
    let ghost before = ops_view(content@);
    emit(content, Op::SaveState);
    match geometry {
        Geometry::Rect(size) => {
            let w: i64 = size.w.0 as i64;
            let h: i64 = size.h.0 as i64;
            if w > 0 && h > 0 {
                write_fill(content, paint);
                emit(content, Op::Rect { x, y: y - h, w, h });
                emit(content, Op::FillNonzero);
            }
        },
        Geometry::Ellipse(size) => {
            let path = Path::ellipse(*size);
            write_fill(content, paint);
            write_path(content, x, y, &path);
        },
        Geometry::Line(target, thickness) => {
            write_stroke(content, paint, thickness.0 as i64);
            emit(content, Op::MoveTo { x, y });
            emit(content, Op::LineTo { x: x + target.x.0 as i64, y: y - target.y.0 as i64 });
            emit(content, Op::Stroke);
        },
        Geometry::Path(path) => {
            write_fill(content, paint);
            write_path(content, x, y, path);
        },
    }
    assert(ops_view(content@) =~= before + seq![OpView::SaveState] + shape_ops(
        x as int,
        y as int,
        *geometry,
        paint,
    ));
    emit(content, Op::RestoreState);
    assert(ops_view(content@) =~= before + geometry_ops(x as int, y as int, *geometry, paint));
}

/// Writes the operators that show a run of text at `(x, y)`, given the fill
/// colour and the font in use, and returns those in use afterwards.
fn write_text(
    content: &mut Vec<Op>,
    fill: Option<Paint>,
    font: Option<(FaceId, Length)>,
    x: i64,
    y: i64,
    text: &Text,
    font_map: &Remapper,
    fonts: &FontStore,
)
    requires
        font_map.wf(),
        font_map@.contains(text.face_id.0),
        fonts.has(text.face_id),
    ensures
        ops_view(final(content)@) == ops_view(old(content)@) + text_ops(
            EncoderState { in_text: true, fill, font },
            x as int,
            y as int,
            *text,
            font_map@,
            *fonts,
        ),
{
    let ghost before = ops_view(content@);
    let same_fill = match fill {
        Some(paint) => paint == text.fill,
        None => false,
    };
    if !same_fill {
        write_fill(content, text.fill);
    }
    let same_font = match font {
        Some((face_id, size)) => face_id == text.face_id && size == text.size,
        None => false,
    };
    if !same_font {
        let index = font_map.map(text.face_id.0);
        emit(content, Op::SetFont { index, size: text.size.0 as i64 });
    }
    let face = fonts.get(text.face_id);
    emit(content, Op::SetTextMatrix { x, y });
    let items = encode_glyphs(&text.glyphs, face);
    emit(content, Op::ShowPositioned { items });
    assert(ops_view(content@) =~= before + text_ops(
        EncoderState { in_text: true, fill, font },
        x as int,
        y as int,
        *text,
        font_map@,
        *fonts,
    ));
}

/// Writes the content stream of a page.
///
/// The resources must hold what the page names: the font map the face of each
/// run of text, the font store that face, and the image map each image.
pub fn write_page(page: &Frame, font_map: &Remapper, image_map: &Remapper, fonts: &FontStore) -> (content:
    Vec<Op>)
    requires
        font_map.wf(),
        image_map.wf(),
        page_resolves(*page, font_map@, image_map@, *fonts),
    ensures
        ops_view(content@) == page_ops(*page, font_map@, image_map@, *fonts),
{
    let mut content: Vec<Op> = Vec::new();
    let mut font: Option<(FaceId, Length)> = None;
    let mut fill: Option<Paint> = None;
    let mut in_text_state = false;
    let mut i: usize = 0;
    assert(ops_view(content@) =~= Seq::empty());
    while i < page.elements.len()
        invariant
            i <= page.elements.len(),
            font_map.wf(),
            image_map.wf(),
            page_resolves(*page, font_map@, image_map@, *fonts),
            ops_view(content@) == ops_upto(*page, i as int, font_map@, image_map@, *fonts),
            state_at(page.elements@, i as int) == (EncoderState {
                in_text: in_text_state,
                fill,
                font,
            }),
        decreases page.elements.len() - i,
    {
        let ghost before = ops_view(content@);
        let ghost state = state_at(page.elements@, i as int);
        let entry = &page.elements[i];
        let pos = entry.0;
        let element = &entry.1;
        assert(element_resolves(page.elements@[i as int].1, font_map@, image_map@, *fonts));
        let (x, y) = to_page(page.size.h, pos);
        match element {
            Element::Text(text) => {
                if !in_text_state {
                    emit(&mut content, Op::BeginText);
                    in_text_state = true;
                }
                write_text(&mut content, fill, font, x, y, text, font_map, fonts);
                fill = Some(text.fill);
                font = Some((text.face_id, text.size));
            },
            Element::Geometry(geometry, paint) => {
                if in_text_state {
                    emit(&mut content, Op::EndText);
                    in_text_state = false;
                }
                write_geometry(&mut content, x, y, geometry, *paint);
            },
            Element::Image(id, size) => {
                if in_text_state {
                    emit(&mut content, Op::EndText);
                    in_text_state = false;
                }
                let index = image_map.map(id.0);
                let w: i64 = size.w.0 as i64;
                let h: i64 = size.h.0 as i64;
                emit(&mut content, Op::SaveState);
                emit(&mut content, Op::PlaceImage { w, h, x, y: y - h });
                emit(&mut content, Op::XObject { index });
                emit(&mut content, Op::RestoreState);
            },
            Element::Link(_, _) => {},
        }
        assert(ops_view(content@) =~= before + element_ops(
            state,
            page.size.h,
            pos,
            *element,
            font_map@,
            image_map@,
            *fonts,
        ));
        i += 1;
    }
    if in_text_state {
        emit(&mut content, Op::EndText);
    }
    assert(ops_view(content@) =~= page_ops(*page, font_map@, image_map@, *fonts));
    content
}

/// A rectangle whose width or height is not positive leaves no trace on the
/// page: no fill colour, no rectangle, no fill; only the save and the restore
/// of the graphics state around the place where it would have been.
pub proof fn lemma_degenerate_rect(x: int, y: int, size: Size, paint: Paint)
    requires
        size.w.0 <= 0 || size.h.0 <= 0,
    ensures
        shape_ops(x, y, Geometry::Rect(size), paint) == Seq::<OpView>::empty(),
        geometry_ops(x, y, Geometry::Rect(size), paint) == seq![
            OpView::SaveState,
            OpView::RestoreState,
        ],
{
    assert(geometry_ops(x, y, Geometry::Rect(size), paint) =~= seq![
        OpView::SaveState,
        OpView::RestoreState,
    ]);
}

/// An element at `(x, y)` of layout space is put at `(x, H - y)` on a page of
/// height `H`: there text starts, there is the top left corner of a
/// rectangle and of an image, whose lower left corner the operators name.
pub proof fn lemma_placement(
    state: EncoderState,
    height: Length,
    pos: Point,
    element: Element,
    font_map: Seq<u32>,
    image_map: Seq<u32>,
    fonts: FontStore,
)
    ensures
        page_point(height, pos) == (pos.x.0 as int, height.0 - pos.y.0),
        element is Text ==> element_ops(
            state,
            height,
            pos,
            element,
            font_map,
            image_map,
            fonts,
        ).contains(OpView::SetTextMatrix { x: pos.x.0 as int, y: height.0 - pos.y.0 }),
        element matches Element::Image(_, size) ==> element_ops(
            state,
            height,
            pos,
            element,
            font_map,
            image_map,
            fonts,
        ).contains(
            OpView::PlaceImage {
                w: size.w.0 as int,
                h: size.h.0 as int,
                x: pos.x.0 as int,
                y: height.0 - pos.y.0 - size.h.0,
            },
        ),
        element matches Element::Geometry(Geometry::Rect(size), _) ==> size.w.0 > 0 && size.h.0
            > 0 ==> element_ops(
            state,
            height,
            pos,
            element,
            font_map,
            image_map,
            fonts,
        ).contains(
            OpView::Rect {
                x: pos.x.0 as int,
                y: height.0 - pos.y.0 - size.h.0,
                w: size.w.0 as int,
                h: size.h.0 as int,
            },
        ),
{
    let ops = element_ops(state, height, pos, element, font_map, image_map, fonts);
    let enter = enter_ops(state.in_text, element);
    let (x, y) = page_point(height, pos);
    match element {
        Element::Text(text) => {
            let body = text_ops(state, x, y, text, font_map, fonts);
            let at = body.len() - 2;
            assert(body[at] == OpView::SetTextMatrix { x, y });
            assert(ops[enter.len() + at] == body[at]);
        },
        Element::Image(id, size) => {
            assert(ops[enter.len() as int + 1] == image_ops(x, y, id, size, image_map)[1]);
        },
        Element::Geometry(geometry, paint) => {
            match geometry {
                Geometry::Rect(size) => {
                    if size.w.0 > 0 && size.h.0 > 0 {
                        assert(ops[enter.len() as int + 2] == geometry_ops(x, y, geometry, paint)[2]);
                    }
                },
                _ => {},
            }
        },
        Element::Link(_, _) => {},
    }
}

/// A point of a path is put where its place in layout space belongs: the
/// point `(px, py)` of a path whose element stands at `(x, y)` of layout
/// space lies at `(x + px, y + py)` there, and its operator names
/// `(x + px, H - (y + py))` on a page of height `H`.
pub proof fn lemma_path_placement(
    state: EncoderState,
    height: Length,
    pos: Point,
    path: Path,
    paint: Paint,
    k: int,
    font_map: Seq<u32>,
    image_map: Seq<u32>,
    fonts: FontStore,
)
    requires
        0 <= k < path.0@.len(),
    ensures
        path.0@[k] matches PathElement::MoveTo(p) ==> element_ops(
            state,
            height,
            pos,
            Element::Geometry(Geometry::Path(path), paint),
            font_map,
            image_map,
            fonts,
        ).contains(
            OpView::MoveTo { x: pos.x.0 + p.x.0, y: height.0 - (pos.y.0 + p.y.0) },
        ),
        path.0@[k] matches PathElement::LineTo(p) ==> element_ops(
            state,
            height,
            pos,
            Element::Geometry(Geometry::Path(path), paint),
            font_map,
            image_map,
            fonts,
        ).contains(
            OpView::LineTo { x: pos.x.0 + p.x.0, y: height.0 - (pos.y.0 + p.y.0) },
        ),
        path.0@[k] matches PathElement::CubicTo(p1, p2, p3) ==> element_ops(
            state,
            height,
            pos,
            Element::Geometry(Geometry::Path(path), paint),
            font_map,
            image_map,
            fonts,
        ).contains(
            OpView::CubicTo {
                x1: pos.x.0 + p1.x.0,
                y1: height.0 - (pos.y.0 + p1.y.0),
                x2: pos.x.0 + p2.x.0,
                y2: height.0 - (pos.y.0 + p2.y.0),
                x3: pos.x.0 + p3.x.0,
                y3: height.0 - (pos.y.0 + p3.y.0),
            },
        ),
{
    let element = Element::Geometry(Geometry::Path(path), paint);
    let ops = element_ops(state, height, pos, element, font_map, image_map, fonts);
    let enter = enter_ops(state.in_text, element);
    let (x, y) = page_point(height, pos);
    let body = geometry_ops(x, y, Geometry::Path(path), paint);
    assert(body[2 + k] == path_ops(x, y, path.0@)[k]);
    assert(path_ops(x, y, path.0@)[k] == segment_op(x, y, path.0@[k]));
    assert(ops[enter.len() as int + 2 + k] == body[2 + k]);
}

/// How many of the operators select a font.
pub open spec fn font_selects(ops: Seq<OpView>) -> nat
    decreases ops.len(),
{
    if ops.len() == 0 {
        0
    } else {
        font_selects(ops.drop_last()) + if ops.last() is SetFont {
            1nat
        } else {
            0nat
        }
    }
}

/// The face and size of a run of text.
pub open spec fn font_of(element: Element) -> Option<(FaceId, Length)> {
    match element {
        Element::Text(text) => Some((text.face_id, text.size)),
        _ => None,
    }
}

/// How many of the first `n` elements start a run of equal face and size:
/// the first element does, and every element whose face or size differs from
/// that of the element before it.
pub open spec fn font_runs(elements: Seq<(Point, Element)>, n: int) -> nat
    decreases n,
{
    if n <= 0 {
        0
    } else {
        font_runs(elements, n - 1) + if n == 1 || font_of(elements[n - 1].1) != font_of(
            elements[n - 2].1,
        ) {
            1nat
        } else {
            0nat
        }
    }
}

/// The font selections of two sequences of operators add up.
pub proof fn lemma_font_selects_add(a: Seq<OpView>, b: Seq<OpView>)
    ensures
        font_selects(a + b) == font_selects(a) + font_selects(b),
    decreases b.len(),
{
    if b.len() == 0 {
        assert(a + b =~= a);
    } else {
        assert((a + b).drop_last() =~= a + b.drop_last());
        lemma_font_selects_add(a, b.drop_last());
    }
}

/// A run of text selects a font exactly if its face or size differs from
/// those in use.
proof fn lemma_font_selects_text(
    state: EncoderState,
    height: Length,
    pos: Point,
    text: Text,
    font_map: Seq<u32>,
    image_map: Seq<u32>,
    fonts: FontStore,
)
    ensures
        font_selects(
            element_ops(state, height, pos, Element::Text(text), font_map, image_map, fonts),
        ) == (if state.font == Some((text.face_id, text.size)) {
            0nat
        } else {
            1nat
        }),
{
    let (x, y) = page_point(height, pos);
    let enter = enter_ops(state.in_text, Element::Text(text));
    let fill = if state.fill == Some(text.fill) {
        Seq::empty()
    } else {
        fill_ops(text.fill)
    };
    let select = if state.font == Some((text.face_id, text.size)) {
        Seq::empty()
    } else {
        seq![
            OpView::SetFont {
                index: position(font_map, text.face_id.0),
                size: text.size.0 as int,
            },
        ]
    };
    let place = seq![OpView::SetTextMatrix { x, y }];
    let show = seq![
        OpView::ShowPositioned { items: text_items(text.glyphs@, fonts.face(text.face_id)) },
    ];
    let all = element_ops(state, height, pos, Element::Text(text), font_map, image_map, fonts);
    assert(all =~= (((enter + fill) + select) + place) + show);
    lemma_font_selects_add(((enter + fill) + select) + place, show);
    lemma_font_selects_add((enter + fill) + select, place);
    lemma_font_selects_add(enter + fill, select);
    lemma_font_selects_add(enter, fill);
    lemma_font_selects_one(enter);
    lemma_font_selects_one(fill);
    lemma_font_selects_one(select);
    lemma_font_selects_one(place);
    lemma_font_selects_one(show);
}

/// The font selections of at most one operator.
proof fn lemma_font_selects_one(ops: Seq<OpView>)
    requires
        ops.len() <= 1,
    ensures
        font_selects(ops) == (if ops.len() == 1 && ops[0] is SetFont {
            1nat
        } else {
            0nat
        }),
{
    if ops.len() == 1 {
        assert(ops.drop_last().len() == 0);
        assert(font_selects(ops.drop_last()) == 0);
        assert(ops.last() == ops[0]);
    }
}

/// On a page of text alone, after the first `n` elements the operators have
/// selected a font once for each run, and the font in use is that of the
/// element written last.
proof fn lemma_font_selects_upto(
    page: Frame,
    n: int,
    font_map: Seq<u32>,
    image_map: Seq<u32>,
    fonts: FontStore,
)
    requires
        0 <= n <= page.elements@.len(),
        forall|k: int| 0 <= k < page.elements@.len() ==> (#[trigger] page.elements@[k]).1 is Text,
    ensures
        font_selects(ops_upto(page, n, font_map, image_map, fonts)) == font_runs(
            page.elements@,
            n,
        ),
        state_at(page.elements@, n).font == (if n == 0 {
            None
        } else {
            font_of(page.elements@[n - 1].1)
        }),
        n > 0 ==> state_at(page.elements@, n).in_text,
    decreases n,
{
    if n > 0 {
        lemma_font_selects_upto(page, n - 1, font_map, image_map, fonts);
        let state = state_at(page.elements@, n - 1);
        let entry = page.elements@[n - 1];
        assert(entry.1 is Text);
        if n > 1 {
            assert(page.elements@[n - 2].1 is Text);
        }
        match entry.1 {
            Element::Text(text) => {
                lemma_font_selects_text(
                    state,
                    page.size.h,
                    entry.0,
                    text,
                    font_map,
                    image_map,
                    fonts,
                );
                lemma_font_selects_add(
                    ops_upto(page, n - 1, font_map, image_map, fonts),
                    element_ops(state, page.size.h, entry.0, entry.1, font_map, image_map, fonts),
                );
            },
            _ => {},
        }
    }
}

/// On a page that holds text alone, the content stream selects a font exactly
/// once for each run of elements of equal face and size that cannot be made
/// longer, not once for each element.
pub proof fn lemma_one_font_select_per_run(
    page: Frame,
    font_map: Seq<u32>,
    image_map: Seq<u32>,
    fonts: FontStore,
)
    requires
        forall|k: int| 0 <= k < page.elements@.len() ==> (#[trigger] page.elements@[k]).1 is Text,
    ensures
        font_selects(page_ops(page, font_map, image_map, fonts)) == font_runs(
            page.elements@,
            page.elements@.len() as int,
        ),
{
    let n = page.elements@.len() as int;
    lemma_font_selects_upto(page, n, font_map, image_map, fonts);
    let tail = if state_at(page.elements@, n).in_text {
        seq![OpView::EndText]
    } else {
        Seq::empty()
    };
    lemma_font_selects_add(ops_upto(page, n, font_map, image_map, fonts), tail);
    lemma_font_selects_one(tail);
}

/// Whether an operator may stand where a text object is open (`in_text`) or
/// closed, and whether a text object is open after it; `None` if it may not
/// stand there. Text is shown inside a text object only; the graphics state
/// is saved and restored, paths are built and painted and images are placed
/// outside of text objects only; colours, the thickness of strokes and the
/// font may be set anywhere.
pub open spec fn mode_after(in_text: bool, op: OpView) -> Option<bool> {
    match op {
        OpView::BeginText => if in_text {
            None
        } else {
            Some(true)
        },
        OpView::EndText => if in_text {
            Some(false)
        } else {
            None
        },
        OpView::SetTextMatrix { .. } | OpView::ShowPositioned { .. } => if in_text {
            Some(true)
        } else {
            None
        },
        OpView::SetFillRgb { .. } | OpView::SetStrokeRgb { .. } | OpView::SetLineWidth { .. }
        | OpView::SetFont { .. } => Some(in_text),
        _ => if in_text {
            None
        } else {
            Some(false)
        },
    }
}

/// Whether a text object is open after a sequence of operators that starts
/// where a text object is open (`in_text`) or closed; `None` if one of the
/// operators stands where it may not.
pub open spec fn mode_after_all(in_text: bool, ops: Seq<OpView>) -> Option<bool>
    decreases ops.len(),
{
    if ops.len() == 0 {
        Some(in_text)
    } else {
        match mode_after_all(in_text, ops.drop_last()) {
            Some(mode) => mode_after(mode, ops.last()),
            None => None,
        }
    }
}

/// The mode after two sequences of operators is the mode after the second,
/// started in the mode after the first.
pub proof fn lemma_mode_after_concat(in_text: bool, a: Seq<OpView>, b: Seq<OpView>)
    ensures
        mode_after_all(in_text, a + b) == (match mode_after_all(in_text, a) {
            Some(mode) => mode_after_all(mode, b),
            None => None,
        }),
    decreases b.len(),
{
    if b.len() == 0 {
        assert(a + b =~= a);
    } else {
        assert((a + b).drop_last() =~= a + b.drop_last());
        lemma_mode_after_concat(in_text, a, b.drop_last());
    }
}

/// The mode after one operator.
proof fn lemma_mode_after_one(in_text: bool, op: OpView)
    ensures
        mode_after_all(in_text, seq![op]) == mode_after(in_text, op),
{
    assert(seq![op].drop_last() =~= Seq::<OpView>::empty());
    assert(mode_after_all(in_text, seq![op].drop_last()) == Some(in_text));
}

/// The mode after a sequence of operators and one more.
proof fn lemma_mode_after_push(in_text: bool, ops: Seq<OpView>, op: OpView)
    ensures
        mode_after_all(in_text, ops.push(op)) == (match mode_after_all(in_text, ops) {
            Some(mode) => mode_after(mode, op),
            None => None,
        }),
{
    assert(ops.push(op).drop_last() =~= ops);
}

/// The segments of a path may stand outside of a text object.
proof fn lemma_mode_after_segments(x: int, y: int, path: Seq<PathElement>)
    ensures
        mode_after_all(
            false,
            path.map_values(|segment: PathElement| segment_op(x, y, segment)),
        ) == Some(false),
    decreases path.len(),
{
    let ops = path.map_values(|segment: PathElement| segment_op(x, y, segment));
    if path.len() > 0 {
        let front = path.drop_last();
        assert(ops.drop_last() =~= front.map_values(
            |segment: PathElement| segment_op(x, y, segment),
        ));
        lemma_mode_after_segments(x, y, front);
        assert(ops.last() == segment_op(x, y, path.last()));
    }
}

/// The operators of a shape may stand outside of a text object.
proof fn lemma_mode_after_geometry(x: int, y: int, geometry: Geometry, paint: Paint)
    ensures
        mode_after_all(false, geometry_ops(x, y, geometry, paint)) == Some(false),
{
    let save = seq![OpView::SaveState];
    let shape = shape_ops(x, y, geometry, paint);
    let restore = seq![OpView::RestoreState];
    let fill = fill_ops(paint);
    lemma_mode_after_one(false, OpView::SaveState);
    lemma_mode_after_one(false, OpView::RestoreState);
    lemma_mode_after_one(false, fill[0]);
    assert(fill =~= seq![fill[0]]);
    assert(mode_after_all(false, shape) == Some(false)) by {
        match geometry {
            Geometry::Rect(size) => {
                if size.w.0 > 0 && size.h.0 > 0 {
                    let rect = OpView::Rect {
                        x,
                        y: y - size.h.0,
                        w: size.w.0 as int,
                        h: size.h.0 as int,
                    };
                    assert(shape =~= fill.push(rect).push(OpView::FillNonzero));
                    lemma_mode_after_push(false, fill, rect);
                    lemma_mode_after_push(false, fill.push(rect), OpView::FillNonzero);
                }
            },
            Geometry::Ellipse(size) => {
                let segments = ellipse_path(size).map_values(
                    |segment: PathElement| segment_op(x, y, segment),
                );
                lemma_mode_after_segments(x, y, ellipse_path(size));
                lemma_mode_after_push(false, segments, OpView::FillNonzero);
                lemma_mode_after_concat(false, fill, path_ops(x, y, ellipse_path(size)));
            },
            Geometry::Line(target, thickness) => {
                let stroke = stroke_ops(paint, thickness.0 as int);
                let line = seq![
                    OpView::MoveTo { x, y },
                    OpView::LineTo { x: x + target.x.0, y: y - target.y.0 },
                    OpView::Stroke,
                ];
                assert(stroke =~= seq![stroke[0]].push(stroke[1]));
                lemma_mode_after_one(false, stroke[0]);
                lemma_mode_after_push(false, seq![stroke[0]], stroke[1]);
                assert(line =~= seq![line[0]].push(line[1]).push(line[2]));
                lemma_mode_after_one(false, line[0]);
                lemma_mode_after_push(false, seq![line[0]], line[1]);
                lemma_mode_after_push(false, seq![line[0]].push(line[1]), line[2]);
                lemma_mode_after_concat(false, stroke, line);
            },
            Geometry::Path(path) => {
                let segments = path.0@.map_values(
                    |segment: PathElement| segment_op(x, y, segment),
                );
                lemma_mode_after_segments(x, y, path.0@);
                lemma_mode_after_push(false, segments, OpView::FillNonzero);
                lemma_mode_after_concat(false, fill, path_ops(x, y, path.0@));
            },
        }
    }
    lemma_mode_after_concat(false, save, shape);
    lemma_mode_after_concat(false, save + shape, restore);
}

/// The operators of an element may stand where the operators before it have
/// left the stream, and leave it as the state after the element says.
proof fn lemma_mode_after_element(
    state: EncoderState,
    height: Length,
    pos: Point,
    element: Element,
    font_map: Seq<u32>,
    image_map: Seq<u32>,
    fonts: FontStore,
)
    ensures
        mode_after_all(
            state.in_text,
            element_ops(state, height, pos, element, font_map, image_map, fonts),
        ) == Some(state_after(state, element).in_text),
{
    let (x, y) = page_point(height, pos);
    let enter = enter_ops(state.in_text, element);
    match element {
        Element::Text(text) => {
            let fill = if state.fill == Some(text.fill) {
                Seq::empty()
            } else {
                fill_ops(text.fill)
            };
            let select = if state.font == Some((text.face_id, text.size)) {
                Seq::empty()
            } else {
                seq![
                    OpView::SetFont {
                        index: position(font_map, text.face_id.0),
                        size: text.size.0 as int,
                    },
                ]
            };
            let place = OpView::SetTextMatrix { x, y };
            let show = OpView::ShowPositioned {
                items: text_items(text.glyphs@, fonts.face(text.face_id)),
            };
            let body = text_ops(state, x, y, text, font_map, fonts);
            assert(body =~= (fill + select).push(place).push(show));
            if !state.in_text {
                lemma_mode_after_one(false, OpView::BeginText);
            }
            assert(mode_after_all(state.in_text, enter) == Some(true));
            if state.fill != Some(text.fill) {
                assert(fill =~= seq![fill[0]]);
                lemma_mode_after_one(true, fill[0]);
            }
            if state.font != Some((text.face_id, text.size)) {
                lemma_mode_after_one(true, select[0]);
            }
            lemma_mode_after_concat(true, fill, select);
            lemma_mode_after_push(true, fill + select, place);
            lemma_mode_after_push(true, (fill + select).push(place), show);
            lemma_mode_after_concat(state.in_text, enter, body);
        },
        Element::Geometry(geometry, paint) => {
            if state.in_text {
                lemma_mode_after_one(true, OpView::EndText);
            }
            lemma_mode_after_geometry(x, y, geometry, paint);
            lemma_mode_after_concat(state.in_text, enter, geometry_ops(x, y, geometry, paint));
        },
        Element::Image(id, size) => {
            if state.in_text {
                lemma_mode_after_one(true, OpView::EndText);
            }
            let ops = image_ops(x, y, id, size, image_map);
            assert(ops =~= seq![ops[0]].push(ops[1]).push(ops[2]).push(ops[3]));
            lemma_mode_after_one(false, ops[0]);
            lemma_mode_after_push(false, seq![ops[0]], ops[1]);
            lemma_mode_after_push(false, seq![ops[0]].push(ops[1]), ops[2]);
            lemma_mode_after_push(false, seq![ops[0]].push(ops[1]).push(ops[2]), ops[3]);
            lemma_mode_after_concat(state.in_text, enter, ops);
        },
        Element::Link(_, _) => {
            assert(element_ops(state, height, pos, element, font_map, image_map, fonts) =~= Seq::<
                OpView,
            >::empty());
        },
    }
}

/// The operators of the first `n` elements of a page stand where they may.
proof fn lemma_mode_after_upto(
    page: Frame,
    n: int,
    font_map: Seq<u32>,
    image_map: Seq<u32>,
    fonts: FontStore,
)
    requires
        0 <= n <= page.elements@.len(),
    ensures
        mode_after_all(false, ops_upto(page, n, font_map, image_map, fonts)) == Some(
            state_at(page.elements@, n).in_text,
        ),
    decreases n,
{
    if n > 0 {
        lemma_mode_after_upto(page, n - 1, font_map, image_map, fonts);
        let state = state_at(page.elements@, n - 1);
        let entry = page.elements@[n - 1];
        lemma_mode_after_element(state, page.size.h, entry.0, entry.1, font_map, image_map, fonts);
        lemma_mode_after_concat(
            false,
            ops_upto(page, n - 1, font_map, image_map, fonts),
            element_ops(state, page.size.h, entry.0, entry.1, font_map, image_map, fonts),
        );
    }
}

/// Text and painting are never mixed: in the content stream of any page,
/// text is shown inside a text object, shapes and images are painted outside
/// of one, text objects are not nested, and the last one is closed at the
/// end.
pub proof fn lemma_text_and_painting_apart(
    page: Frame,
    font_map: Seq<u32>,
    image_map: Seq<u32>,
    fonts: FontStore,
)
    ensures
        mode_after_all(false, page_ops(page, font_map, image_map, fonts)) == Some(false),
{
    let n = page.elements@.len() as int;
    lemma_mode_after_upto(page, n, font_map, image_map, fonts);
    let tail = if state_at(page.elements@, n).in_text {
        seq![OpView::EndText]
    } else {
        Seq::empty()
    };
    if state_at(page.elements@, n).in_text {
        lemma_mode_after_one(true, OpView::EndText);
    }
    lemma_mode_after_concat(false, ops_upto(page, n, font_map, image_map, fonts), tail);
}

} // verus!
