//! Lengths, points and paths.

use vstd::prelude::*;

verus! {

/// An absolute length as a whole number of length units.
///
/// The library adds, subtracts and compares lengths and never looks into the
/// unit, so a caller is free to count in the fraction of a point that suits it.
#[derive(Clone, Copy, PartialEq, Eq, Debug, Structural)]
pub struct Length(pub i32);

/// A length relative to the font size, in thousandths of it. These are the
/// units in which a font's width table is written.
#[derive(Clone, Copy, PartialEq, Eq, Debug, Structural)]
pub struct Em(pub i32);

impl Em {
    /// The length in the units of a font's width table.
    pub fn to_pdf(self) -> (r: i32)
        ensures
            r == self.0,
    {
        self.0
    }
}

/// A point in layout space: the origin is the top left corner of the page,
/// and `y` grows downwards.
#[derive(Clone, Copy, PartialEq, Eq, Debug, Structural)]
pub struct Point {
    pub x: Length,
    pub y: Length,
}

/// A width and a height.
#[derive(Clone, Copy, PartialEq, Eq, Debug, Structural)]
pub struct Size {
    pub w: Length,
    pub h: Length,
}

/// One segment of a path. Its points are relative to the place of the element
/// that holds the path.
#[derive(Clone, Copy, PartialEq, Eq, Debug, Structural)]
pub enum PathElement {
    MoveTo(Point),
    LineTo(Point),
    CubicTo(Point, Point, Point),
    ClosePath,
}

/// A path of straight lines and cubic curves.
#[derive(Clone, Debug)]
pub struct Path(pub Vec<PathElement>);

/// `a / b`, rounded towards zero.
pub open spec fn div_to_zero(a: int, b: int) -> int
    recommends
        b > 0,
{
    if a >= 0 {
        a / b
    } else {
        -((-a) / b)
    }
}

/// How far, of a radius `r`, the control points of a quarter of an ellipse
/// stand from its end points: a share of 551784 millionths.
pub open spec fn control_offset(r: int) -> int {
    div_to_zero(r * 551784, 1000000)
}

/// The point `(x, y)`.
pub open spec fn point(x: int, y: int) -> Point {
    Point { x: Length(x as i32), y: Length(y as i32) }
}

/// The ellipse with the radii `size.w / 2` and `size.h / 2`, halves rounded
/// towards zero, that touches the axes of its element from the inside: four
/// cubic curves that start and end at the leftmost point.
pub open spec fn ellipse_path(size: Size) -> Seq<PathElement> {
    let rx = div_to_zero(size.w.0 as int, 2);
    let ry = div_to_zero(size.h.0 as int, 2);
    let mx = control_offset(rx);
    let my = control_offset(ry);
    seq![
        PathElement::MoveTo(point(0, ry)),
        PathElement::CubicTo(point(0, ry + my), point(rx - mx, 2 * ry), point(rx, 2 * ry)),
        PathElement::CubicTo(point(rx + mx, 2 * ry), point(2 * rx, ry + my), point(2 * rx, ry)),
        PathElement::CubicTo(point(2 * rx, ry - my), point(rx + mx, 0), point(rx, 0)),
        PathElement::CubicTo(point(rx - mx, 0), point(0, ry - my), point(0, ry)),
    ]
}

/// The control offset for the radius `r`.
fn control(r: i32) -> (m: i32)
    ensures
        m == control_offset(r as int),
        r >= 0 ==> 0 <= m <= r,
        r <= 0 ==> r <= m <= 0,
{
    let scaled: i64 = (r as i64) * 551784;
    (scaled / 1000000) as i32
}

impl Path {
    /// The path of an ellipse that fills `size`.
    pub fn ellipse(size: Size) -> (path: Path)
        ensures
            path.0@ == ellipse_path(size),
    {
        let rx: i32 = size.w.0 / 2;
        let ry: i32 = size.h.0 / 2;
        let mx: i32 = control(rx);
        let my: i32 = control(ry);
        let mut segments: Vec<PathElement> = Vec::new();
        segments.push(PathElement::MoveTo(Point { x: Length(0), y: Length(ry) }));
        segments.push(
            PathElement::CubicTo(
                Point { x: Length(0), y: Length(ry + my) },
                Point { x: Length(rx - mx), y: Length(2 * ry) },
                Point { x: Length(rx), y: Length(2 * ry) },
            ),
        );
        segments.push(
            PathElement::CubicTo(
                Point { x: Length(rx + mx), y: Length(2 * ry) },
                Point { x: Length(2 * rx), y: Length(ry + my) },
                Point { x: Length(2 * rx), y: Length(ry) },
            ),
        );
        segments.push(
            PathElement::CubicTo(
                Point { x: Length(2 * rx), y: Length(ry - my) },
                Point { x: Length(rx + mx), y: Length(0) },
                Point { x: Length(rx), y: Length(0) },
            ),
        );
        segments.push(
            PathElement::CubicTo(
                Point { x: Length(rx - mx), y: Length(0) },
                Point { x: Length(0), y: Length(ry - my) },
                Point { x: Length(0), y: Length(ry) },
            ),
        );
        assert(segments@ =~= ellipse_path(size));
        Path(segments)
    }
}

} // verus!
