//! Laid-out pages: what the export takes in.

use crate::geom::{Em, Length, Path, Point, Size};
use vstd::prelude::*;

verus! {

/// Names a font face of the font store.
#[derive(Clone, Copy, PartialEq, Eq, Debug, Hash, Structural)]
pub struct FaceId(pub u32);

/// Names an image of the image store.
#[derive(Clone, Copy, PartialEq, Eq, Debug, Hash, Structural)]
pub struct ImageId(pub u32);

/// A colour with eight bits for each of red, green, blue and alpha.
#[derive(Clone, Copy, PartialEq, Eq, Debug, Structural)]
pub struct RgbaColor {
    pub r: u8,
    pub g: u8,
    pub b: u8,
    pub a: u8,
}

/// A colour in one of the supported colour spaces.
#[derive(Clone, Copy, PartialEq, Eq, Debug, Structural)]
pub enum Color {
    Rgba(RgbaColor),
}

/// How a shape or a run of text is filled or stroked.
#[derive(Clone, Copy, PartialEq, Eq, Debug, Structural)]
pub enum Paint {
    Color(Color),
}

impl Paint {
    /// The red, green and blue components of the paint.
    pub open spec fn rgb(self) -> (u8, u8, u8) {
        match self {
            Paint::Color(Color::Rgba(c)) => (c.r, c.g, c.b),
        }
    }
}

/// A glyph of a run of text.
#[derive(Clone, Copy, PartialEq, Eq, Debug, Structural)]
pub struct Glyph {
    /// The glyph's number in its font.
    pub id: u16,
    /// How far the pen moves after the glyph.
    pub x_advance: Em,
    /// How far the glyph is moved to the right of the pen.
    pub x_offset: Em,
}

/// A run of glyphs of one face, size and colour.
#[derive(Clone, Debug)]
pub struct Text {
    pub face_id: FaceId,
    pub size: Length,
    pub fill: Paint,
    pub glyphs: Vec<Glyph>,
}

/// A shape.
#[derive(Clone, Debug)]
pub enum Geometry {
    /// A filled rectangle.
    Rect(Size),
    /// A filled ellipse in the rectangle of the given size.
    Ellipse(Size),
    /// A stroked line to a point relative to its start, with a thickness.
    Line(Point, Length),
    /// A filled path.
    Path(Path),
}

/// What a frame can hold.
#[derive(Clone, Debug)]
pub enum Element {
    /// Shaped text.
    Text(Text),
    /// A shape and its paint.
    Geometry(Geometry, Paint),
    /// An image and the size at which it is shown.
    Image(ImageId, Size),
    /// A link to a URI and the size of the region that follows it.
    Link(String, Size),
}

/// One page: its size and its elements, each at its place.
#[derive(Clone, Debug)]
pub struct Frame {
    pub size: Size,
    pub elements: Vec<(Point, Element)>,
}

} // verus!
