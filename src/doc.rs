use vstd::prelude::*;
use crate::geom::{Point, Size, Transform};

verus! {

/// A creation timestamp of a document.
#[derive(Clone, Copy, Debug, PartialEq, Eq, Structural)]
pub struct Datetime {
    pub year: i32,
    pub month: u8,
    pub day: u8,
    pub hour: u8,
    pub minute: u8,
    pub second: u8,
}

/// A list of authors.
#[derive(Debug, Default)]
pub struct Author(pub Vec<String>);

/// A list of keywords.
#[derive(Debug, Default)]
pub struct Keywords(pub Vec<String>);

/// A fill colour, as red, green, blue and alpha components.
#[derive(Clone, Copy, Debug, PartialEq, Eq, Structural)]
pub struct Paint {
    pub r: u8,
    pub g: u8,
    pub b: u8,
    pub a: u8,
}

/// A stroke: its paint and its thickness.
#[derive(Clone, Copy, Debug, PartialEq, Eq, Structural)]
pub struct Stroke {
    pub paint: Paint,
    pub thickness: i64,
}

/// The geometry of a shape, relative to the shape's position.
#[derive(Clone, Copy, Debug, PartialEq, Eq, Structural)]
pub enum Geometry {
    /// A line to a point.
    Line(Point),
    /// A rectangle with its top-left corner at the origin.
    Rect(Size),
    /// An ellipse inscribed in a rectangle with its top-left corner at the
    /// origin.
    Ellipse(Size),
}

/// A geometric shape with optional fill and stroke.
#[derive(Clone, Copy, Debug, PartialEq, Eq, Structural)]
pub struct Shape {
    pub geometry: Geometry,
    pub fill: Option<Paint>,
    pub stroke: Option<Stroke>,
}

/// An image asset: an identity and its native dimensions.
#[derive(Clone, Copy, Debug, PartialEq, Eq, Structural)]
pub struct Image {
    pub id: u64,
    pub width: u64,
    pub height: u64,
}

/// A run of already shaped text.
#[derive(Debug)]
pub struct TextItem {
    pub text: String,
    pub font: u64,
    pub size: i64,
    pub fill: Paint,
}

/// The target of a link.
#[derive(Debug)]
pub enum Destination {
    /// An external URL.
    Url(String),
    /// A position on a page of this document; pages count from one.
    Position { page: u64, point: Point },
}

/// A non-visual annotation attached to a box of a given size.
#[derive(Debug)]
pub enum Meta {
    /// A link to a destination.
    Link(Destination),
    /// Hides the content it is attached to.
    Hide,
    /// The numbering style of the page.
    PageNumbering(String),
    /// A label for the page.
    PageLabel(String),
    /// An opaque element of the layout engine.
    Elem(u64),
}

/// A nested frame with its own transform.
#[derive(Debug)]
pub struct GroupItem {
    pub frame: Frame,
    pub transform: Transform,
}

/// One item of a frame.
#[derive(Debug)]
pub enum FrameItem {
    Group(GroupItem),
    Text(TextItem),
    Shape(Shape),
    Image(Image, Size),
    Meta(Meta, Size),
}

/// An item at a position relative to its frame's origin.
#[derive(Debug)]
pub struct Placed {
    pub pos: Point,
    pub item: FrameItem,
}

/// An ordered sequence of positioned items: a page or a group's content.
#[derive(Debug)]
pub struct Frame {
    pub items: Vec<Placed>,
}

/// A laid-out document: its pages and its metadata.
#[derive(Debug)]
pub struct Document {
    pub pages: Vec<Frame>,
    pub title: Option<String>,
    pub author: Vec<String>,
    pub keywords: Vec<String>,
    pub date: Option<Datetime>,
}

} // verus!
