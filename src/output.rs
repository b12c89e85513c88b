use vstd::prelude::*;
use build_html::HtmlPage;
use crate::html::{html_body, html_head, html_open, html_string};
use crate::doc::{Author, Datetime, Destination, Image, Keywords, Paint, Shape};
use crate::geom::{Point, Size};
use crate::reference::Ref;

verus! {

/// A visible item of an output page, at its absolute position.
#[derive(Debug)]
pub enum OutItem {
    /// A text run: its content, font, size and fill.
    Text { at: Point, text: String, font: u64, font_size: i64, fill: Paint },
    /// A shape with its paint.
    Shape { at: Point, shape: Shape },
    /// An image, by the identity of its asset in the asset table, drawn at
    /// the given size.
    Image { at: Point, asset: u64, size: Size },
}

/// A link found while walking a page, before its destination is resolved.
#[derive(Debug)]
pub struct PendingLink {
    pub at: Point,
    pub size: Size,
    pub dest: Destination,
}

/// A resolved link target.
#[derive(Debug)]
pub enum Target {
    /// An external URL, kept verbatim.
    Url(String),
    /// A position on a page of this export, by the page's reference.
    Internal { page: Ref, point: Point },
    /// A position on a page that does not exist.
    Broken,
}

/// A link annotation of an output page.
#[derive(Debug)]
pub struct Link {
    pub at: Point,
    pub size: Size,
    pub target: Target,
}

/// Why an item was left out of the output.
#[derive(Clone, Copy, Debug, PartialEq, Eq, Structural)]
pub enum Diagnostic {
    /// The item's absolute position is not representable.
    PositionOverflow,
    /// A group's accumulated transform is not representable.
    TransformOverflow,
}

/// One exported page.
#[derive(Debug)]
pub struct OutPage {
    pub page_ref: Ref,
    pub items: Vec<OutItem>,
    pub links: Vec<Link>,
    pub diagnostics: Vec<Diagnostic>,
}

/// The exported document: metadata, pages and the deduplicated assets.
#[derive(Debug)]
pub struct Blog {
    pub title: Option<String>,
    pub author: Author,
    pub keywords: Keywords,
    pub date: Option<Datetime>,
    pub pages: Vec<OutPage>,
    pub assets: Vec<Image>,
    /// The main page of the exported site.
    pub index_page: HtmlPage,
}

impl Blog {
    /// The markup of the main page.
    pub fn index_html(&self) -> (r: String)
        ensures
            r@ == html_open(self.index_page) + "<head>"@ + html_head(self.index_page)
                + "</head><body>"@ + html_body(self.index_page) + "</body></html>"@,
    {
        html_string(&self.index_page)
    }
}

} // verus!
