use typst_blog::doc::{
    Destination, Document, Frame, FrameItem, Geometry, GroupItem, Image, Meta, Paint, Placed,
    Shape, TextItem,
};
use typst_blog::export::blog;
use typst_blog::geom::{Point, Size, Transform};
use typst_blog::output::{Diagnostic, OutItem, Target};
use typst_blog::walk::{write_frame, PageContext};
use typst_blog::reference::Ref;

fn pt(x: i64, y: i64) -> Point {
    Point { x, y }
}

fn black() -> Paint {
    Paint { r: 0, g: 0, b: 0, a: 255 }
}

fn text(s: &str, x: i64, y: i64) -> Placed {
    Placed {
        pos: pt(x, y),
        item: FrameItem::Text(TextItem { text: s.to_string(), font: 1, size: 12, fill: black() }),
    }
}

fn group(items: Vec<Placed>, transform: Transform, x: i64, y: i64) -> Placed {
    Placed { pos: pt(x, y), item: FrameItem::Group(GroupItem { frame: Frame { items }, transform }) }
}

fn image(id: u64, x: i64, y: i64) -> Placed {
    Placed {
        pos: pt(x, y),
        item: FrameItem::Image(Image { id, width: 100, height: 50 }, Size { width: 10, height: 5 }),
    }
}

fn link(dest: Destination, x: i64, y: i64) -> Placed {
    Placed { pos: pt(x, y), item: FrameItem::Meta(Meta::Link(dest), Size { width: 4, height: 2 }) }
}

fn doc(pages: Vec<Vec<Placed>>) -> Document {
    Document {
        pages: pages.into_iter().map(|items| Frame { items }).collect(),
        title: Some("Title".to_string()),
        author: vec!["Ann".to_string(), "Bo".to_string()],
        keywords: vec!["k".to_string()],
        date: None,
    }
}

fn text_at(item: &OutItem) -> (String, Point) {
    match item {
        OutItem::Text { at, text, .. } => (text.clone(), *at),
        other => panic!("not a text item: {:?}", other),
    }
}

#[test]
fn bump_counts_up_from_seed() {
    let mut r = Ref::new(3);
    let a = r.bump();
    let b = r.bump();
    let c = r.bump();
    assert_eq!((a.get(), b.get(), c.get()), (3, 4, 5));
    assert_eq!(r.get(), 6);
    assert_ne!(a, b);
}

#[test]
fn ref_new_get_next() {
    assert_eq!(Ref::new(5).get(), 5);
    assert_eq!(Ref::new(5).next().get(), 6);
    assert!(Ref::try_new(0).is_none());
    assert!(Ref::try_new(-1).is_none());
    assert_eq!(Ref::try_new(7).map(|r| r.get()), Some(7));
}

#[test]
fn two_pages_with_nested_group() {
    let d = doc(vec![
        vec![text("Hello", 0, 0), group(vec![text("Nested", 0, 0)], Transform::translate(10, 10), 5, 5)],
        vec![],
    ]);
    let out = blog(&d, None, None);
    assert_eq!(out.pages.len(), 2);
    assert_eq!(out.pages[0].page_ref.get(), 1);
    assert_eq!(out.pages[1].page_ref.get(), 2);
    assert_eq!(out.pages[0].items.len(), 2);
    assert_eq!(text_at(&out.pages[0].items[0]), ("Hello".to_string(), pt(0, 0)));
    assert_eq!(text_at(&out.pages[0].items[1]), ("Nested".to_string(), pt(15, 15)));
    assert!(out.pages[1].items.is_empty());
    assert_eq!(out.title, Some("Title".to_string()));
    assert_eq!(out.author.0, vec!["Ann".to_string(), "Bo".to_string()]);
    assert_eq!(out.keywords.0, vec!["k".to_string()]);
}

#[test]
fn order_is_kept_across_kinds() {
    let shape = Placed {
        pos: pt(1, 1),
        item: FrameItem::Shape(Shape {
            geometry: Geometry::Rect(Size { width: 3, height: 3 }),
            fill: Some(black()),
            stroke: None,
        }),
    };
    let d = doc(vec![vec![text("A", 0, 0), shape, image(9, 2, 2)]]);
    let out = blog(&d, None, None);
    let items = &out.pages[0].items;
    assert_eq!(items.len(), 3);
    assert!(matches!(items[0], OutItem::Text { .. }));
    assert!(matches!(items[1], OutItem::Shape { at: Point { x: 1, y: 1 }, .. }));
    assert!(matches!(items[2], OutItem::Image { at: Point { x: 2, y: 2 }, asset: 9, .. }));
}

#[test]
fn transform_does_not_leak_past_group() {
    let scale = Transform { sx: 2, ky: 0, kx: 0, sy: 2, tx: 0, ty: 0 };
    let d = doc(vec![vec![group(vec![text("In", 1, 1)], scale, 10, 0), text("After", 3, 4)]]);
    let out = blog(&d, None, None);
    assert_eq!(text_at(&out.pages[0].items[0]), ("In".to_string(), pt(12, 2)));
    assert_eq!(text_at(&out.pages[0].items[1]), ("After".to_string(), pt(3, 4)));
}

#[test]
fn nested_groups_compose() {
    let inner = group(vec![text("Deep", 1, 0)], Transform { sx: 3, ky: 0, kx: 0, sy: 3, tx: 0, ty: 0 }, 0, 0);
    let d = doc(vec![vec![group(vec![inner], Transform::translate(100, 200), 1, 2)]]);
    let out = blog(&d, None, None);
    assert_eq!(text_at(&out.pages[0].items[0]), ("Deep".to_string(), pt(104, 202)));
}

#[test]
fn image_asset_stored_once() {
    let d = doc(vec![vec![image(7, 0, 0), image(8, 1, 0)], vec![image(7, 5, 5)]]);
    let out = blog(&d, None, None);
    assert_eq!(out.assets.len(), 2);
    assert_eq!(out.assets[0].id, 7);
    assert_eq!(out.assets[1].id, 8);
    assert!(matches!(out.pages[0].items[0], OutItem::Image { asset: 7, .. }));
    assert!(matches!(out.pages[1].items[0], OutItem::Image { asset: 7, at: Point { x: 5, y: 5 }, .. }));
}

#[test]
fn link_to_later_page_resolves() {
    let to_third = Destination::Position { page: 3, point: pt(7, 8) };
    let d = doc(vec![vec![link(to_third, 1, 1)], vec![], vec![]]);
    let out = blog(&d, None, None);
    let l = &out.pages[0].links[0];
    assert_eq!(l.at, pt(1, 1));
    assert_eq!(l.size, Size { width: 4, height: 2 });
    match &l.target {
        Target::Internal { page, point } => {
            assert_eq!(page.get(), 3);
            assert_eq!(*point, pt(7, 8));
        }
        other => panic!("unexpected target {:?}", other),
    }
}

#[test]
fn link_to_missing_page_is_broken_and_url_kept() {
    let d = doc(vec![vec![
        link(Destination::Position { page: 4, point: pt(0, 0) }, 0, 0),
        link(Destination::Position { page: 0, point: pt(0, 0) }, 0, 0),
        link(Destination::Url("https://example.org".to_string()), 2, 3),
    ]]);
    let out = blog(&d, None, None);
    let links = &out.pages[0].links;
    assert_eq!(links.len(), 3);
    assert!(matches!(links[0].target, Target::Broken));
    assert!(matches!(links[1].target, Target::Broken));
    match &links[2].target {
        Target::Url(u) => assert_eq!(u, "https://example.org"),
        other => panic!("unexpected target {:?}", other),
    }
}

#[test]
fn other_meta_items_are_skipped() {
    let size = Size { width: 1, height: 1 };
    let d = doc(vec![vec![
        Placed { pos: pt(0, 0), item: FrameItem::Meta(Meta::Hide, size) },
        Placed { pos: pt(0, 0), item: FrameItem::Meta(Meta::PageNumbering("1".to_string()), size) },
        Placed { pos: pt(0, 0), item: FrameItem::Meta(Meta::PageLabel("i".to_string()), size) },
        Placed { pos: pt(0, 0), item: FrameItem::Meta(Meta::Elem(3), size) },
        text("Kept", 0, 0),
    ]]);
    let out = blog(&d, None, None);
    assert_eq!(out.pages[0].items.len(), 1);
    assert!(out.pages[0].links.is_empty());
    assert!(out.pages[0].diagnostics.is_empty());
}

#[test]
fn overflowing_position_is_skipped_with_diagnostic() {
    let d = doc(vec![vec![
        group(vec![text("Far", i64::MAX, 0)], Transform::translate(1, 0), 0, 0),
        group(vec![text("Big", 0, 0)], Transform { sx: i64::MAX, ky: 0, kx: 0, sy: 1, tx: 0, ty: 0 }, 0, 0),
        group(vec![text("Huge", 0, 0)], Transform { sx: i64::MAX, ky: 0, kx: 0, sy: 1, tx: 0, ty: 0 }, 0, 0),
        text("Next", 1, 1),
    ]]);
    let d2 = Document { pages: vec![Frame { items: vec![group(d.pages.into_iter().next().unwrap().items, Transform { sx: 2, ky: 0, kx: 0, sy: 1, tx: 0, ty: 0 }, 0, 0)] }], ..doc(vec![]) };
    let out = blog(&d2, None, None);
    let page = &out.pages[0];
    assert_eq!(page.items.len(), 1);
    assert_eq!(text_at(&page.items[0]), ("Next".to_string(), pt(2, 1)));
    assert_eq!(
        page.diagnostics,
        vec![Diagnostic::PositionOverflow, Diagnostic::TransformOverflow, Diagnostic::TransformOverflow]
    );
}

#[test]
fn transform_apply_and_compose() {
    let t = Transform { sx: 2, ky: 1, kx: 3, sy: 4, tx: 5, ty: 6 };
    assert_eq!(t.apply(pt(1, 1)), Some(pt(10, 11)));
    let u = Transform::translate(1, 2);
    assert_eq!(t.pre_concat(&u), Some(Transform { sx: 2, ky: 1, kx: 3, sy: 4, tx: 13, ty: 15 }));
    assert_eq!(Transform::identity().apply(pt(-4, 9)), Some(pt(-4, 9)));
    assert_eq!(Transform::translate(i64::MAX, 0).apply(pt(1, 0)), None);
}

#[test]
fn empty_document_exports_nothing() {
    let out = blog(&doc(vec![]), Some("id"), None);
    assert!(out.pages.is_empty());
    assert!(out.assets.is_empty());
}

#[test]
fn index_page_lists_text_runs() {
    let d = doc(vec![
        vec![text("Hello", 0, 0), image(1, 0, 0), group(vec![text("Nested", 0, 0)], Transform::translate(10, 10), 5, 5)],
        vec![text("Two", 0, 0)],
    ]);
    let out = blog(&d, None, None);
    assert_eq!(
        out.index_html(),
        "<!DOCTYPE html><html><head><title>Title</title></head><body><p>Hello</p><p>Nested</p><p>Two</p></body></html>"
    );
}

#[test]
fn index_page_without_title() {
    let d = Document { title: None, ..doc(vec![vec![]]) };
    let out = blog(&d, None, None);
    assert_eq!(out.index_html(), "<!DOCTYPE html><html><head></head><body></body></html>");
}

#[test]
fn write_frame_restores_ambient_transform() {
    let t = Transform::translate(1, 1);
    let mut ctx = PageContext { transform: t, items: vec![], links: vec![], diagnostics: vec![], assets: vec![] };
    let frame = Frame {
        items: vec![group(vec![image(4, 0, 0), image(4, 1, 1)], Transform::translate(2, 2), 0, 0), text("T", 0, 0)],
    };
    write_frame(&mut ctx, &frame);
    assert_eq!(ctx.transform, t);
    assert_eq!(ctx.items.len(), 3);
    assert!(matches!(ctx.items[0], OutItem::Image { at: Point { x: 3, y: 3 }, asset: 4, .. }));
    assert!(matches!(ctx.items[1], OutItem::Image { at: Point { x: 4, y: 4 }, asset: 4, .. }));
    assert_eq!(text_at(&ctx.items[2]), ("T".to_string(), pt(1, 1)));
    assert_eq!(ctx.assets, vec![Image { id: 4, width: 100, height: 50 }]);
}
