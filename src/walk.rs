use vstd::prelude::*;
use crate::doc::{Destination, FrameItem, Frame, GroupItem, Image, Meta, Placed, Shape, TextItem};
use crate::geom::{apply_spec, compose_spec, translate_spec, Point, Size, Transform};
use crate::output::{Diagnostic, OutItem, PendingLink};

verus! {

/// What walking a sequence of items contributes to a page: visible items,
/// links awaiting resolution, diagnostics of skipped items, and the images
/// met, in order.
pub struct Walked {
    pub items: Seq<OutItem>,
    pub links: Seq<PendingLink>,
    pub diagnostics: Seq<Diagnostic>,
    pub images: Seq<Image>,
}

impl Walked {
    pub open spec fn empty() -> Walked {
        Walked { items: seq![], links: seq![], diagnostics: seq![], images: seq![] }
    }

    pub open spec fn skip(d: Diagnostic) -> Walked {
        Walked { items: seq![], links: seq![], diagnostics: seq![d], images: seq![] }
    }

    pub open spec fn item(o: OutItem) -> Walked {
        Walked { items: seq![o], links: seq![], diagnostics: seq![], images: seq![] }
    }

    pub open spec fn concat(self, o: Walked) -> Walked {
        Walked {
            items: self.items + o.items,
            links: self.links + o.links,
            diagnostics: self.diagnostics + o.diagnostics,
            images: self.images + o.images,
        }
    }
}

/// The transform under which a group placed at `pos` inside ambient `t`
/// lays out its frame: `t`, then the offset, then the group's own transform.
pub open spec fn group_transform(t: Transform, pos: Point, g: Transform) -> Option<Transform> {
    match compose_spec(t, translate_spec(pos)) {
        Some(u) => compose_spec(u, g),
        None => None,
    }
}

pub open spec fn text_out(t: Transform, pos: Point, x: TextItem) -> Walked {
    match apply_spec(t, pos) {
        Some(at) => Walked::item(
            OutItem::Text { at, text: x.text, font: x.font, font_size: x.size, fill: x.fill },
        ),
        None => Walked::skip(Diagnostic::PositionOverflow),
    }
}

pub open spec fn shape_out(t: Transform, pos: Point, s: Shape) -> Walked {
    match apply_spec(t, pos) {
        Some(at) => Walked::item(OutItem::Shape { at, shape: s }),
        None => Walked::skip(Diagnostic::PositionOverflow),
    }
}

pub open spec fn image_out(t: Transform, pos: Point, img: Image, size: Size) -> Walked {
    match apply_spec(t, pos) {
        Some(at) => Walked {
            items: seq![OutItem::Image { at, asset: img.id, size }],
            links: seq![],
            diagnostics: seq![],
            images: seq![img],
        },
        None => Walked::skip(Diagnostic::PositionOverflow),
    }
}

pub open spec fn link_out(t: Transform, pos: Point, dest: Destination, size: Size) -> Walked {
    match apply_spec(t, pos) {
        Some(at) => Walked {
            items: seq![],
            links: seq![PendingLink { at, size, dest }],
            diagnostics: seq![],
            images: seq![],
        },
        None => Walked::skip(Diagnostic::PositionOverflow),
    }
}

/// What the items `s` of a frame contribute under the ambient transform `t`,
/// in their order.
pub open spec fn walk(s: Seq<Placed>, t: Transform) -> Walked
    decreases s,
{
    if s.len() == 0 {
        Walked::empty()
    } else {
        walk_placed(s[0], t).concat(walk(s.drop_first(), t))
    }
}

/// What one positioned item contributes under the ambient transform `t`.
pub open spec fn walk_placed(p: Placed, t: Transform) -> Walked
    decreases p,
{
    match p.item {
        FrameItem::Group(g) => match group_transform(t, p.pos, g.transform) {
            Some(n) => walk(g.frame.items@, n),
            None => Walked::skip(Diagnostic::TransformOverflow),
        },
        FrameItem::Text(x) => text_out(t, p.pos, x),
        FrameItem::Shape(s) => shape_out(t, p.pos, s),
        FrameItem::Image(img, size) => image_out(t, p.pos, img, size),
        FrameItem::Meta(Meta::Link(d), size) => link_out(t, p.pos, d, size),
        FrameItem::Meta(_, _) => Walked::empty(),
    }
}

/// Whether an image with identity `id` is in the table.
pub open spec fn has_asset(table: Seq<Image>, id: u64) -> bool {
    exists|k: int| 0 <= k < table.len() && table[k].id == id
}

/// The table after meeting `img`: unchanged where an image of the same
/// identity is already stored, else with `img` appended.
pub open spec fn absorb_one(table: Seq<Image>, img: Image) -> Seq<Image> {
    if has_asset(table, img.id) {
        table
    } else {
        table.push(img)
    }
}

/// The table after meeting each of `imgs` in order.
pub open spec fn absorb(table: Seq<Image>, imgs: Seq<Image>) -> Seq<Image>
    decreases imgs.len(),
{
    if imgs.len() == 0 {
        table
    } else {
        absorb(absorb_one(table, imgs[0]), imgs.drop_first())
    }
}

/// No two entries of the table share an identity.
pub open spec fn distinct_assets(table: Seq<Image>) -> bool {
    forall|i: int, j: int|
        0 <= i < table.len() && 0 <= j < table.len() && i != j ==> table[i].id != table[j].id
}

pub proof fn lemma_concat_empty(w: Walked)
    ensures
        w.concat(Walked::empty()) == w,
        Walked::empty().concat(w) == w,
{
    assert(w.items + seq![] =~= w.items);
    assert(w.links + seq![] =~= w.links);
    assert(w.diagnostics + seq![] =~= w.diagnostics);
    assert(w.images + seq![] =~= w.images);
    assert(seq![] + w.items =~= w.items);
    assert(seq![] + w.links =~= w.links);
    assert(seq![] + w.diagnostics =~= w.diagnostics);
    assert(seq![] + w.images =~= w.images);
}

pub proof fn lemma_concat_assoc(a: Walked, b: Walked, c: Walked)
    ensures
        a.concat(b).concat(c) == a.concat(b.concat(c)),
{
    assert(a.items + b.items + c.items =~= a.items + (b.items + c.items));
    assert(a.links + b.links + c.links =~= a.links + (b.links + c.links));
    assert(a.diagnostics + b.diagnostics + c.diagnostics =~= a.diagnostics + (b.diagnostics
        + c.diagnostics));
    assert(a.images + b.images + c.images =~= a.images + (b.images + c.images));
}

pub proof fn lemma_walk_single(p: Placed, t: Transform)
    ensures
        walk(seq![p], t) == walk_placed(p, t),
{
    assert(seq![p].drop_first() =~= Seq::<Placed>::empty());
    assert(seq![p][0] == p);
    assert(walk(Seq::<Placed>::empty(), t) == Walked::empty());
    lemma_concat_empty(walk_placed(p, t));
}

/// Walking two sequences of items one after the other contributes what
/// walking each contributes, in that order: the walk keeps the order of the
/// items, and what a group does stays inside the group.
pub proof fn lemma_walk_concat(a: Seq<Placed>, b: Seq<Placed>, t: Transform)
    ensures
        walk(a + b, t) == walk(a, t).concat(walk(b, t)),
    decreases a.len(),
{
    if a.len() == 0 {
        assert(a + b =~= b);
        lemma_concat_empty(walk(b, t));
    } else {
        assert((a + b).drop_first() =~= a.drop_first() + b);
        assert((a + b)[0] == a[0]);
        lemma_walk_concat(a.drop_first(), b, t);
        lemma_concat_assoc(walk_placed(a[0], t), walk(a.drop_first(), t), walk(b, t));
    }
}

pub proof fn lemma_absorb_concat(table: Seq<Image>, a: Seq<Image>, b: Seq<Image>)
    ensures
        absorb(table, a + b) == absorb(absorb(table, a), b),
    decreases a.len(),
{
    if a.len() == 0 {
        assert(a + b =~= b);
    } else {
        assert((a + b).drop_first() =~= a.drop_first() + b);
        assert((a + b)[0] == a[0]);
        lemma_absorb_concat(absorb_one(table, a[0]), a.drop_first(), b);
    }
}

pub proof fn lemma_absorb_distinct(table: Seq<Image>, imgs: Seq<Image>)
    requires
        distinct_assets(table),
    ensures
        distinct_assets(absorb(table, imgs)),
        forall|k: int| 0 <= k < table.len() ==> #[trigger] absorb(table, imgs)[k] == table[k],
        table.len() <= absorb(table, imgs).len(),
        forall|id: u64| #[trigger]
            has_asset(absorb(table, imgs), id) <==> (has_asset(table, id) || exists|k: int|
                0 <= k < imgs.len() && imgs[k].id == id),
    decreases imgs.len(),
{
    if imgs.len() > 0 {
        let t1 = absorb_one(table, imgs[0]);
        assert(distinct_assets(t1));
        assert forall|id: u64| has_asset(t1, id) <==> (has_asset(table, id) || imgs[0].id == id) by {
            if !has_asset(table, imgs[0].id) && has_asset(t1, id) && !has_asset(table, id) {
                let k = choose|k: int| 0 <= k < t1.len() && t1[k].id == id;
                assert(k == table.len());
            }
            if has_asset(table, id) {
                let k = choose|k: int| 0 <= k < table.len() && table[k].id == id;
                assert(t1[k] == table[k]);
            }
            if imgs[0].id == id && !has_asset(table, id) {
                assert(t1[table.len() as int].id == id);
            }
        }
        lemma_absorb_distinct(t1, imgs.drop_first());
        let r = absorb(table, imgs);
        assert forall|id: u64|
            has_asset(r, id) <==> (has_asset(table, id) || exists|k: int|
                0 <= k < imgs.len() && imgs[k].id == id) by {
            if exists|k: int| 0 <= k < imgs.len() && imgs[k].id == id {
                let k = choose|k: int| 0 <= k < imgs.len() && imgs[k].id == id;
                if k > 0 {
                    assert(imgs.drop_first()[k - 1].id == id);
                }
            }
            if exists|k: int| 0 <= k < imgs.drop_first().len() && imgs.drop_first()[k].id == id {
                let k = choose|k: int| 0 <= k < imgs.drop_first().len() && imgs.drop_first()[k].id == id;
                assert(imgs[k + 1].id == id);
            }
        }
    }
}

/// The exported items of a frame `[a, b, c]` are those of `a`, then those of
/// `b`, then those of `c`, whatever their kinds.
pub proof fn lemma_order_preserved(a: Placed, b: Placed, c: Placed, t: Transform)
    ensures
        walk(seq![a, b, c], t) == walk_placed(a, t).concat(walk_placed(b, t)).concat(
            walk_placed(c, t),
        ),
{
    assert(seq![a, b, c] =~= seq![a] + seq![b] + seq![c]);
    lemma_walk_concat(seq![a] + seq![b], seq![c], t);
    lemma_walk_concat(seq![a], seq![b], t);
    lemma_walk_single(a, t);
    lemma_walk_single(b, t);
    lemma_walk_single(c, t);
}

/// An item placed after a group in the same frame is exported under the
/// ambient transform of the frame, as if the group had not been visited.
pub proof fn lemma_group_scoping(g: Placed, x: Placed, t: Transform)
    requires
        g.item is Group,
    ensures
        walk(seq![g, x], t) == walk_placed(g, t).concat(walk(seq![x], t)),
        walk(seq![x], t) == walk_placed(x, t),
{
    assert(seq![g, x] =~= seq![g] + seq![x]);
    lemma_walk_concat(seq![g], seq![x], t);
    lemma_walk_single(g, t);
    lemma_walk_single(x, t);
}

/// An exporter for the contents of a single page: the ambient transform and
/// what the page has collected so far. The asset table is shared by all
/// pages and handed from page to page.
pub struct PageContext {
    pub transform: Transform,
    pub items: Vec<OutItem>,
    pub links: Vec<PendingLink>,
    pub diagnostics: Vec<Diagnostic>,
    pub assets: Vec<Image>,
}

/// `new` is `old` with the contribution `w` appended, and the same ambient
/// transform.
pub open spec fn extended(old: PageContext, new: PageContext, w: Walked) -> bool {
    &&& new.transform == old.transform
    &&& new.items@ == old.items@ + w.items
    &&& new.links@ == old.links@ + w.links
    &&& new.diagnostics@ == old.diagnostics@ + w.diagnostics
    &&& new.assets@ == absorb(old.assets@, w.images)
}

pub proof fn lemma_extended_trans(a: PageContext, b: PageContext, c: PageContext, w1: Walked, w2: Walked)
    requires
        extended(a, b, w1),
        extended(b, c, w2),
    ensures
        extended(a, c, w1.concat(w2)),
{
    assert(c.items@ =~= a.items@ + (w1.items + w2.items));
    assert(c.links@ =~= a.links@ + (w1.links + w2.links));
    assert(c.diagnostics@ =~= a.diagnostics@ + (w1.diagnostics + w2.diagnostics));
    lemma_absorb_concat(a.assets@, w1.images, w2.images);
}

proof fn lemma_extended_refl(a: PageContext)
    ensures
        extended(a, a, Walked::empty()),
{
    assert(a.items@ + seq![] =~= a.items@);
    assert(a.links@ + seq![] =~= a.links@);
    assert(a.diagnostics@ + seq![] =~= a.diagnostics@);
}

/// Store `img` in the asset table unless an image of the same identity is
/// already there.
fn add_asset(assets: &mut Vec<Image>, img: Image)
    ensures
        final(assets)@ == absorb_one(old(assets)@, img),
{
    let n = assets.len();
    let mut k: usize = 0;
    while k < n
        invariant
            n == assets.len(),
            0 <= k <= n,
            forall|j: int| 0 <= j < k ==> assets@[j].id != img.id,
        decreases n - k,
    {
        if assets[k].id == img.id {
            return;
        }
        k += 1;
    }
    assets.push(img);
}

fn emit(ctx: &mut PageContext, o: OutItem)
    ensures
        extended(*old(ctx), *final(ctx), Walked::item(o)),
{
    proof {
        lemma_extended_refl(*ctx);
    }
    ctx.items.push(o);
}

fn skip(ctx: &mut PageContext, d: Diagnostic)
    ensures
        extended(*old(ctx), *final(ctx), Walked::skip(d)),
{
    proof {
        lemma_extended_refl(*ctx);
    }
    ctx.diagnostics.push(d);
}

/// Encode a text run at `pos`.
fn write_text(ctx: &mut PageContext, pos: Point, text: &TextItem)
    ensures
        extended(*old(ctx), *final(ctx), text_out(old(ctx).transform, pos, *text)),
{
    match ctx.transform.apply(pos) {
        Some(at) => emit(
            ctx,
            OutItem::Text {
                at,
                text: text.text.clone(),
                font: text.font,
                font_size: text.size,
                fill: text.fill,
            },
        ),
        None => skip(ctx, Diagnostic::PositionOverflow),
    }
}

/// Encode a geometric shape at `pos`.
fn write_shape(ctx: &mut PageContext, pos: Point, shape: &Shape)
    ensures
        extended(*old(ctx), *final(ctx), shape_out(old(ctx).transform, pos, *shape)),
{
    match ctx.transform.apply(pos) {
        Some(at) => emit(ctx, OutItem::Shape { at, shape: *shape }),
        None => skip(ctx, Diagnostic::PositionOverflow),
    }
}

/// Encode an image at `pos`, drawn at `size`; its asset is stored once.
fn write_image(ctx: &mut PageContext, pos: Point, image: &Image, size: Size)
    ensures
        extended(*old(ctx), *final(ctx), image_out(old(ctx).transform, pos, *image, size)),
{
    match ctx.transform.apply(pos) {
        Some(at) => {
            proof {
                lemma_extended_refl(*ctx);
                assert(seq![*image].drop_first() =~= Seq::<Image>::empty());
                assert(absorb(absorb_one(ctx.assets@, *image), seq![]) == absorb_one(ctx.assets@, *image));
            }
            ctx.items.push(OutItem::Image { at, asset: image.id, size });
            add_asset(&mut ctx.assets, *image);
        },
        None => skip(ctx, Diagnostic::PositionOverflow),
    }
}

fn copy_destination(d: &Destination) -> (r: Destination)
    ensures
        r == *d,
{
    match d {
        Destination::Url(u) => Destination::Url(u.clone()),
        Destination::Position { page, point } => Destination::Position { page: *page, point: *point },
    }
}

/// Save a link at `pos` for resolution once every page has its reference.
fn write_link(ctx: &mut PageContext, pos: Point, dest: &Destination, size: Size)
    ensures
        extended(*old(ctx), *final(ctx), link_out(old(ctx).transform, pos, *dest, size)),
{
    match ctx.transform.apply(pos) {
        Some(at) => {
            proof {
                lemma_extended_refl(*ctx);
            }
            ctx.links.push(PendingLink { at, size, dest: copy_destination(dest) });
        },
        None => skip(ctx, Diagnostic::PositionOverflow),
    }
}

/// Encode a group at `pos`: its frame is walked under the composed
/// transform, which is restored afterwards.
fn write_group(ctx: &mut PageContext, pos: Point, group: &GroupItem)
    ensures
        extended(
            *old(ctx),
            *final(ctx),
            match group_transform(old(ctx).transform, pos, group.transform) {
                Some(n) => walk(group.frame.items@, n),
                None => Walked::skip(Diagnostic::TransformOverflow),
            },
        ),
    decreases group,
{
    let saved = ctx.transform;
    let offset = Transform::translate(pos.x, pos.y);
    match saved.pre_concat(&offset) {
        Some(u) => match u.pre_concat(&group.transform) {
            Some(n) => {
                ctx.transform = n;
                write_frame(ctx, &group.frame);
                ctx.transform = saved;
            },
            None => skip(ctx, Diagnostic::TransformOverflow),
        },
        None => skip(ctx, Diagnostic::TransformOverflow),
    }
}

/// Encode a frame: each item in the frame's order, under the context's
/// ambient transform, which is the same afterwards.
pub fn write_frame(ctx: &mut PageContext, frame: &Frame)
    ensures
        extended(*old(ctx), *final(ctx), walk(frame.items@, old(ctx).transform)),
    decreases frame,
{
    let ghost start = *ctx;
    let ghost t = ctx.transform;
    proof {
        lemma_extended_refl(start);
        assert(frame.items@.take(0) =~= Seq::<Placed>::empty());
    }
    let n = frame.items.len();
    let mut i: usize = 0;
    while i < n
        invariant
            n == frame.items.len(),
            0 <= i <= n,
            t == start.transform,
            extended(start, *ctx, walk(frame.items@.take(i as int), t)),
        decreases n - i,
    {
        let placed = &frame.items[i];
        let ghost before = *ctx;
        let pos = placed.pos;
        match &placed.item {
            FrameItem::Group(group) => write_group(ctx, pos, group),
            FrameItem::Text(text) => write_text(ctx, pos, text),
            FrameItem::Shape(shape) => write_shape(ctx, pos, shape),
            FrameItem::Image(image, size) => write_image(ctx, pos, image, *size),
            FrameItem::Meta(meta, size) => match meta {
                Meta::Link(dest) => write_link(ctx, pos, dest, *size),
                Meta::Hide => {},
                Meta::PageNumbering(_) => {},
                Meta::PageLabel(_) => {},
                Meta::Elem(_) => {},
            },
        }
        proof {
            let s = frame.items@;
            if !(placed.item is Group || placed.item is Text || placed.item is Shape
                || placed.item is Image || placed.item matches FrameItem::Meta(Meta::Link(_), _)) {
                lemma_extended_refl(before);
            }
            assert(extended(before, *ctx, walk_placed(s[i as int], t)));
            lemma_extended_trans(start, before, *ctx, walk(s.take(i as int), t), walk_placed(s[i as int], t));
            assert(s.take(i + 1) =~= s.take(i as int) + seq![s[i as int]]);
            lemma_walk_concat(s.take(i as int), seq![s[i as int]], t);
            lemma_walk_single(s[i as int], t);
        }
        i += 1;
    }
    proof {
        assert(frame.items@.take(n as int) =~= frame.items@);
    }
}

} // verus!
