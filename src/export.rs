use vstd::prelude::*;
use crate::doc::{Author, Datetime, Destination, Document, Frame, Image, Keywords};
use crate::html::{html_body, html_head, html_open, index_page, pages_html, title_html};
use crate::geom::{identity_spec, Transform};
use crate::output::{Blog, Diagnostic, Link, OutItem, OutPage, PendingLink, Target};
use crate::reference::Ref;
use crate::walk::{
    absorb, distinct_assets, extended, has_asset, lemma_absorb_distinct, walk, write_frame,
    PageContext,
};

verus! {

/// What walking a page under the identity transform contributes.
pub open spec fn page_walk(frame: Frame) -> crate::walk::Walked {
    walk(frame.items@, identity_spec())
}

/// The asset table after walking `frames` in order, starting from `table`.
pub open spec fn absorb_pages(table: Seq<Image>, frames: Seq<Frame>) -> Seq<Image>
    decreases frames.len(),
{
    if frames.len() == 0 {
        table
    } else {
        absorb(absorb_pages(table, frames.drop_last()), page_walk(frames.last()).images)
    }
}

/// Whether some image of the pages `frames` has identity `id`.
pub open spec fn pages_use_asset(frames: Seq<Frame>, id: u64) -> bool {
    exists|i: int, k: int|
        0 <= i < frames.len() && 0 <= k < page_walk(frames[i]).images.len()
            && #[trigger] page_walk(frames[i]).images[k].id == id
}

/// The target of a link to `dest`, given the references of the pages in
/// page order.
pub open spec fn resolve_spec(dest: Destination, refs: Seq<Ref>) -> Target {
    match dest {
        Destination::Url(u) => Target::Url(u),
        Destination::Position { page, point } => if 1 <= page <= refs.len() {
            Target::Internal { page: refs[page - 1], point }
        } else {
            Target::Broken
        },
    }
}

/// A pending link with its destination resolved.
pub open spec fn resolve_link(l: PendingLink, refs: Seq<Ref>) -> Link {
    Link { at: l.at, size: l.size, target: resolve_spec(l.dest, refs) }
}

/// The references of the pages, in page order.
pub open spec fn page_refs(pages: Seq<OutPage>) -> Seq<Ref> {
    pages.map_values(|p: OutPage| p.page_ref)
}

/// A walked page whose links are not resolved yet.
pub struct PageParts {
    pub page_ref: Ref,
    pub items: Vec<OutItem>,
    pub links: Vec<PendingLink>,
    pub diagnostics: Vec<Diagnostic>,
}

/// Context for exporting a whole document.
pub struct BlogContext<'a> {
    /// The document being exported.
    pub document: &'a Document,
    /// Allocator for indirect reference identities.
    pub alloc: Ref,
    /// The references of the pages walked so far.
    pub page_refs: Vec<Ref>,
    /// The pages walked so far.
    pub pages: Vec<PageParts>,
    /// The deduplicated image assets met so far.
    pub assets: Vec<Image>,
}

impl<'a> BlogContext<'a> {
    /// A fresh context: references start at one, nothing is collected.
    pub fn new(document: &'a Document) -> (r: BlogContext<'a>)
        ensures
            r.document == document,
            r.alloc@ == 1,
            r.page_refs@.len() == 0,
            r.pages@.len() == 0,
            r.assets@.len() == 0,
    {
        BlogContext {
            document,
            alloc: Ref::new(1),
            page_refs: Vec::new(),
            pages: Vec::new(),
            assets: Vec::new(),
        }
    }
}

/// Allocate a reference for a page and walk its frame.
pub fn construct_page(ctx: &mut BlogContext, frame: &Frame)
    requires
        old(ctx).alloc@ < i32::MAX,
    ensures
        final(ctx).document == old(ctx).document,
        final(ctx).alloc@ == old(ctx).alloc@ + 1,
        final(ctx).page_refs@ == old(ctx).page_refs@.push(old(ctx).alloc),
        final(ctx).pages@.len() == old(ctx).pages@.len() + 1,
        forall|k: int| 0 <= k < old(ctx).pages@.len() ==> #[trigger] final(ctx).pages@[k] == old(ctx).pages@[k],
        final(ctx).pages@.last().page_ref == old(ctx).alloc,
        final(ctx).pages@.last().items@ == page_walk(*frame).items,
        final(ctx).pages@.last().links@ == page_walk(*frame).links,
        final(ctx).pages@.last().diagnostics@ == page_walk(*frame).diagnostics,
        final(ctx).assets@ == absorb(old(ctx).assets@, page_walk(*frame).images),
{
    let page_ref = ctx.alloc.bump();
    ctx.page_refs.push(page_ref);
    let mut assets: Vec<Image> = Vec::new();
    std::mem::swap(&mut assets, &mut ctx.assets);
    let mut page = PageContext {
        transform: Transform::identity(),
        items: Vec::new(),
        links: Vec::new(),
        diagnostics: Vec::new(),
        assets,
    };
    let ghost start = page;
    write_frame(&mut page, frame);
    proof {
        assert(extended(start, page, page_walk(*frame)));
        assert(page.items@ =~= page_walk(*frame).items);
        assert(page.links@ =~= page_walk(*frame).links);
        assert(page.diagnostics@ =~= page_walk(*frame).diagnostics);
    }
    let PageContext { transform: _, items, links, diagnostics, assets } = page;
    ctx.assets = assets;
    ctx.pages.push(PageParts { page_ref, items, links, diagnostics });
}

/// Resolve a link's destination against the references of all pages.
fn resolve(dest: &Destination, refs: &Vec<Ref>) -> (r: Target)
    ensures
        r == resolve_spec(*dest, refs@),
{
    match dest {
        Destination::Url(u) => Target::Url(u.clone()),
        Destination::Position { page, point } => {
            if 1 <= *page && *page <= refs.len() as u64 {
                Target::Internal { page: refs[(*page - 1) as usize], point: *point }
            } else {
                Target::Broken
            }
        },
    }
}

/// Resolve every link of a page against the references of all pages.
pub fn resolve_links(links: &Vec<PendingLink>, refs: &Vec<Ref>) -> (r: Vec<Link>)
    ensures
        r@.len() == links@.len(),
        forall|j: int| 0 <= j < links@.len() ==> #[trigger] r@[j] == resolve_link(links@[j], refs@),
{
    let mut out: Vec<Link> = Vec::new();
    let mut j: usize = 0;
    while j < links.len()
        invariant
            0 <= j <= links.len(),
            out@.len() == j,
            forall|k: int| 0 <= k < j ==> #[trigger] out@[k] == resolve_link(links@[k], refs@),
        decreases links.len() - j,
    {
        let l = &links[j];
        out.push(Link { at: l.at, size: l.size, target: resolve(&l.dest, refs) });
        j += 1;
    }
    out
}

fn copy_strings(v: &Vec<String>) -> (r: Vec<String>)
    ensures
        r@ == v@,
{
    let mut out: Vec<String> = Vec::new();
    let mut j: usize = 0;
    while j < v.len()
        invariant
            0 <= j <= v.len(),
            out@ == v@.take(j as int),
        decreases v.len() - j,
    {
        out.push(v[j].clone());
        j += 1;
        proof {
            assert(out@ =~= v@.take(j as int));
        }
    }
    proof {
        assert(v@.take(v.len() as int) =~= v@);
    }
    out
}

/// What an exported page holds: page `m` of `document`, with `refs` the
/// references of all pages.
pub open spec fn page_exported(p: OutPage, frame: Frame, m: int, refs: Seq<Ref>) -> bool {
    &&& p.page_ref@ == m + 1
    &&& p.items@ == page_walk(frame).items
    &&& p.diagnostics@ == page_walk(frame).diagnostics
    &&& p.links@.len() == page_walk(frame).links.len()
    &&& forall|j: int|
        0 <= j < p.links@.len() ==> #[trigger] p.links@[j] == resolve_link(page_walk(frame).links[j], refs)
}

/// The asset table of an export holds each image identity of the document
/// exactly once.
pub proof fn lemma_absorb_pages(frames: Seq<Frame>)
    ensures
        distinct_assets(absorb_pages(seq![], frames)),
        forall|id: u64| #[trigger]
            has_asset(absorb_pages(seq![], frames), id) <==> pages_use_asset(frames, id),
    decreases frames.len(),
{
    if frames.len() > 0 {
        let init = frames.drop_last();
        let imgs = page_walk(frames.last()).images;
        lemma_absorb_pages(init);
        lemma_absorb_distinct(absorb_pages(seq![], init), imgs);
        assert forall|id: u64|
            #[trigger] has_asset(absorb_pages(seq![], frames), id) <==> pages_use_asset(frames, id) by {
            if pages_use_asset(frames, id) {
                let (i, k) = choose|i: int, k: int|
                    0 <= i < frames.len() && 0 <= k < page_walk(frames[i]).images.len()
                        && #[trigger] page_walk(frames[i]).images[k].id == id;
                if i < init.len() {
                    assert(init[i] == frames[i]);
                    assert(pages_use_asset(init, id));
                } else {
                    assert(imgs[k].id == id);
                }
            }
            if pages_use_asset(init, id) {
                let (i, k) = choose|i: int, k: int|
                    0 <= i < init.len() && 0 <= k < page_walk(init[i]).images.len()
                        && #[trigger] page_walk(init[i]).images[k].id == id;
                assert(init[i] == frames[i]);
                assert(page_walk(frames[i]).images[k].id == id);
            }
            if exists|k: int| 0 <= k < imgs.len() && imgs[k].id == id {
                let k = choose|k: int| 0 <= k < imgs.len() && imgs[k].id == id;
                assert(page_walk(frames[frames.len() - 1]).images[k].id == id);
            }
        }
    }
}

fn copy_title(t: &Option<String>) -> (r: Option<String>)
    ensures
        r == *t,
{
    match t {
        Some(s) => Some(s.clone()),
        None => None,
    }
}

/// Export a document: each page gets a reference and is walked in document
/// order, then every link is resolved against the references of all pages,
/// so a link may point at a page that comes after it.
pub fn blog(document: &Document, ident: Option<&str>, timestamp: Option<Datetime>) -> (r: Blog)
    requires
        document.pages@.len() < i32::MAX,
    ensures
        r.pages@.len() == document.pages@.len(),
        forall|i: int|
            0 <= i < r.pages@.len() ==> page_exported(
                #[trigger] r.pages@[i],
                document.pages@[i],
                i,
                page_refs(r.pages@),
            ),
        forall|i: int, j: int|
            0 <= i < r.pages@.len() && 0 <= j < r.pages@[i].links@.len() ==> match (
            #[trigger] page_walk(document.pages@[i]).links[j]).dest {
                Destination::Position { page, point } => 1 <= page <= r.pages@.len()
                    ==> r.pages@[i].links@[j].target == (Target::Internal {
                    page: r.pages@[page - 1].page_ref,
                    point,
                }),
                Destination::Url(u) => r.pages@[i].links@[j].target == Target::Url(u),
            },
        r.assets@ == absorb_pages(seq![], document.pages@),
        distinct_assets(r.assets@),
        forall|id: u64| #[trigger] has_asset(r.assets@, id) <==> pages_use_asset(document.pages@, id),
        r.title == document.title,
        r.author.0@ == document.author@,
        r.keywords.0@ == document.keywords@,
        r.date == document.date,
        html_open(r.index_page) == "<!DOCTYPE html><html>"@,
        html_head(r.index_page) == title_html(document.title),
        html_body(r.index_page) == pages_html(r.pages@),
{
    let mut ctx = BlogContext::new(document);
    let n = document.pages.len();
    let mut i: usize = 0;
    while i < n
        invariant
            n == document.pages@.len(),
            n < i32::MAX,
            0 <= i <= n,
            ctx.alloc@ == i + 1,
            ctx.page_refs@.len() == i,
            ctx.pages@.len() == i,
            forall|k: int|
                0 <= k < i ==> #[trigger] ctx.pages@[k].page_ref == ctx.page_refs@[k]
                    && ctx.page_refs@[k]@ == k + 1
                    && ctx.pages@[k].items@ == page_walk(document.pages@[k]).items
                    && ctx.pages@[k].links@ == page_walk(document.pages@[k]).links
                    && ctx.pages@[k].diagnostics@ == page_walk(document.pages@[k]).diagnostics,
            ctx.assets@ == absorb_pages(seq![], document.pages@.take(i as int)),
        decreases n - i,
    {
        construct_page(&mut ctx, &document.pages[i]);
        proof {
            assert(document.pages@.take(i + 1).drop_last() =~= document.pages@.take(i as int));
            assert(document.pages@.take(i + 1).last() == document.pages@[i as int]);
        }
        i += 1;
    }
    proof {
        assert(document.pages@.take(n as int) =~= document.pages@);
        lemma_absorb_pages(document.pages@);
    }
    let ghost parts = ctx.pages@;
    let ghost refs = ctx.page_refs@;
    let mut rev: Vec<OutPage> = Vec::new();
    while ctx.pages.len() > 0
        invariant
            n == document.pages@.len(),
            parts.len() == n,
            refs == ctx.page_refs@,
            ctx.assets@ == absorb_pages(seq![], document.pages@),
            refs.len() == n,
            ctx.pages@.len() + rev@.len() == n,
            forall|k: int| 0 <= k < ctx.pages@.len() ==> #[trigger] ctx.pages@[k] == parts[k],
            forall|k: int|
                0 <= k < n ==> #[trigger] parts[k].page_ref == refs[k] && refs[k]@ == k + 1
                    && parts[k].items@ == page_walk(document.pages@[k]).items
                    && parts[k].links@ == page_walk(document.pages@[k]).links
                    && parts[k].diagnostics@ == page_walk(document.pages@[k]).diagnostics,
            forall|m: int|
                0 <= m < rev@.len() ==> page_exported(
                    #[trigger] rev@[m],
                    document.pages@[n - 1 - m],
                    n - 1 - m,
                    refs,
                ),
            forall|m: int| 0 <= m < rev@.len() ==> #[trigger] rev@[m].page_ref == refs[n - 1 - m],
        decreases ctx.pages@.len(),
    {
        let p = ctx.pages.pop().unwrap();
        let links = resolve_links(&p.links, &ctx.page_refs);
        let PageParts { page_ref, items, links: _, diagnostics } = p;
        rev.push(OutPage { page_ref, items, links, diagnostics });
    }
    let mut pages: Vec<OutPage> = Vec::new();
    while rev.len() > 0
        invariant
            n == document.pages@.len(),
            refs.len() == n,
            pages@.len() + rev@.len() == n,
            forall|m: int|
                0 <= m < rev@.len() ==> page_exported(
                    #[trigger] rev@[m],
                    document.pages@[n - 1 - m],
                    n - 1 - m,
                    refs,
                ),
            forall|m: int| 0 <= m < rev@.len() ==> #[trigger] rev@[m].page_ref == refs[n - 1 - m],
            forall|k: int|
                0 <= k < pages@.len() ==> page_exported(
                    #[trigger] pages@[k],
                    document.pages@[k],
                    k,
                    refs,
                ),
            forall|k: int| 0 <= k < pages@.len() ==> #[trigger] pages@[k].page_ref == refs[k],
        decreases rev@.len(),
    {
        let p = rev.pop().unwrap();
        pages.push(p);
    }
    proof {
        assert(page_refs(pages@) =~= refs);
    }
    let index_page = index_page(&document.title, &pages);
    Blog {
        title: copy_title(&document.title),
        author: Author(copy_strings(&document.author)),
        keywords: Keywords(copy_strings(&document.keywords)),
        date: document.date,
        pages,
        assets: ctx.assets,
        index_page,
    }
}

} // verus!
