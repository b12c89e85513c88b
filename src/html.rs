use vstd::prelude::*;
use build_html::{Html, HtmlContainer, HtmlPage};
use crate::output::{OutItem, OutPage};

verus! {

#[verifier::external_type_specification]
#[verifier::external_body]
pub struct ExHtmlPage(HtmlPage);

/// The opening of a page's markup: its doctype and its `<html>` tag.
pub uninterp spec fn html_open(p: HtmlPage) -> Seq<char>;

/// The markup collected in a page's head.
pub uninterp spec fn html_head(p: HtmlPage) -> Seq<char>;

/// The markup collected in a page's body.
pub uninterp spec fn html_body(p: HtmlPage) -> Seq<char>;

/// Relies on build_html's `HtmlPage::new`: an HTML5 page with an empty head
/// and an empty body.
#[verifier::external_body]
fn new_html_page() -> (r: HtmlPage)
    ensures
        html_open(r) == "<!DOCTYPE html><html>"@,
        html_head(r) == Seq::<char>::empty(),
        html_body(r) == Seq::<char>::empty(),
{
    HtmlPage::new()
}

/// Relies on build_html's `HtmlPage::add_title`: appends a `<title>` tag
/// holding the text verbatim to the head.
#[verifier::external_body]
fn add_title(p: &mut HtmlPage, title: &str)
    ensures
        html_open(*final(p)) == html_open(*old(p)),
        html_head(*final(p)) == html_head(*old(p)) + "<title>"@ + title@ + "</title>"@,
        html_body(*final(p)) == html_body(*old(p)),
{
    p.add_title(title)
}

/// Relies on build_html's `HtmlContainer::add_paragraph` for `HtmlPage`:
/// appends a `<p>` tag holding the text verbatim to the body.
#[verifier::external_body]
fn add_paragraph(p: &mut HtmlPage, text: &str)
    ensures
        html_open(*final(p)) == html_open(*old(p)),
        html_head(*final(p)) == html_head(*old(p)),
        html_body(*final(p)) == html_body(*old(p)) + "<p>"@ + text@ + "</p>"@,
{
    p.add_paragraph(text)
}

/// Relies on build_html's `Html::to_html_string` for `HtmlPage`: the opening,
/// then the head and the body, each in its tag.
#[verifier::external_body]
pub(crate) fn html_string(p: &HtmlPage) -> (r: String)
    ensures
        r@ == html_open(*p) + "<head>"@ + html_head(*p) + "</head><body>"@ + html_body(*p)
            + "</body></html>"@,
{
    p.to_html_string()
}

/// The head markup of the index page: the title, where there is one.
pub open spec fn title_html(title: Option<String>) -> Seq<char> {
    match title {
        Some(t) => "<title>"@ + t@ + "</title>"@,
        None => Seq::empty(),
    }
}

/// The body markup of one item: a paragraph for a text run, nothing else.
pub open spec fn item_html(o: OutItem) -> Seq<char> {
    match o {
        OutItem::Text { text, .. } => "<p>"@ + text@ + "</p>"@,
        _ => Seq::empty(),
    }
}

/// The body markup of a sequence of items, in order.
pub open spec fn items_html(items: Seq<OutItem>) -> Seq<char>
    decreases items.len(),
{
    if items.len() == 0 {
        Seq::empty()
    } else {
        items_html(items.drop_last()) + item_html(items.last())
    }
}

/// The body markup of the index page: the items of every page, in order.
pub open spec fn pages_html(pages: Seq<OutPage>) -> Seq<char>
    decreases pages.len(),
{
    if pages.len() == 0 {
        Seq::empty()
    } else {
        pages_html(pages.drop_last()) + items_html(pages.last().items@)
    }
}

/// The full markup of an index page with the given title and pages.
pub open spec fn index_html_spec(title: Option<String>, pages: Seq<OutPage>) -> Seq<char> {
    "<!DOCTYPE html><html>"@ + "<head>"@ + title_html(title) + "</head><body>"@ + pages_html(pages)
        + "</body></html>"@
}

/// Build the index page: the title in its head, and a paragraph for each
/// text run of each page, in page and paint order.
pub fn index_page(title: &Option<String>, pages: &Vec<OutPage>) -> (r: HtmlPage)
    ensures
        html_open(r) == "<!DOCTYPE html><html>"@,
        html_head(r) == title_html(*title),
        html_body(r) == pages_html(pages@),
{
    let mut page = new_html_page();
    match title {
        Some(t) => {
            add_title(&mut page, t.as_str());
            proof {
                assert(html_head(page) =~= title_html(*title));
            }
        },
        None => {},
    }
    let mut i: usize = 0;
    while i < pages.len()
        invariant
            0 <= i <= pages@.len(),
            html_open(page) == "<!DOCTYPE html><html>"@,
            html_head(page) == title_html(*title),
            html_body(page) == pages_html(pages@.take(i as int)),
        decreases pages@.len() - i,
    {
        let items = &pages[i].items;
        let ghost before = html_body(page);
        let mut j: usize = 0;
        while j < items.len()
            invariant
                0 <= j <= items@.len(),
                items == pages@[i as int].items,
                html_open(page) == "<!DOCTYPE html><html>"@,
                html_head(page) == title_html(*title),
                html_body(page) == before + items_html(items@.take(j as int)),
            decreases items@.len() - j,
        {
            proof {
                assert(items@.take(j + 1).drop_last() =~= items@.take(j as int));
            }
            match &items[j] {
                OutItem::Text { text, .. } => {
                    add_paragraph(&mut page, text.as_str());
                    proof {
                        assert(html_body(page) =~= before + items_html(items@.take(j + 1)));
                    }
                },
                _ => {
                    proof {
                        assert(html_body(page) =~= before + items_html(items@.take(j + 1)));
                    }
                },
            }
            j += 1;
        }
        proof {
            assert(items@.take(items@.len() as int) =~= items@);
            assert(pages@.take(i + 1).drop_last() =~= pages@.take(i as int));
            assert(html_body(page) =~= pages_html(pages@.take(i + 1)));
        }
        i += 1;
    }
    proof {
        assert(pages@.take(pages@.len() as int) =~= pages@);
    }
    page
}

} // verus!
