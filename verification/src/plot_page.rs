//! The HTML page that shows several plots one below the other: a title, the
//! plotting script, a heading, then the inline HTML of each plot.
//!
//! The page is assembled with `build_html`; the inline HTML of each plot is
//! rendered by the caller, in a `div` whose id comes from `plot_div_ids`.
use build_html::{Html, HtmlContainer, HtmlPage};
use crate::text::{decimal, prefixed_number};
use vstd::prelude::*;

verus! {

/// Declares `build_html::HtmlPage` to Verus; a page is opaque to it, and
/// what it holds is told by `page_parts`.
#[verifier::external_type_specification]
#[verifier::external_body]
pub struct ExHtmlPage(HtmlPage);

/// What a page holds: `[opening, head, body]`, where `opening` is the text
/// before `<head>` (the document type and the opening `html` tag), `head`
/// the content of the `head` element and `body` that of the `body` element.
pub uninterp spec fn page_parts(page: HtmlPage) -> Seq<Seq<char>>;

/// Calls `build_html::HtmlPage::new`: an HTML5 page with empty head and
/// body.
#[verifier::external_body]
fn new_page() -> (page: HtmlPage)
    ensures
        page_parts(page) == seq!["<!DOCTYPE html><html>"@, Seq::<char>::empty(), Seq::<char>::empty()],
{
    HtmlPage::new()
}

/// Calls `build_html::HtmlPage::with_title`: appends
/// `<title>` + `title` + `</title>` to the head, unescaped.
#[verifier::external_body]
fn page_with_title(page: HtmlPage, title: &str) -> (r: HtmlPage)
    ensures
        page_parts(r) == seq![
            page_parts(page)[0],
            page_parts(page)[1] + "<title>"@ + title@ + "</title>"@,
            page_parts(page)[2],
        ],
{
    page.with_title(title)
}

/// Calls `build_html::HtmlPage::with_script_link`: appends
/// `<script src="` + `src` + `"></script>` to the head, unescaped.
#[verifier::external_body]
fn page_with_script_link(page: HtmlPage, src: &str) -> (r: HtmlPage)
    ensures
        page_parts(r) == seq![
            page_parts(page)[0],
            page_parts(page)[1] + "<script src=\""@ + src@ + "\"></script>"@,
            page_parts(page)[2],
        ],
{
    page.with_script_link(src)
}

/// Calls `build_html::HtmlContainer::with_header` with level 1: appends
/// `<h1>` + `text` + `</h1>` to the body, unescaped.
#[verifier::external_body]
fn page_with_heading(page: HtmlPage, text: &str) -> (r: HtmlPage)
    ensures
        page_parts(r) == seq![
            page_parts(page)[0],
            page_parts(page)[1],
            page_parts(page)[2] + "<h1>"@ + text@ + "</h1>"@,
        ],
{
    page.with_header(1, text)
}

/// Calls `build_html::HtmlContainer::add_raw`: appends `content` to the body
/// as it is.
#[verifier::external_body]
fn page_add_raw(page: &mut HtmlPage, content: &str)
    ensures
        page_parts(*final(page)) == seq![
            page_parts(*old(page))[0],
            page_parts(*old(page))[1],
            page_parts(*old(page))[2] + content@,
        ],
{
    page.add_raw(content)
}

/// Calls `build_html::Html::to_html_string` on a page: the opening text,
/// then the head and the body in their elements, then the closing tag.
#[verifier::external_body]
fn page_text(page: &HtmlPage) -> (r: String)
    requires
        page_parts(*page).len() == 3,
    ensures
        r@ == page_parts(*page)[0] + "<head>"@ + page_parts(*page)[1] + "</head><body>"@
            + page_parts(*page)[2] + "</body></html>"@,
{
    page.to_html_string()
}

/// Ids of the `div` elements of `count` plots on one page: `test_0`,
/// `test_1`, and so on.
pub fn plot_div_ids(count: usize) -> (ids: Vec<String>)
    ensures
        ids.len() == count,
        forall|i: int| 0 <= i < count ==> #[trigger] ids@[i]@ == "test_"@ + decimal(i as nat),
{
    let mut ids: Vec<String> = Vec::new();
    for i in 0..count
        invariant
            ids.len() == i,
            forall|k: int| 0 <= k < i ==> #[trigger] ids@[k]@ == "test_"@ + decimal(k as nat),
    {
        ids.push(prefixed_number("test_", i));
    }
    ids
}

/// Title of the page: the given one, else a default.
pub open spec fn page_title(title: Option<Seq<char>>) -> Seq<char> {
    match title {
        Some(t) => t,
        None => "Plotly-rs Multiple Plots"@,
    }
}

/// Heading of the page: the given title, else a default.
pub open spec fn page_heading(title: Option<Seq<char>>) -> Seq<char> {
    match title {
        Some(t) => t,
        None => "Multiple Plotly plots on the same HTML page"@,
    }
}

/// Address of the plotting script that the page loads.
pub open spec fn plotly_script_src() -> Seq<char> {
    "https://cdn.plot.ly/plotly-latest.min.js"@
}

/// The title as a plain value.
pub open spec fn title_view(title: Option<&str>) -> Option<Seq<char>> {
    match title {
        Some(t) => Some(t@),
        None => None,
    }
}

/// The fragments as plain values.
pub open spec fn fragments_view(fragments: Seq<String>) -> Seq<Seq<char>> {
    fragments.map_values(|f: String| f@)
}

/// Text of the page that shows `fragments` under the given title.
pub open spec fn spec_plots_page(title: Option<Seq<char>>, fragments: Seq<Seq<char>>) -> Seq<
    char,
> {
    "<!DOCTYPE html><html>"@ + "<head>"@ + ("<title>"@ + page_title(title) + "</title>"@
        + "<script src=\""@ + plotly_script_src() + "\"></script>"@) + "</head><body>"@ + (
    "<h1>"@ + page_heading(title) + "</h1>"@ + fragments.flatten_alt()) + "</body></html>"@
}

/// The page text, written out: the title (or `Plotly-rs Multiple Plots`)
/// and the plotting script in the head; the body is the `h1` heading (the
/// title, or `Multiple Plotly plots on the same HTML page`) followed by the
/// fragments in order.
pub proof fn lemma_plots_page_text(title: Option<Seq<char>>, fragments: Seq<Seq<char>>)
    ensures
        spec_plots_page(title, fragments) == "<!DOCTYPE html><html><head><title>"@ + (match title {
            Some(t) => t,
            None => "Plotly-rs Multiple Plots"@,
        })
            + "</title><script src=\"https://cdn.plot.ly/plotly-latest.min.js\"></script></head><body><h1>"@
            + (match title {
            Some(t) => t,
            None => "Multiple Plotly plots on the same HTML page"@,
        }) + "</h1>"@ + fragments.flatten_alt() + "</body></html>"@,
{
    reveal_strlit("<!DOCTYPE html><html>");
    reveal_strlit("<head>");
    reveal_strlit("<title>");
    reveal_strlit("</title>");
    reveal_strlit("<script src=\"");
    reveal_strlit("https://cdn.plot.ly/plotly-latest.min.js");
    reveal_strlit("\"></script>");
    reveal_strlit("</head><body>");
    reveal_strlit("<h1>");
    reveal_strlit("<!DOCTYPE html><html><head><title>");
    reveal_strlit(
        "</title><script src=\"https://cdn.plot.ly/plotly-latest.min.js\"></script></head><body><h1>",
    );
    let t = page_title(title);
    let h = page_heading(title);
    let f = fragments.flatten_alt();
    assert("<!DOCTYPE html><html>"@ + "<head>"@ + "<title>"@ =~= "<!DOCTYPE html><html><head><title>"@);
    assert("</title>"@ + "<script src=\""@ + "https://cdn.plot.ly/plotly-latest.min.js"@ + "\"></script>"@
        + "</head><body>"@ + "<h1>"@
        =~= "</title><script src=\"https://cdn.plot.ly/plotly-latest.min.js\"></script></head><body><h1>"@);
    assert(spec_plots_page(title, fragments) =~= "<!DOCTYPE html><html><head><title>"@ + t
        + "</title><script src=\"https://cdn.plot.ly/plotly-latest.min.js\"></script></head><body><h1>"@
        + h + "</h1>"@ + f + "</body></html>"@);
}

/// The HTML page that shows the plots whose inline HTML is `fragments`, in
/// order, under `title` (or default title and heading where it is `None`).
pub fn plots_page(title: Option<&str>, fragments: &Vec<String>) -> (html: String)
    ensures
        html@ == spec_plots_page(title_view(title), fragments_view(fragments@)),
        html@ == "<!DOCTYPE html><html><head><title>"@ + (match title {
            Some(t) => t@,
            None => "Plotly-rs Multiple Plots"@,
        })
            + "</title><script src=\"https://cdn.plot.ly/plotly-latest.min.js\"></script></head><body><h1>"@
            + (match title {
            Some(t) => t@,
            None => "Multiple Plotly plots on the same HTML page"@,
        }) + "</h1>"@ + fragments@.map_values(|f: String| f@).flatten_alt() + "</body></html>"@,
{
    let page_title_text = match title {
        Some(t) => t,
        None => "Plotly-rs Multiple Plots",
    };
    let heading_text = match title {
        Some(t) => t,
        None => "Multiple Plotly plots on the same HTML page",
    };
    let mut page = page_with_heading(
        page_with_script_link(
            page_with_title(new_page(), page_title_text),
            "https://cdn.plot.ly/plotly-latest.min.js",
        ),
        heading_text,
    );
    let ghost head = page_parts(page)[1];
    let ghost fv = fragments_view(fragments@);
    let ghost top = page_parts(page)[2];
    for i in 0..fragments.len()
        invariant
            fv == fragments_view(fragments@),
            page_parts(page).len() == 3,
            page_parts(page)[0] == "<!DOCTYPE html><html>"@,
            page_parts(page)[1] == head,
            page_parts(page)[2] == top + fv.take(i as int).flatten_alt(),
    {
        page_add_raw(&mut page, fragments[i].as_str());
        proof {
            assert(fv.take(i + 1).drop_last() =~= fv.take(i as int));
            assert(fv.take(i + 1).last() == fragments@[i as int]@);
            assert((top + fv.take(i as int).flatten_alt()) + fragments@[i as int]@ =~= top + (
            fv.take(i as int).flatten_alt() + fragments@[i as int]@));
        }
    }
    assert(fv.take(fragments.len() as int) =~= fv);
    proof {
        lemma_plots_page_text(title_view(title), fv);
    }
    page_text(&page)
}

} // verus!
