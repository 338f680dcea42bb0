//! Queries on HTML pages, answered by the `scraper` crate.
use vstd::prelude::*;
use crate::text::opt_view;

verus! {

/// What `scraper::Selector::parse` reports for `selector`: nothing when
/// it parses, else the text of its error.
pub uninterp spec fn css_selector_error(selector: Seq<char>) -> Option<Seq<char>>;

/// The value of attribute `attr` on the first element of the page `html`
/// (parsed by `scraper::Html::parse_document`) that matches `selector`,
/// taking elements in the order in which `Html::select` walks the parsed
/// tree; nothing when no element matches or that element lacks the
/// attribute.
pub uninterp spec fn css_first_attr(html: Seq<char>, selector: Seq<char>, attr: Seq<char>) -> Option<Seq<char>>;

/// For each element of the page `html` that matches `outer`, in the order
/// in which `Html::select` walks the parsed tree: the text (its text nodes
/// joined) of its first descendant that matches `first`, and of its first
/// descendant that matches `second`.
pub uninterp spec fn css_group_texts(
    html: Seq<char>,
    outer: Seq<char>,
    first: Seq<char>,
    second: Seq<char>,
) -> Seq<(Option<Seq<char>>, Option<Seq<char>>)>;

/// Parses `selector` with `scraper::Selector::parse`; the contract claims
/// only that the outcome is the one named by `css_selector_error`.
#[verifier::external_body]
pub(crate) fn selector_error(selector: &str) -> (r: Option<String>)
    ensures
        opt_view(r) == css_selector_error(selector@),
{
    match scraper::Selector::parse(selector) {
        Ok(_) => None,
        Err(e) => Some(e.to_string()),
    }
}

/// `Html::parse_document`, `Html::select` and `Element::attr` of
/// `scraper`: the contract claims only that the result is the one named by
/// `css_first_attr`, for a selector that parses.
#[verifier::external_body]
pub(crate) fn first_attr(html: &str, selector: &str, attr: &str) -> (r: Option<String>)
    requires
        css_selector_error(selector@) is None,
    ensures
        opt_view(r) == css_first_attr(html@, selector@, attr@),
{
    let doc = scraper::Html::parse_document(html);
    match scraper::Selector::parse(selector) {
        Ok(sel) => doc.select(&sel).next().and_then(|el| el.value().attr(attr)).map(|v| v.to_string()),
        Err(_) => None,
    }
}

/// `Html::parse_document`, `Html::select`, `ElementRef::select` and
/// `ElementRef::text` of `scraper`: the contract claims only that the
/// result is the one named by `css_group_texts`, for selectors that parse.
#[verifier::external_body]
pub(crate) fn group_texts(html: &str, outer: &str, first: &str, second: &str) -> (r: Vec<(Option<String>, Option<String>)>)
    requires
        css_selector_error(outer@) is None,
        css_selector_error(first@) is None,
        css_selector_error(second@) is None,
    ensures
        r@.map_values(|p: (Option<String>, Option<String>)| (opt_view(p.0), opt_view(p.1)))
            == css_group_texts(html@, outer@, first@, second@),
{
    let doc = scraper::Html::parse_document(html);
    match (scraper::Selector::parse(outer), scraper::Selector::parse(first), scraper::Selector::parse(second)) {
        (Ok(o), Ok(f), Ok(s)) => doc.select(&o).map(|g| (
            g.select(&f).next().map(|e| e.text().collect::<String>()),
            g.select(&s).next().map(|e| e.text().collect::<String>()),
        )).collect(),
        _ => Vec::new(),
    }
}

} // verus!
