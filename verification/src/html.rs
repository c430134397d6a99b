//! The HTML parser and CSS selectors of the `scraper` crate, seen through
//! plain values.

use vstd::prelude::*;

use scraper::{Html, Selector};

verus! {

/// Whether `scraper::Selector::parse` accepts the selector.
pub uninterp spec fn selector_parses(sel: Seq<char>) -> bool;

/// For each element of the document (parsed with `Html::parse_document`)
/// that the selector matches, in document order (`Html::select`), the values
/// of its attributes `a` and `b` (`Element::attr`).
pub uninterp spec fn selected_attrs(html: Seq<char>, sel: Seq<char>, a: Seq<char>, b: Seq<char>) -> Seq<
    (Option<Seq<char>>, Option<Seq<char>>),
>;

/// The text (`ElementRef::text`, its pieces joined) of the first element of
/// the document that the selector matches, if any matches.
pub uninterp spec fn first_selected_text(html: Seq<char>, sel: Seq<char>) -> Option<Seq<char>>;

/// Parses the document and reads two attributes of every element that the
/// selector matches; `None` when the selector does not parse. The contract
/// names the result as a function of the four texts.
#[verifier::external_body]
pub(crate) fn select_attrs(html: &str, sel: &str, a: &str, b: &str) -> (r: Option<
    Vec<(Option<String>, Option<String>)>,
>)
    ensures
        r is Some <==> selector_parses(sel@),
        r matches Some(v) ==> v.deep_view() == selected_attrs(html@, sel@, a@, b@),
{
    let s = Selector::parse(sel).ok()?;
    let doc = Html::parse_document(html);
    Some(
        doc.select(&s).map(|e| (e.value().attr(a).map(|x| x.to_string()), e.value().attr(b).map(|x| x.to_string()))).collect(),
    )
}

/// Parses the document and reads the text of the first element that the
/// selector matches; `None` when the selector does not parse. The contract
/// names the result as a function of the two texts.
#[verifier::external_body]
pub(crate) fn select_first_text(html: &str, sel: &str) -> (r: Option<Option<String>>)
    ensures
        r is Some <==> selector_parses(sel@),
        r matches Some(t) ==> t.deep_view() == first_selected_text(html@, sel@),
{
    let s = Selector::parse(sel).ok()?;
    let doc = Html::parse_document(html);
    Some(doc.select(&s).next().map(|e| e.text().collect::<Vec<_>>().concat()))
}

} // verus!
