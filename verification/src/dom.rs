//! The page as a document: the elements that a CSS selector selects, read
//! as text.

use vstd::prelude::*;

verus! {

/// The texts of the elements of `document` that `selector` selects, in the
/// order in which the parsed document yields them: for each element the
/// text nodes below it, joined. `None` where `selector` is no selector
/// group.
pub uninterp spec fn selected_texts(document: Seq<char>, selector: Seq<char>) -> Option<
    Seq<Seq<char>>,
>;

/// Parses `selector` with `scraper::Selector::parse` and `document` with
/// `scraper::Html::parse_document`, walks `Html::select` and joins what
/// `ElementRef::text` yields for each element.
///
/// Trusted: the result is a function of the two texts alone. That it is
/// `None` exactly where `Selector::parse` refuses the selector is how the
/// body reads the outcome of that call.
#[verifier::external_body]
pub(crate) fn select_texts(document: &str, selector: &str) -> (r: Option<Vec<String>>)
    ensures
        match r {
            Some(texts) => selected_texts(document@, selector@) == Some(texts.deep_view()),
            None => selected_texts(document@, selector@) is None,
        },
{
    let parsed = match scraper::Selector::parse(selector) {
        Ok(parsed) => parsed,
        Err(_) => return None,
    };
    let html = scraper::Html::parse_document(document);
    Some(html.select(&parsed).map(|element| element.text().collect::<String>()).collect())
}

} // verus!
