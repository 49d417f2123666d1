//! Price extraction from a downloaded document.
//!
//! An extraction rule is a CSS selector expression.  Running it against
//! a document yields an ordered list of matched text fragments; the
//! first fragment, normalized by the single-dot rule of
//! [`crate::numeric`], is the price.  Later fragments are never tried:
//! on real markup a secondary match is usually an unrelated number.

use vstd::prelude::*;

use crate::numeric::Decimal;
use crate::numeric::parse_price;
use crate::numeric::string_to_decimal;

verus! {

/// Whether a text is a well-formed CSS selector group.
pub uninterp spec fn css_selector_valid(sel: Seq<char>) -> bool;

/// The text contents of the elements that `sel` matches in `doc`, in
/// document order.
pub uninterp spec fn selected_texts(doc: Seq<char>, sel: Seq<char>) -> Seq<Seq<char>>;

/// Why no price could be read from a downloaded document.
#[derive(Clone, Copy, Debug, PartialEq, Eq, Structural)]
pub enum GetPriceFromSourceError {
    CannotParseCssSelector,
    NoMatchesForPricesFound,
    CannotParseFirstMatchToPrice,
}

/// Relies on scraper's `Selector::parse`, `Html::parse_document` and
/// `Html::select`: selector parsing succeeds exactly when the selector
/// text is well formed, and the matched fragments are a function of the
/// document and selector texts alone, in document order.  The three
/// calls form one fixed pipeline, so one wrapper carries them together.
#[verifier::external_body]
pub(crate) fn select_fragment_texts(document: &str, css_selector: &str) -> (r: Option<
    Vec<String>,
>)
    ensures
        r is Some <==> css_selector_valid(css_selector@),
        r matches Some(v) ==> v.deep_view() == selected_texts(document@, css_selector@),
{
    let selector = match scraper::Selector::parse(css_selector) {
        Ok(v) => v,
        Err(_) => return None,
    };
    let html = scraper::Html::parse_document(document);
    Some(html.select(&selector).map(|el| el.text().collect::<String>()).collect())
}

/// The whole extraction, as spec: selector validity, then the first
/// matched fragment parsed by the single-dot rule.
pub open spec fn extract_spec(doc: Seq<char>, sel: Seq<char>) -> Result<
    Decimal,
    GetPriceFromSourceError,
> {
    if !css_selector_valid(sel) {
        Err(GetPriceFromSourceError::CannotParseCssSelector)
    } else {
        let frags = selected_texts(doc, sel);
        if frags.len() == 0 {
            Err(GetPriceFromSourceError::NoMatchesForPricesFound)
        } else {
            match parse_price(frags[0]) {
                Some(d) => Ok(d),
                None => Err(GetPriceFromSourceError::CannotParseFirstMatchToPrice),
            }
        }
    }
}

/// Run an extraction rule against a document.
///
/// The result is a function of the document and rule texts alone, as
/// the contract states: two runs on the same inputs return the same
/// value.
pub fn get_price_from_html(document: &str, css_selector: &str) -> (r: Result<
    Decimal,
    GetPriceFromSourceError,
>)
    ensures
        r == extract_spec(document@, css_selector@),
        r matches Ok(d) ==> d.wf(),
{
    let frags = match select_fragment_texts(document, css_selector) {
        Some(v) => v,
        None => {
            return Err(GetPriceFromSourceError::CannotParseCssSelector);
        },
    };
    if frags.len() == 0 {
        return Err(GetPriceFromSourceError::NoMatchesForPricesFound);
    }
    proof {
        assert(frags.deep_view()[0] == frags@[0]@);
    }
    match string_to_decimal(frags[0].as_str()) {
        Some(d) => Ok(d),
        None => Err(GetPriceFromSourceError::CannotParseFirstMatchToPrice),
    }
}

/// Extraction is pure: any two runs of `get_price_from_html` on the
/// same document and rule return the same result, since each run's
/// contract ties its result to `extract_spec` of the inputs alone.
pub proof fn lemma_extract_deterministic(
    doc: Seq<char>,
    sel: Seq<char>,
    r1: Result<Decimal, GetPriceFromSourceError>,
    r2: Result<Decimal, GetPriceFromSourceError>,
)
    requires
        r1 == extract_spec(doc, sel),
        r2 == extract_spec(doc, sel),
    ensures
        r1 == r2,
{
}

} // verus!
