//! Configuration consumed by the price scraper.
//!
//! The selector tables pair a URL fragment (the key) with the CSS
//! expression that extracts the price on pages whose URL holds that
//! fragment.  The tables are ordered: the first matching rule wins,
//! and the HTTP-strategy table is consulted before the browser one.

use vstd::prelude::*;

verus! {

#[derive(Clone, Debug)]
pub struct PriceScraperConfig {
    pub user_agent: String,
    pub database_url: String,
    pub run_in_loop: bool,
    pub interval: u64,
    pub reqwest_selectors: Vec<(String, String)>,
    pub fantoccini_selectors: Vec<(String, String)>,
}

/// A selector table as text: each rule a (URL-fragment, CSS-selector)
/// pair of character sequences.
pub open spec fn rules_view(v: Seq<(String, String)>) -> Seq<(Seq<char>, Seq<char>)> {
    Seq::new(v.len(), |i: int| (v[i].0@, v[i].1@))
}

} // verus!
