//! The price-acquisition engine.
//!
//! For one URL: resolve the first matching selector rule (HTTP-strategy
//! rules first, then browser-strategy ones), validate the URL, judge
//! the outcome the downloader handed back (redirect detection), and
//! extract the price from the document.  On top of that sit the retry
//! policy with exponential backoff and the fairness re-check that
//! guards against implausible single-sample readings.

use vstd::prelude::*;

use crate::config::PriceScraperConfig;
use crate::config::rules_view;
use crate::download::DownloadOutcome;
use crate::download::DownloadingError;
use crate::download::parse_url_ok;
use crate::download::url_well_formed;
use crate::extract::GetPriceFromSourceError;
use crate::extract::css_selector_valid;
use crate::extract::extract_spec;
use crate::extract::get_price_from_html;
use crate::extract::select_fragment_texts;
use crate::extract::selected_texts;
use crate::numeric::Decimal;
use crate::pattern::contains_substring;
use crate::pattern::str_contains;
use crate::urls::spec_urls_equivalent;
use crate::urls::urls_equivalent;

verus! {

/// Which downloading strategy serves a selector rule.
#[derive(Clone, Copy, Debug, PartialEq, Eq, Structural)]
pub enum RequestType {
    Reqwest,
    Fantoccini,
}

/// No configured selector rule matches the URL.
#[derive(Clone, Copy, Debug, PartialEq, Eq, Structural)]
pub struct GetSelectorError {}

/// How one whole acquisition ended, at the surface of the engine.
#[derive(Clone, Copy, Debug, PartialEq, Eq, Structural)]
pub enum GetPriceError {
    PageNotSupported,
    PriceNotFound,
    ErrorDownloadingPage,
    PageDownloadTimeout,
    Redirected,
}

/// Why the matched text blocks of a page could not be listed.
#[derive(Clone, Copy, Debug, PartialEq, Eq, Structural)]
pub enum GetPotentialPricesError {
    PageNotSupported,
    Redirected,
    CannotParseCssSelector,
    CannotDownloadPage,
    Other,
}

/// A download failure that retrying may cure.
#[derive(Clone, Copy, Debug, PartialEq, Eq, Structural)]
pub enum TransientError {
    Timeout,
    ClientCreationFailed,
    SourceExtractionFailed,
    Other,
}

/// How one acquisition attempt failed.  Only the `Transient` failures
/// are retried; every other variant is permanent for the cycle.
#[derive(Clone, Copy, Debug, PartialEq, Eq, Structural)]
pub enum AttemptError {
    /// No selector rule matches the URL.
    PageNotSupported,
    /// The URL does not parse; no download can be attempted.
    InvalidUrl,
    /// The download landed on a different page.
    Redirected,
    /// The configured extraction rule is not a valid CSS selector.
    InvalidRule,
    /// The page downloaded but holds no readable price.
    PriceNotFound,
    Transient(TransientError),
}

/// How an attempt failure surfaces in `GetPriceError` terms: the
/// permanent extraction failures count as "no price on this page", an
/// invalid URL as a download failure, and of the transients only the
/// timeout keeps its own name.
pub open spec fn spec_to_get_price_error(e: AttemptError) -> GetPriceError {
    match e {
        AttemptError::PageNotSupported => GetPriceError::PageNotSupported,
        AttemptError::InvalidUrl => GetPriceError::ErrorDownloadingPage,
        AttemptError::Redirected => GetPriceError::Redirected,
        AttemptError::InvalidRule => GetPriceError::PriceNotFound,
        AttemptError::PriceNotFound => GetPriceError::PriceNotFound,
        AttemptError::Transient(TransientError::Timeout) => GetPriceError::PageDownloadTimeout,
        AttemptError::Transient(_) => GetPriceError::ErrorDownloadingPage,
    }
}

pub fn to_get_price_error(e: &AttemptError) -> (r: GetPriceError)
    ensures
        r == spec_to_get_price_error(*e),
{
    match e {
        AttemptError::PageNotSupported => GetPriceError::PageNotSupported,
        AttemptError::InvalidUrl => GetPriceError::ErrorDownloadingPage,
        AttemptError::Redirected => GetPriceError::Redirected,
        AttemptError::InvalidRule => GetPriceError::PriceNotFound,
        AttemptError::PriceNotFound => GetPriceError::PriceNotFound,
        AttemptError::Transient(TransientError::Timeout) => GetPriceError::PageDownloadTimeout,
        AttemptError::Transient(_) => GetPriceError::ErrorDownloadingPage,
    }
}

/// How a downloader failure classifies for the retry policy.
pub open spec fn spec_classify_download_error(e: DownloadingError) -> AttemptError {
    match e {
        DownloadingError::Timeout => AttemptError::Transient(TransientError::Timeout),
        DownloadingError::Redirection => AttemptError::Redirected,
        DownloadingError::CreatingDownloaderClient => AttemptError::Transient(
            TransientError::ClientCreationFailed,
        ),
        DownloadingError::GetSourceFromResponse => AttemptError::Transient(
            TransientError::SourceExtractionFailed,
        ),
        DownloadingError::CannotGetDownloadedUrl => AttemptError::Transient(TransientError::Other),
        DownloadingError::NotValidInputUrl => AttemptError::InvalidUrl,
        DownloadingError::Other => AttemptError::Transient(TransientError::Other),
    }
}

/// The first rule of `rules` whose key occurs in `url`, if any.
pub open spec fn find_rule(rules: Seq<(Seq<char>, Seq<char>)>, url: Seq<char>) -> Option<Seq<char>>
    decreases rules.len(),
{
    if rules.len() == 0 {
        None
    } else if contains_substring(url, rules[0].0) {
        Some(rules[0].1)
    } else {
        find_rule(rules.drop_first(), url)
    }
}

/// The selector registry and attempt pipeline.
pub struct PriceScraper {
    reqwest_selectors: Vec<(String, String)>,
    fantoccini_selectors: Vec<(String, String)>,
}

impl PriceScraper {
    /// The configured HTTP-strategy rules, as (key, selector) texts.
    pub closed spec fn http_rules(self) -> Seq<(Seq<char>, Seq<char>)> {
        rules_view(self.reqwest_selectors@)
    }

    /// The configured browser-strategy rules, as (key, selector) texts.
    pub closed spec fn browser_rules(self) -> Seq<(Seq<char>, Seq<char>)> {
        rules_view(self.fantoccini_selectors@)
    }

    pub fn new(config: PriceScraperConfig) -> (r: PriceScraper)
        ensures
            r.http_rules() == rules_view(config.reqwest_selectors@),
            r.browser_rules() == rules_view(config.fantoccini_selectors@),
    {
        PriceScraper {
            reqwest_selectors: config.reqwest_selectors,
            fantoccini_selectors: config.fantoccini_selectors,
        }
    }

    /// Which rule serves `url`: the first HTTP-strategy match if any,
    /// else the first browser-strategy match.
    pub open spec fn spec_resolve(self, url: Seq<char>) -> Option<(RequestType, Seq<char>)> {
        match find_rule(self.http_rules(), url) {
            Some(sel) => Some((RequestType::Reqwest, sel)),
            None => match find_rule(self.browser_rules(), url) {
                Some(sel) => Some((RequestType::Fantoccini, sel)),
                None => None,
            },
        }
    }

    /// Pick the downloading strategy and extraction rule for `url`, or
    /// fail when no rule table mentions it.
    pub fn get_downloader_and_css_selector(&self, url: &str) -> (r: Result<
        (RequestType, String),
        GetSelectorError,
    >)
        ensures
            r matches Ok(p) ==> self.spec_resolve(url@) == Some((p.0, p.1@)),
            r is Err <==> self.spec_resolve(url@) is None,
    {
        match self.find_rule_in(&self.reqwest_selectors, url) {
            Some(sel) => {
                proof {
                    assert(find_rule(self.http_rules(), url@) is Some);
                }
                Ok((RequestType::Reqwest, sel))
            },
            None => match self.find_rule_in(&self.fantoccini_selectors, url) {
                Some(sel) => Ok((RequestType::Fantoccini, sel)),
                None => Err(GetSelectorError {}),
            },
        }
    }

    /// The first matching rule of one table, by linear scan.
    fn find_rule_in(&self, rules: &Vec<(String, String)>, url: &str) -> (r: Option<String>)
        ensures
            r matches Some(s) ==> find_rule(rules_view(rules@), url@) == Some(s@),
            r is None <==> find_rule(rules_view(rules@), url@) is None,
    {
        let ghost rv = rules_view(rules@);
        let mut i: usize = 0;
        proof {
            assert(rv.skip(0) =~= rv);
        }
        while i < rules.len()
            invariant
                i <= rules@.len(),
                rv == rules_view(rules@),
                find_rule(rv, url@) == find_rule(rv.skip(i as int), url@),
            decreases rules@.len() - i,
        {
            proof {
                assert(rv.skip(i as int)[0] == rv[i as int]);
            }
            if str_contains(url, rules[i].0.as_str()) {
                return Some(rules[i].1.clone());
            }
            proof {
                assert(rv.skip(i as int).drop_first() =~= rv.skip(i as int + 1));
            }
            i = i + 1;
        }
        proof {
            assert(rv.skip(i as int) =~= Seq::<(Seq<char>, Seq<char>)>::empty());
        }
        None
    }

    /// One whole acquisition attempt, given what the downloader handed
    /// back for `url`: rule resolution, URL validation, redirect
    /// detection, then extraction.
    pub open spec fn spec_attempt(self, url: Seq<char>, dl: DownloadOutcome) -> Result<
        Decimal,
        AttemptError,
    > {
        match self.spec_resolve(url) {
            None => Err(AttemptError::PageNotSupported),
            Some((_, sel)) => {
                if !url_well_formed(url) {
                    Err(AttemptError::InvalidUrl)
                } else {
                    match dl {
                        DownloadOutcome::Failed(e) => Err(spec_classify_download_error(e)),
                        DownloadOutcome::Fetched { document, landed_url } => {
                            if !spec_urls_equivalent(url, landed_url@) {
                                Err(AttemptError::Redirected)
                            } else {
                                match extract_spec(document@, sel) {
                                    Ok(d) => Ok(d),
                                    Err(GetPriceFromSourceError::CannotParseCssSelector) => Err(
                                        AttemptError::InvalidRule,
                                    ),
                                    Err(GetPriceFromSourceError::NoMatchesForPricesFound) => Err(
                                        AttemptError::PriceNotFound,
                                    ),
                                    Err(
                                        GetPriceFromSourceError::CannotParseFirstMatchToPrice,
                                    ) => Err(AttemptError::PriceNotFound),
                                }
                            }
                        },
                    }
                }
            },
        }
    }

    /// Judge one attempt: which price, or which failure, the attempt
    /// with this download outcome amounts to.
    pub fn attempt_price(&self, url: &str, download: &DownloadOutcome) -> (r: Result<
        Decimal,
        AttemptError,
    >)
        ensures
            r == self.spec_attempt(url@, *download),
            r matches Ok(d) ==> d.wf(),
    {
        let (_, css_selector) = match self.get_downloader_and_css_selector(url) {
            Ok(p) => p,
            Err(_) => {
                return Err(AttemptError::PageNotSupported);
            },
        };
        if !parse_url_ok(url) {
            return Err(AttemptError::InvalidUrl);
        }
        match download {
            DownloadOutcome::Failed(e) => Err(
                match e {
                    DownloadingError::Timeout => AttemptError::Transient(TransientError::Timeout),
                    DownloadingError::Redirection => AttemptError::Redirected,
                    DownloadingError::CreatingDownloaderClient => AttemptError::Transient(
                        TransientError::ClientCreationFailed,
                    ),
                    DownloadingError::GetSourceFromResponse => AttemptError::Transient(
                        TransientError::SourceExtractionFailed,
                    ),
                    DownloadingError::CannotGetDownloadedUrl => AttemptError::Transient(
                        TransientError::Other,
                    ),
                    DownloadingError::NotValidInputUrl => AttemptError::InvalidUrl,
                    DownloadingError::Other => AttemptError::Transient(TransientError::Other),
                },
            ),
            DownloadOutcome::Fetched { document, landed_url } => {
                if !urls_equivalent(url, landed_url.as_str()) {
                    return Err(AttemptError::Redirected);
                }
                match get_price_from_html(document.as_str(), css_selector.as_str()) {
                    Ok(d) => Ok(d),
                    Err(GetPriceFromSourceError::CannotParseCssSelector) => Err(
                        AttemptError::InvalidRule,
                    ),
                    Err(GetPriceFromSourceError::NoMatchesForPricesFound) => Err(
                        AttemptError::PriceNotFound,
                    ),
                    Err(GetPriceFromSourceError::CannotParseFirstMatchToPrice) => Err(
                        AttemptError::PriceNotFound,
                    ),
                }
            },
        }
    }

    /// The text blocks the extraction rule matches on a page, for
    /// inspection: a failure to resolve, download or parse the rule is
    /// classified, and a redirected download counts as not downloaded.
    pub open spec fn spec_potential_prices(self, url: Seq<char>, dl: DownloadOutcome) -> Result<
        Seq<Seq<char>>,
        GetPotentialPricesError,
    > {
        match self.spec_resolve(url) {
            None => Err(GetPotentialPricesError::PageNotSupported),
            Some((_, sel)) => {
                if !url_well_formed(url) {
                    Err(GetPotentialPricesError::CannotDownloadPage)
                } else {
                    match dl {
                        DownloadOutcome::Failed(_) => Err(
                            GetPotentialPricesError::CannotDownloadPage,
                        ),
                        DownloadOutcome::Fetched { document, landed_url } => {
                            if !spec_urls_equivalent(url, landed_url@) {
                                Err(GetPotentialPricesError::CannotDownloadPage)
                            } else if !css_selector_valid(sel) {
                                Err(GetPotentialPricesError::CannotParseCssSelector)
                            } else {
                                Ok(selected_texts(document@, sel))
                            }
                        },
                    }
                }
            },
        }
    }

    /// List the text blocks the configured rule matches on the page,
    /// judged from what the downloader handed back.
    pub fn get_potential_prices_blocks(&self, url: &str, download: DownloadOutcome) -> (r: Result<
        Vec<String>,
        GetPotentialPricesError,
    >)
        ensures
            r matches Ok(v) ==> self.spec_potential_prices(url@, download) == Ok::<
                _,
                GetPotentialPricesError,
            >(v.deep_view()),
            r matches Err(e) ==> self.spec_potential_prices(url@, download) == Err::<
                Seq<Seq<char>>,
                _,
            >(e),
    {
        let (_, css_selector) = match self.get_downloader_and_css_selector(url) {
            Ok(p) => p,
            Err(_) => {
                return Err(GetPotentialPricesError::PageNotSupported);
            },
        };
        if !parse_url_ok(url) {
            return Err(GetPotentialPricesError::CannotDownloadPage);
        }
        match download {
            DownloadOutcome::Failed(_) => Err(GetPotentialPricesError::CannotDownloadPage),
            DownloadOutcome::Fetched { document, landed_url } => {
                if !urls_equivalent(url, landed_url.as_str()) {
                    return Err(GetPotentialPricesError::CannotDownloadPage);
                }
                match select_fragment_texts(document.as_str(), css_selector.as_str()) {
                    Some(v) => Ok(v),
                    None => Err(GetPotentialPricesError::CannotParseCssSelector),
                }
            },
        }
    }

    /// One attempt, with the failure mapped to the surface error kind.
    pub open spec fn spec_get_price(self, url: Seq<char>, dl: DownloadOutcome) -> Result<
        Decimal,
        GetPriceError,
    > {
        match self.spec_attempt(url, dl) {
            Ok(d) => Ok(d),
            Err(e) => Err(spec_to_get_price_error(e)),
        }
    }

    /// One acquisition attempt for `url`, judged from what the
    /// downloader handed back.
    pub fn get_price(&self, url: &str, download: DownloadOutcome) -> (r: Result<
        Decimal,
        GetPriceError,
    >)
        ensures
            r == self.spec_get_price(url@, download),
            r matches Ok(d) ==> d.wf(),
    {
        match self.attempt_price(url, &download) {
            Ok(d) => Ok(d),
            Err(e) => Err(to_get_price_error(&e)),
        }
    }
}

} // verus!
