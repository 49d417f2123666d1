use web_scraper::config::PriceScraperConfig;
use web_scraper::download::DownloadOutcome;
use web_scraper::download::DownloadingError;
use web_scraper::extract::GetPriceFromSourceError;
use web_scraper::extract::get_price_from_html;
use web_scraper::numeric::Decimal;
use web_scraper::price_scraper::GetPotentialPricesError;
use web_scraper::price_scraper::GetPriceError;
use web_scraper::price_scraper::PriceScraper;
use web_scraper::price_scraper::RequestType;

fn config(http: &[(&str, &str)], browser: &[(&str, &str)]) -> PriceScraperConfig {
    PriceScraperConfig {
        user_agent: "agent".to_string(),
        database_url: String::new(),
        run_in_loop: false,
        interval: 60,
        reqwest_selectors: http.iter().map(|(k, v)| (k.to_string(), v.to_string())).collect(),
        fantoccini_selectors: browser
            .iter()
            .map(|(k, v)| (k.to_string(), v.to_string()))
            .collect(),
    }
}

fn fetched(document: &str, landed: &str) -> DownloadOutcome {
    DownloadOutcome::Fetched { document: document.to_string(), landed_url: landed.to_string() }
}

fn dec(mantissa: u64, scale: u32) -> Decimal {
    Decimal { mantissa, scale }
}

#[test]
fn extract_reads_first_match() {
    let doc = "<html><body><span class=\"price\">19,99</span></body></html>";
    assert_eq!(get_price_from_html(doc, ".price"), Ok(dec(1999, 2)));
}

#[test]
fn extract_is_deterministic_on_same_inputs() {
    let doc = "<div><p class=\"cost\">1.234,56 PLN</p><p class=\"cost\">99</p></div>";
    let first = get_price_from_html(doc, ".cost");
    let second = get_price_from_html(doc, ".cost");
    assert_eq!(first, second);
    assert_eq!(first, Ok(dec(123456, 5)));
}

#[test]
fn extract_rejects_bad_selector() {
    let doc = "<span class=\"price\">19,99</span>";
    assert_eq!(
        get_price_from_html(doc, "!!!"),
        Err(GetPriceFromSourceError::CannotParseCssSelector)
    );
}

#[test]
fn extract_reports_missing_matches() {
    let doc = "<span class=\"name\">Widget</span>";
    assert_eq!(
        get_price_from_html(doc, ".price"),
        Err(GetPriceFromSourceError::NoMatchesForPricesFound)
    );
}

#[test]
fn extract_never_tries_a_later_match() {
    // the first matched fragment holds no number; the second is not consulted
    let doc = "<span class=\"price\">sold out</span><span class=\"price\">19,99</span>";
    assert_eq!(
        get_price_from_html(doc, ".price"),
        Err(GetPriceFromSourceError::CannotParseFirstMatchToPrice)
    );
}

#[test]
fn http_rules_win_over_browser_rules() {
    let scraper = PriceScraper::new(config(
        &[("shop.example", ".http-price")],
        &[("shop.example", ".browser-price")],
    ));
    let (strategy, selector) =
        scraper.get_downloader_and_css_selector("http://shop.example/item").unwrap();
    assert_eq!(strategy, RequestType::Reqwest);
    assert_eq!(selector, ".http-price");
}

#[test]
fn first_matching_rule_wins() {
    let scraper = PriceScraper::new(config(
        &[("other.example", ".a"), ("shop.example", ".b"), ("shop", ".c")],
        &[],
    ));
    let (_, selector) =
        scraper.get_downloader_and_css_selector("http://shop.example/item").unwrap();
    assert_eq!(selector, ".b");
}

#[test]
fn browser_rules_serve_when_http_ones_do_not() {
    let scraper = PriceScraper::new(config(
        &[("other.example", ".a")],
        &[("shop.example", ".b")],
    ));
    let (strategy, selector) =
        scraper.get_downloader_and_css_selector("http://shop.example/item").unwrap();
    assert_eq!(strategy, RequestType::Fantoccini);
    assert_eq!(selector, ".b");
}

#[test]
fn unmatched_url_is_not_supported() {
    let scraper = PriceScraper::new(config(&[("shop.example", ".price")], &[]));
    assert!(scraper.get_downloader_and_css_selector("http://elsewhere.example/x").is_err());
    let r = scraper.get_price(
        "http://elsewhere.example/x",
        fetched("<span class=\"price\">1</span>", "http://elsewhere.example/x"),
    );
    assert_eq!(r, Err(GetPriceError::PageNotSupported));
}

#[test]
fn end_to_end_persisted_row() {
    let scraper = PriceScraper::new(config(&[("shop.example", ".price")], &[]));
    let url = "http://shop.example/item";
    let doc = "<html><body><span class=\"price\">19,99</span></body></html>";
    let r = scraper.get_price(url, fetched(doc, url));
    assert_eq!(r, Ok(dec(1999, 2)));
    let row = web_scraper::tasks::classify_price_result(7, &r).unwrap();
    assert_eq!(row.offer_id, 7);
    assert_eq!(row.value, Some(dec(1999, 2)));
    assert!(matches!(row.availability, web_scraper::models::Availability::Available));
}

#[test]
fn landing_elsewhere_is_a_redirect() {
    let scraper = PriceScraper::new(config(&[("shop.example", ".price")], &[]));
    let r = scraper.get_price(
        "http://shop.example/item",
        fetched("<span class=\"price\">19,99</span>", "http://shop.example/item/gone"),
    );
    assert_eq!(r, Err(GetPriceError::Redirected));
}

#[test]
fn malformed_url_fails_before_any_download() {
    let scraper = PriceScraper::new(config(&[("not", ".price")], &[]));
    let r = scraper.get_price("not a url", fetched("<i class=\"price\">5</i>", "not a url"));
    assert_eq!(r, Err(GetPriceError::ErrorDownloadingPage));
}

#[test]
fn download_failures_classify() {
    let scraper = PriceScraper::new(config(&[("shop.example", ".price")], &[]));
    let url = "http://shop.example/item";
    let f = |e: DownloadingError| scraper.get_price(url, DownloadOutcome::Failed(e));
    assert_eq!(f(DownloadingError::Timeout), Err(GetPriceError::PageDownloadTimeout));
    assert_eq!(f(DownloadingError::Redirection), Err(GetPriceError::Redirected));
    assert_eq!(f(DownloadingError::Other), Err(GetPriceError::ErrorDownloadingPage));
    assert_eq!(
        f(DownloadingError::CreatingDownloaderClient),
        Err(GetPriceError::ErrorDownloadingPage)
    );
    assert_eq!(
        f(DownloadingError::GetSourceFromResponse),
        Err(GetPriceError::ErrorDownloadingPage)
    );
}

#[test]
fn browser_strategy_extracts_too() {
    let scraper = PriceScraper::new(config(&[], &[("shop.example", ".price")]));
    let url = "http://shop.example/item";
    let r = scraper.get_price(url, fetched("<b class=\"price\">7,50</b>", url));
    assert_eq!(r, Ok(dec(750, 2)));
}

#[test]
fn potential_blocks_errors_classify() {
    let scraper = PriceScraper::new(config(&[("shop.example", "!!!")], &[]));
    let url = "http://shop.example/item";
    assert_eq!(
        scraper.get_potential_prices_blocks(url, fetched("<i>5</i>", url)),
        Err(GetPotentialPricesError::CannotParseCssSelector)
    );
    assert_eq!(
        scraper.get_potential_prices_blocks("http://elsewhere.example/x", fetched("", url)),
        Err(GetPotentialPricesError::PageNotSupported)
    );
    assert_eq!(
        scraper
            .get_potential_prices_blocks(url, DownloadOutcome::Failed(DownloadingError::Timeout)),
        Err(GetPotentialPricesError::CannotDownloadPage)
    );
}

#[test]
fn potential_blocks_lists_every_match() {
    let scraper = PriceScraper::new(config(&[("shop.example", ".price")], &[]));
    let url = "http://shop.example/item";
    let doc = "<span class=\"price\">19,99</span><span class=\"price\">5</span>";
    let blocks = scraper.get_potential_prices_blocks(url, fetched(doc, url)).unwrap();
    assert_eq!(blocks, vec!["19,99".to_string(), "5".to_string()]);
}
