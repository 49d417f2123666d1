use web_scraper::config::PriceScraperConfig;
use web_scraper::download::DownloadOutcome;
use web_scraper::download::DownloadingError;
use web_scraper::numeric::Decimal;
use web_scraper::price_scraper::GetPriceError;
use web_scraper::price_scraper::PriceScraper;
use web_scraper::retry::FairnessDecision;
use web_scraper::retry::RetryDecision;
use web_scraper::retry::fairness_start;
use web_scraper::retry::fairness_step;
use web_scraper::retry::retry_start;
use web_scraper::retry::retry_step;

const URL: &str = "http://shop.example/item";

fn scraper() -> PriceScraper {
    PriceScraper::new(PriceScraperConfig {
        user_agent: "agent".to_string(),
        database_url: String::new(),
        run_in_loop: false,
        interval: 60,
        reqwest_selectors: vec![("shop.example".to_string(), ".price".to_string())],
        fantoccini_selectors: Vec::new(),
    })
}

fn dec(mantissa: u64, scale: u32) -> Decimal {
    Decimal { mantissa, scale }
}

fn good(price_text: &str) -> DownloadOutcome {
    DownloadOutcome::Fetched {
        document: format!("<span class=\"price\">{}</span>", price_text),
        landed_url: URL.to_string(),
    }
}

fn timeout() -> DownloadOutcome {
    DownloadOutcome::Failed(DownloadingError::Timeout)
}

#[test]
fn retry_succeeds_after_transient_failures() {
    // two transient failures, then success, with budget two
    let downloads = vec![timeout(), timeout(), good("19,99")];
    let run = scraper().get_price_multiple_tries(URL, 2, &downloads);
    assert_eq!(run.result, Ok(dec(1999, 2)));
    assert_eq!(run.attempts, 3);
    assert_eq!(run.delays, vec![10, 20]);
}

#[test]
fn retry_fails_when_budget_spent() {
    // three transient failures against a budget of two
    let downloads = vec![timeout(), timeout(), timeout()];
    let run = scraper().get_price_multiple_tries(URL, 2, &downloads);
    assert_eq!(run.result, Err(GetPriceError::PageDownloadTimeout));
    assert_eq!(run.attempts, 3);
    assert_eq!(run.delays, vec![10, 20]);
}

#[test]
fn redirect_is_not_retried() {
    let downloads = vec![
        DownloadOutcome::Failed(DownloadingError::Redirection),
        good("19,99"),
        good("19,99"),
        good("19,99"),
    ];
    let run = scraper().get_price_multiple_tries(URL, 3, &downloads);
    assert_eq!(run.result, Err(GetPriceError::Redirected));
    assert_eq!(run.attempts, 1);
    assert!(run.delays.is_empty());
}

#[test]
fn missing_price_is_not_retried() {
    let no_price = DownloadOutcome::Fetched {
        document: "<span class=\"name\">Widget</span>".to_string(),
        landed_url: URL.to_string(),
    };
    let downloads = vec![no_price, good("19,99"), good("19,99"), good("19,99")];
    let run = scraper().get_price_multiple_tries(URL, 3, &downloads);
    assert_eq!(run.result, Err(GetPriceError::PriceNotFound));
    assert_eq!(run.attempts, 1);
}

#[test]
fn fairness_accepts_a_confirmed_reading() {
    // last known 100; the stub hands back 150, then 102
    let downloads = vec![good("150"), good("102"), good("102")];
    let run = scraper().get_price_multiple_tries_and_fairness(
        URL,
        0,
        2,
        Some(dec(100, 0)),
        &downloads,
    );
    assert_eq!(run.result, Ok(dec(102, 0)));
    assert_eq!(run.consumed, 2);
    assert_eq!(run.rechecks, 1);
    assert_eq!(run.delays, vec![10]);
}

#[test]
fn fairness_gives_back_a_persistent_reading() {
    // the deviating price survives every re-check, so it is trusted
    let downloads = vec![good("150"), good("150"), good("150")];
    let run = scraper().get_price_multiple_tries_and_fairness(
        URL,
        0,
        2,
        Some(dec(100, 0)),
        &downloads,
    );
    assert_eq!(run.result, Ok(dec(150, 0)));
    assert_eq!(run.consumed, 3);
    assert_eq!(run.rechecks, 2);
    assert_eq!(run.delays, vec![10, 20]);
}

#[test]
fn fairness_needs_a_last_price() {
    let downloads = vec![good("150")];
    let run = scraper().get_price_multiple_tries_and_fairness(URL, 0, 0, None, &downloads);
    assert_eq!(run.result, Ok(dec(150, 0)));
    assert_eq!(run.consumed, 1);
    assert_eq!(run.rechecks, 0);
}

#[test]
fn fairness_propagates_a_failing_recheck() {
    let downloads = vec![
        good("150"),
        DownloadOutcome::Failed(DownloadingError::Redirection),
        good("150"),
    ];
    let run = scraper().get_price_multiple_tries_and_fairness(
        URL,
        0,
        2,
        Some(dec(100, 0)),
        &downloads,
    );
    assert_eq!(run.result, Err(GetPriceError::Redirected));
    assert_eq!(run.consumed, 2);
    assert_eq!(run.rechecks, 1);
}

#[test]
fn retry_steps_walk_the_backoff() {
    let st = retry_start(2);
    assert_eq!(st.tries_left, 2);
    assert_eq!(st.next_delay, 10);
    let transient: Result<Decimal, _> =
        Err(web_scraper::price_scraper::AttemptError::Transient(
            web_scraper::price_scraper::TransientError::Timeout,
        ));
    match retry_step(st, transient) {
        RetryDecision::RetryAfter(delay, next) => {
            assert_eq!(delay, 10);
            assert_eq!(next.tries_left, 1);
            assert_eq!(next.next_delay, 20);
        },
        RetryDecision::Finish(_) => panic!("a transient failure with budget left must retry"),
    }
    match retry_step(st, Ok(dec(1999, 2))) {
        RetryDecision::Finish(r) => assert_eq!(r, Ok(dec(1999, 2))),
        RetryDecision::RetryAfter(_, _) => panic!("a success must finish the run"),
    }
}

#[test]
fn fairness_steps_recheck_suspicious_readings() {
    let st = fairness_start(2, Some(dec(100, 0)));
    match fairness_step(st, Ok(dec(150, 0))) {
        FairnessDecision::RecheckAfter(delay, next) => {
            assert_eq!(delay, 10);
            assert_eq!(next.rechecks_left, 1);
            assert_eq!(next.next_delay, 20);
        },
        FairnessDecision::Finish(_) => panic!("a suspicious reading with budget left re-checks"),
    }
    match fairness_step(st, Ok(dec(102, 0))) {
        FairnessDecision::Finish(r) => assert_eq!(r, Ok(dec(102, 0))),
        FairnessDecision::RecheckAfter(_, _) => panic!("a near reading finishes the run"),
    }
}
