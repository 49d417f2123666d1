use web_scraper::models::Availability;
use web_scraper::models::Price;
use web_scraper::numeric::Decimal;
use web_scraper::price_scraper::GetPriceError;
use web_scraper::tasks::Stats;
use web_scraper::tasks::classify_price_result;
use web_scraper::tasks::notification_decision;

fn dec(mantissa: u64, scale: u32) -> Decimal {
    Decimal { mantissa, scale }
}

fn available(id: i32, value: u64) -> Price {
    Price {
        id,
        offer_id: 1,
        value: Some(dec(value, 0)),
        created_at: 1_700_000_000 + id as i64,
        availability: Availability::Available,
    }
}

fn unavailable(id: i32, availability: Availability) -> Price {
    Price { id, offer_id: 1, value: None, created_at: 1_700_000_000 + id as i64, availability }
}

#[test]
fn notifies_on_a_price_drop() {
    // newest first: the price fell from 100 to 90
    let history = vec![available(2, 90), available(1, 100)];
    let r = notification_decision(&history);
    let (new, previous) = r.expect("a drop notifies");
    assert_eq!(new.value, Some(dec(90, 0)));
    assert_eq!(previous.value, Some(dec(100, 0)));
}

#[test]
fn does_not_notify_on_a_rise() {
    let history = vec![available(2, 100), available(1, 90)];
    assert!(notification_decision(&history).is_none());
}

#[test]
fn does_not_notify_on_an_equal_price() {
    let history = vec![available(2, 90), available(1, 90)];
    assert!(notification_decision(&history).is_none());
}

#[test]
fn one_available_row_is_not_enough() {
    let history = vec![unavailable(2, Availability::PriceNotFound), available(1, 100)];
    assert!(notification_decision(&history).is_none());
}

#[test]
fn filtering_skips_non_available_rows() {
    let history = vec![
        available(3, 90),
        unavailable(2, Availability::Unavailable),
        available(1, 100),
    ];
    let r = notification_decision(&history);
    let (new, previous) = r.expect("the two available rows compare");
    assert_eq!(new.value, Some(dec(90, 0)));
    assert_eq!(previous.value, Some(dec(100, 0)));
}

#[test]
fn empty_history_does_not_notify() {
    assert!(notification_decision(&Vec::new()).is_none());
}

#[test]
fn outcomes_map_to_rows() {
    let ok: Result<Decimal, GetPriceError> = Ok(dec(1999, 2));
    let row = classify_price_result(5, &ok).unwrap();
    assert_eq!(row.offer_id, 5);
    assert_eq!(row.value, Some(dec(1999, 2)));
    assert!(matches!(row.availability, Availability::Available));

    let row = classify_price_result(5, &Err(GetPriceError::PriceNotFound)).unwrap();
    assert_eq!(row.value, None);
    assert!(matches!(row.availability, Availability::PriceNotFound));

    let row = classify_price_result(5, &Err(GetPriceError::Redirected)).unwrap();
    assert!(matches!(row.availability, Availability::SiteNotFound));

    let row = classify_price_result(5, &Err(GetPriceError::ErrorDownloadingPage)).unwrap();
    assert!(matches!(row.availability, Availability::Unavailable));

    let row = classify_price_result(5, &Err(GetPriceError::PageDownloadTimeout)).unwrap();
    assert!(matches!(row.availability, Availability::Unavailable));

    assert!(classify_price_result(5, &Err(GetPriceError::PageNotSupported)).is_none());
}

#[test]
fn counters_fold_outcome_categories() {
    let mut stats = Stats { all: 4, ..Stats::default() };
    stats.record(&Ok(dec(1999, 2)));
    stats.record(&Err(GetPriceError::PriceNotFound));
    stats.record(&Err(GetPriceError::PageDownloadTimeout));
    stats.record(&Err(GetPriceError::PageNotSupported));
    assert_eq!(stats.success, 1);
    assert_eq!(stats.price_not_found, 1);
    assert_eq!(stats.other_error, 1);
    assert_eq!(stats.page_not_supported, 1);
    assert_eq!(stats.redirected, 0);
    assert_eq!(stats.all, 4);
    assert_eq!(stats.done(), 4);
}
