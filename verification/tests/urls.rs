use web_scraper::pattern::str_contains;
use web_scraper::urls::urls_equivalent;

#[test]
fn scheme_and_punctuation_are_ignored() {
    assert!(urls_equivalent("http://Ex.com/a", "https://ex.com/a!"));
    assert!(urls_equivalent("http://shop.example/item", "http://shop.example/item/"));
    assert!(urls_equivalent("https://shop.example/item", "shop.example/item"));
}

#[test]
fn different_path_or_host_is_a_redirect() {
    assert!(!urls_equivalent("http://ex.com/a", "http://ex.com/b"));
    assert!(!urls_equivalent("http://ex.com/a", "http://other.com/a"));
    assert!(!urls_equivalent("http://ex.com/item", "http://ex.com/item/gone"));
}

#[test]
fn case_is_folded() {
    assert!(urls_equivalent("HTTP://EX.COM/A", "http://ex.com/a"));
}

#[test]
fn substring_search() {
    assert!(str_contains("http://shop.example/item/3", "shop.example"));
    assert!(str_contains("abc", ""));
    assert!(str_contains("abc", "abc"));
    assert!(!str_contains("abc", "abcd"));
    assert!(!str_contains("http://shop.example/item", "other.shop"));
}
