use web_scraper::email::crop_string;

#[test]
fn test1() {
    assert_eq!(crop_string("Hello World", 5), "Hello...");
}

#[test]
fn test2() {
    assert_eq!(crop_string("Hello", 5), "Hello");
}

#[test]
fn test3() {
    assert_eq!(crop_string("", 8), "");
}

#[test]
fn test4() {
    assert_eq!(crop_string("Hello World", 0), "...");
}
