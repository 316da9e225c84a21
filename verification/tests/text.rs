use ferrino::text::{ends_with, starts_with, str_eq};

#[test]
fn equality() {
    assert!(str_eq("abc", "abc"));
    assert!(!str_eq("abc", "abd"));
    assert!(!str_eq("abc", "ab"));
    assert!(str_eq("", ""));
}

#[test]
fn prefixes_and_suffixes() {
    assert!(starts_with("thumbv6m-none-eabi", "thumbv6m-"));
    assert!(!starts_with("thumbv6", "thumbv6m-"));
    assert!(starts_with("x", ""));
    assert!(ends_with("thumbv7em-none-eabihf", "-eabihf"));
    assert!(!ends_with("thumbv7em-none-eabi", "-eabihf"));
    assert!(ends_with("", ""));
}
