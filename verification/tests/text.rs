use grok_image::text::{decimal_string, replace, str_trim, to_ascii_lowercase};

#[test]
fn text_helpers() {
    assert_eq!(str_trim("\u{3000} a b \n\u{2028}"), "a b");
    assert_eq!(str_trim("   "), "");
    assert_eq!(to_ascii_lowercase("NorthWest_É"), "northwest_É");
    assert_eq!(replace("{p}{p}x{p", "{p}", "ab"), "ababx{p");
    assert_eq!(decimal_string(0), "0");
    assert_eq!(decimal_string(18446744073709551615), "18446744073709551615");
}
