use gif_relay::config::{
    dest_channel_from_value, domains_from_value, grace_millis_from_value, parse_u64_dec,
    split_list,
};
use gif_relay::text::u64_to_dec;

#[test]
fn decimal_parsing_is_exact() {
    assert_eq!(parse_u64_dec("0"), Some(0));
    assert_eq!(parse_u64_dec("12345"), Some(12345));
    assert_eq!(parse_u64_dec("18446744073709551615"), Some(u64::MAX));
    assert_eq!(parse_u64_dec("18446744073709551616"), None);
    assert_eq!(parse_u64_dec("99999999999999999999999"), None);
    assert_eq!(parse_u64_dec(""), None);
    assert_eq!(parse_u64_dec("12x"), None);
    assert_eq!(parse_u64_dec("-3"), None);
    assert_eq!(parse_u64_dec(" 3"), None);
}

#[test]
fn destination_channel_requires_a_valid_identifier() {
    assert_eq!(dest_channel_from_value(&Some("900".to_string())), Some(900));
    assert_eq!(dest_channel_from_value(&Some("nope".to_string())), None);
    assert_eq!(dest_channel_from_value(&None), None);
}

#[test]
fn grace_delay_falls_back_to_default() {
    assert_eq!(grace_millis_from_value(&None), 10000);
    assert_eq!(grace_millis_from_value(&Some("5".to_string())), 5000);
    assert_eq!(grace_millis_from_value(&Some("0".to_string())), 0);
    assert_eq!(grace_millis_from_value(&Some("soon".to_string())), 10000);
    assert_eq!(grace_millis_from_value(&Some("".to_string())), 10000);
    assert_eq!(
        grace_millis_from_value(&Some("18446744073709551615".to_string())),
        10000
    );
}

#[test]
fn domain_list_splits_on_semicolons() {
    assert_eq!(
        split_list("tenor.com;giphy.com"),
        vec!["tenor.com".to_string(), "giphy.com".to_string()]
    );
    assert_eq!(split_list("a.com;;b.com;"), vec!["a.com".to_string(), "b.com".to_string()]);
    assert_eq!(split_list(";;"), Vec::<String>::new());
    assert_eq!(split_list(""), Vec::<String>::new());
}

#[test]
fn domain_list_defaults_when_absent() {
    assert_eq!(
        domains_from_value(&None),
        vec!["tenor.com".to_string(), "giphy.com".to_string()]
    );
    assert_eq!(
        domains_from_value(&Some("x.dev".to_string())),
        vec!["x.dev".to_string()]
    );
}

#[test]
fn decimal_rendering_is_exact() {
    assert_eq!(u64_to_dec(0), "0");
    assert_eq!(u64_to_dec(7), "7");
    assert_eq!(u64_to_dec(9876543210), "9876543210");
    assert_eq!(u64_to_dec(u64::MAX), "18446744073709551615");
}
