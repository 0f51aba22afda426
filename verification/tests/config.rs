use indigo_poy::indigo::protocol_config::{contains_text, IndigoV2Config};
use indigo_poy::text::{format_millionths, parse_u64, str_eq, str_lt, strip_hex_prefix, trim};

fn with_policies(ids: &[&str]) -> IndigoV2Config {
    IndigoV2Config {
        iasset_policy_ids: ids.iter().map(|s| s.to_string()).collect(),
        ..IndigoV2Config::default()
    }
}

#[test]
fn empty_lists_accept_anything() {
    let c = IndigoV2Config::default();
    assert!(!c.has_iasset_policy_ids());
    assert!(!c.has_stability_pool_datum_hashes());
    assert!(!c.has_rob_datum_hashes());
    assert!(c.is_known_iasset_policy("whatever"));
    assert!(c.is_known_iasset_policy(""));
    assert!(c.is_stability_pool_datum(Some("abc")));
    assert!(c.is_stability_pool_datum(None));
    assert!(c.is_rob_datum(Some("abc")));
    assert!(c.is_rob_datum(None));
    assert!(c.indy_policy_id.is_none());
    assert!(c.stability_pool_script_hashes.is_empty());
    assert!(c.rob_script_hashes.is_empty());
}

#[test]
fn listed_ids_match_without_case_and_prefix() {
    let plain = with_policies(&["abcd"]);
    assert!(plain.is_known_iasset_policy("0XABCD"));
    let upper = with_policies(&["0XABCD"]);
    assert!(upper.is_known_iasset_policy("abcd"));
    assert!(upper.is_known_iasset_policy("0xabcd"));
    let c = with_policies(&["0xABcd12", " ff00 "]);
    assert!(c.has_iasset_policy_ids());
    assert!(c.is_known_iasset_policy("abcd12"));
    assert!(c.is_known_iasset_policy("ABCD12"));
    assert!(c.is_known_iasset_policy("0xabCD12"));
    assert!(c.is_known_iasset_policy("  0x0xabcd12\n"));
    assert!(c.is_known_iasset_policy("FF00"));
    assert!(!c.is_known_iasset_policy("abcd1"));
    assert!(!c.is_known_iasset_policy("abcd123"));
    assert!(!c.is_known_iasset_policy(""));
    assert!(c.is_known_iasset_policy("0Xabcd12"));
    assert!(c.is_known_iasset_policy("0XABCD12"));
    assert!(c.is_known_iasset_policy("0X0xABCD12"));
    assert!(!c.is_known_iasset_policy("x0abcd12"));
}

#[test]
fn a_missing_datum_passes_only_where_nothing_is_listed() {
    let mut c = IndigoV2Config::default();
    c.stability_pool_datum_hashes = vec!["D1".to_string()];
    assert!(c.has_stability_pool_datum_hashes());
    assert!(!c.is_stability_pool_datum(None));
    assert!(c.is_stability_pool_datum(Some("0xd1")));
    assert!(!c.is_stability_pool_datum(Some("d2")));
    assert!(c.is_rob_datum(None));
    c.rob_datum_hashes = vec!["0xEE".to_string()];
    assert!(c.has_rob_datum_hashes());
    assert!(!c.is_rob_datum(None));
    assert!(c.is_rob_datum(Some(" ee ")));
    assert!(!c.is_rob_datum(Some("d1")));
}

#[test]
fn norm_hex_lowers_strips_and_trims() {
    assert_eq!(IndigoV2Config::norm_hex("  0xABCDEF  "), "abcdef");
    assert_eq!(IndigoV2Config::norm_hex("ABC"), "abc");
    assert_eq!(IndigoV2Config::norm_hex("0x0x1"), "1");
    assert_eq!(IndigoV2Config::norm_hex("0X1"), "1");
    assert_eq!(IndigoV2Config::norm_hex(" 0X0xAb "), "ab");
    assert_eq!(IndigoV2Config::norm_hex("X0x1"), "x0x1");
    assert_eq!(IndigoV2Config::norm_hex("0x"), "");
    assert_eq!(IndigoV2Config::norm_hex("ÄÖ"), "äö");
    assert_eq!(
        IndigoV2Config::norm_hex_all(&vec!["0xA".to_string(), " b".to_string()]),
        vec!["a".to_string(), "b".to_string()]
    );
    assert!(IndigoV2Config::list_admits(&vec![], "x"));
    assert!(IndigoV2Config::list_admits(&vec!["0xA".to_string()], "a"));
    assert!(!IndigoV2Config::list_admits(&vec!["0xA".to_string()], "b"));
}

#[test]
fn contains_text_is_exact() {
    let list = vec!["a".to_string(), "bc".to_string()];
    assert!(contains_text(&list, "a"));
    assert!(contains_text(&list, "bc"));
    assert!(!contains_text(&list, "A"));
    assert!(!contains_text(&list, "b"));
    assert!(!contains_text(&vec![], ""));
}

#[test]
fn trim_follows_unicode_whitespace() {
    assert_eq!(trim("  a b  "), "a b");
    assert_eq!(trim("\u{2003}\u{a0}x\u{3000}\u{85}\u{1680}"), "x");
    assert_eq!(trim("\t\n\u{b}\u{c}\r "), "");
    assert_eq!(trim(""), "");
    // U+200B is no whitespace
    assert_eq!(trim("\u{200b}x"), "\u{200b}x");
    for s in ["", " ", " a", "a ", "\u{2028}a\u{2029}", "\u{202f}\u{205f}", "é ", "\u{1c}z"] {
        assert_eq!(trim(s), s.trim());
    }
    assert_eq!(strip_hex_prefix("0x0x0"), "0");
    assert_eq!(strip_hex_prefix("0"), "0");
    assert_eq!(strip_hex_prefix("x0x"), "x0x");
    assert_eq!(strip_hex_prefix(""), "");
}

#[test]
fn parse_u64_follows_the_decimal_grammar() {
    for s in [
        "", "0", "00012", "+", "+0", "+12", "++1", "-0", "12a", " 12", "12 ", "1 2",
        "18446744073709551615", "18446744073709551616", "99999999999999999999999", "١", "1é",
        "+é", "é", "0x10",
    ] {
        assert_eq!(parse_u64(s), s.parse::<u64>().ok());
    }
}

#[test]
fn strings_compare_by_bytes() {
    let words = ["", "a", "A", "ab", "b", "é", "z", "zz", "\u{10000}", "\u{ffff}", "0", "00"];
    for a in words {
        for b in words {
            assert_eq!(str_lt(a, b), a < b);
            assert_eq!(str_eq(a, b), a == b);
        }
    }
}

#[test]
fn millionths_are_written_as_decimal_fractions() {
    assert_eq!(format_millionths(9_700_000, 1), "9.7");
    assert_eq!(format_millionths(9_700_000, 2), "9.70");
    assert_eq!(format_millionths(9_749_999, 1), "9.7");
    assert_eq!(format_millionths(9_750_000, 1), "9.8");
    assert_eq!(format_millionths(9_999_999, 2), "10.00");
    assert_eq!(format_millionths(0, 0), "0");
    assert_eq!(format_millionths(499_999, 0), "0");
    assert_eq!(format_millionths(500_000, 0), "1");
    assert_eq!(format_millionths(1, 6), "0.000001");
    assert_eq!(format_millionths(1, 5), "0.00000");
    assert_eq!(format_millionths(5, 5), "0.00001");
    assert_eq!(format_millionths(1_000_001, 200), "1.000001");
    assert_eq!(format_millionths(123_456_789, 3), "123.457");
    assert_eq!(format_millionths(490_000, 2), "0.49");
    assert_eq!(
        format_millionths(u128::MAX, 6),
        "340282366920938463463374607431768.211455"
    );
    assert_eq!(format_millionths(u128::MAX, 0), "340282366920938463463374607431768");
    assert_eq!(format_millionths(u128::MAX, 1), "340282366920938463463374607431768.2");
    // away from ties this is what the formatting of a double gives
    for (m, places) in
        [(0u128, 2usize), (5, 2), (1_004_999, 2), (1_005_001, 2), (33_333_333, 1), (1_999_999, 3)]
    {
        let expected = format!("{:.*}", places, m as f64 / 1e6);
        assert_eq!(format_millionths(m, places as u8), expected);
    }
    // a tie goes up
    assert_eq!(format_millionths(1_005_000, 2), "1.01");
    assert_eq!(format_millionths(1_050_000, 1), "1.1");
}
