use indigo_poy::chain::normalize::{
    normalize_slot_time, parse_slot, parse_time_rfc3339, NormalizeError,
};

#[test]
fn normalize_slot() {
    let (slot, ts) = normalize_slot_time("12345").unwrap();
    assert_eq!(slot, Some(12345));
    assert_eq!(ts, None);
}

#[test]
fn normalize_time() {
    let (slot, ts) = normalize_slot_time("2026-02-08T05:32:54Z").unwrap();
    assert_eq!(slot, None);
    assert!(ts.is_some());
}

#[test]
fn normalize_empty() {
    let (slot, ts) = normalize_slot_time("").unwrap();
    assert_eq!(slot, None);
    assert_eq!(ts, None);
}

#[test]
fn normalize_time_exact_value() {
    let (slot, ts) = normalize_slot_time("2026-02-08T05:32:54Z").unwrap();
    assert_eq!(slot, None);
    assert_eq!(ts, Some(1_770_528_774));
    let (_, with_offset) = normalize_slot_time("1970-01-01T01:00:00+01:00").unwrap();
    assert_eq!(with_offset, Some(0));
}

#[test]
fn normalize_blank_is_neither() {
    let (slot, ts) = normalize_slot_time(" \t\n ").unwrap();
    assert_eq!(slot, None);
    assert_eq!(ts, None);
}

#[test]
fn normalize_trims_around_slot() {
    let (slot, ts) = normalize_slot_time("  42\n").unwrap();
    assert_eq!(slot, Some(42));
    assert_eq!(ts, None);
    let (plus, _) = normalize_slot_time("+7").unwrap();
    assert_eq!(plus, Some(7));
    let (max, _) = normalize_slot_time("18446744073709551615").unwrap();
    assert_eq!(max, Some(u64::MAX));
}

#[test]
fn normalize_never_sets_both() {
    let inputs = [
        "",
        "0",
        "12345",
        "2026-02-08T05:32:54Z",
        "2026-02-08T05:32:54+02:00",
        " 9 ",
        "   ",
    ];
    for input in inputs {
        let (slot, ts) = normalize_slot_time(input).unwrap();
        assert!(!(slot.is_some() && ts.is_some()));
    }
}

#[test]
fn normalize_names_the_invalid_value() {
    match normalize_slot_time("  not-a-time ") {
        Err(NormalizeError::InvalidTime(value)) => assert_eq!(value, "not-a-time"),
        other => panic!("unexpected: {:?}", other),
    }
    // a date without a time of day and an offset is no timestamp
    assert!(matches!(normalize_slot_time("2026-02-08"), Err(NormalizeError::InvalidTime(_))));
    // one more than u64::MAX is no slot, and no timestamp either
    assert!(matches!(
        normalize_slot_time("18446744073709551616"),
        Err(NormalizeError::InvalidTime(_))
    ));
    assert!(matches!(normalize_slot_time("-5"), Err(NormalizeError::InvalidTime(_))));
}

#[test]
fn parse_slot_reads_decimal() {
    assert_eq!(parse_slot(" 77 ").unwrap(), 77);
    match parse_slot("7x") {
        Err(NormalizeError::InvalidSlot(value)) => assert_eq!(value, "7x"),
        other => panic!("unexpected: {:?}", other),
    }
    assert!(parse_slot("").is_err());
    assert!(parse_slot("+").is_err());
    assert!(parse_slot("1_000").is_err());
    assert!(parse_slot("١٢").is_err());
}

#[test]
fn parse_time_reads_rfc3339() {
    assert_eq!(parse_time_rfc3339(" 1970-01-01T00:00:10Z ").unwrap(), 10);
    match parse_time_rfc3339("yesterday") {
        Err(NormalizeError::InvalidTime(value)) => assert_eq!(value, "yesterday"),
        other => panic!("unexpected: {:?}", other),
    }
}

#[test]
fn normalize_error_message() {
    let e = NormalizeError::InvalidSlot("abc".to_string());
    assert_eq!(e.message(), "invalid slot: abc");
    let e = NormalizeError::InvalidTime("xyz".to_string());
    assert_eq!(e.message(), "invalid time: xyz");
}
