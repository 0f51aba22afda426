use indigo_poy::compute::metrics::{compute_metrics, ComputeInput};
use indigo_poy::indigo::events::{Event, EventKind, IndigoEvents, PremiumRate, Timestamp};
use indigo_poy::json::{put, to_compact_text, JsonMember, JsonNumber, JsonValue};
use indigo_poy::verify::bundle::{
    compare_hashes, normalize_for_hash, reproducibility_hash, verify_against, verify_bundle_hash,
    EvidenceBundle, VerificationOutcome, VerificationResult, VerifyError, BUNDLE_VERSION,
};
use indigo_poy::{reproducibility_hash as hash_from_root, IndigoEvents as EventsFromRoot};

fn object(pairs: Vec<(&str, JsonValue)>) -> JsonValue {
    let mut members: Vec<JsonMember> = Vec::new();
    for (k, v) in pairs {
        put(&mut members, k, v);
    }
    JsonValue::object(members)
}

fn frozen(events: IndigoEvents) -> EvidenceBundle {
    let metrics = compute_metrics(&ComputeInput {
        events: events.clone(),
        period_start_ts: None,
        period_end_ts: None,
        current_ada_position: None,
    });
    EvidenceBundle::created_at(
        "2026-02-12T10:00:00Z".to_string(),
        "addr1".to_string(),
        vec!["tx1".into()],
        vec![],
        vec![],
        events,
        metrics,
        vec![100],
    )
}

fn deposit(hash: &str, seconds: i64) -> Event {
    Event {
        kind: EventKind::StabilityPoolDeposit {
            amount_lovelace: 5,
            iasset_amount: Some("p$n".into()),
            tx_hash: hash.into(),
        },
        timestamp: Timestamp { unix_seconds: seconds, nanosecond: 0 },
        slot: Some(3),
        tx_hash: hash.into(),
        extra: None,
    }
}

#[test]
fn normalize_deterministic() {
    let a = object(vec![("z", JsonValue::number(1)), ("a", JsonValue::number(2))]);
    let b = object(vec![("a", JsonValue::number(2)), ("z", JsonValue::number(1))]);
    let na = normalize_for_hash(&a).unwrap();
    let nb = normalize_for_hash(&b).unwrap();
    assert_eq!(na, nb);
}

#[test]
fn hash_deterministic() {
    let bundle = EvidenceBundle::new(
        "addr1".to_string(),
        vec!["tx1".into()],
        vec![],
        vec![],
        IndigoEvents::default(),
        Default::default(),
        vec![100],
    );
    let h1 = reproducibility_hash(&bundle).unwrap();
    let h2 = reproducibility_hash(&bundle).unwrap();
    assert_eq!(h1, h2);
    assert_eq!(h1.len(), 64);
}

#[test]
fn integration_bundle_hash_deterministic() {
    let bundle = EvidenceBundle::new(
        "addr1".to_string(),
        vec!["tx1".into(), "tx2".into()],
        vec![],
        vec![],
        EventsFromRoot::default(),
        Default::default(),
        vec![100, 101],
    );
    let h1 = hash_from_root(&bundle).unwrap();
    let h2 = hash_from_root(&bundle).unwrap();
    assert_eq!(h1, h2);
}

#[test]
fn normalized_text_is_exact() {
    let v = object(vec![
        ("z", JsonValue::number(1)),
        (
            "a",
            JsonValue::array(vec![
                JsonValue::Null,
                JsonValue::Bool(true),
                JsonValue::Bool(false),
                JsonValue::signed(-7),
                JsonValue::signed(i64::MIN),
                JsonValue::number(u64::MAX),
                JsonValue::Number(JsonNumber::Literal("1.5e3".to_string())),
                object(vec![("b", JsonValue::text("x")), ("a", JsonValue::array(vec![]))]),
            ]),
        ),
        ("m", object(vec![])),
    ]);
    assert_eq!(
        normalize_for_hash(&v).unwrap(),
        r#"{"a":[null,true,false,-7,-9223372036854775808,18446744073709551615,1.5e3,{"a":[],"b":"x"}],"m":{},"z":1}"#
    );
    // without sorting the members stay as they stand
    assert_eq!(
        to_compact_text(&object(vec![("z", JsonValue::number(1)), ("a", JsonValue::number(2))])),
        r#"{"z":1,"a":2}"#
    );
}

#[test]
fn keys_are_ordered_by_bytes_and_equal_keys_keep_their_order() {
    let v = object(vec![
        ("b", JsonValue::number(1)),
        ("é", JsonValue::number(2)),
        ("B", JsonValue::number(3)),
        ("", JsonValue::number(4)),
        ("b", JsonValue::number(5)),
        ("ab", JsonValue::number(6)),
        ("a", JsonValue::number(7)),
    ]);
    assert_eq!(
        normalize_for_hash(&v).unwrap(),
        r#"{"":4,"B":3,"a":7,"ab":6,"b":1,"b":5,"é":2}"#
    );
}

#[test]
fn strings_are_escaped_as_json() {
    let v = JsonValue::text("a\"b\\c\n\r\t\u{8}\u{c}\u{1}\u{1f}\u{7f}é/");
    assert_eq!(
        to_compact_text(&v),
        "\"a\\\"b\\\\c\\n\\r\\t\\b\\f\\u0001\\u001f\u{7f}é/\""
    );
    assert_eq!(to_compact_text(&JsonValue::text("")), "\"\"");
    let keyed = object(vec![("k\"", JsonValue::Null)]);
    assert_eq!(to_compact_text(&keyed), "{\"k\\\"\":null}");
}

#[test]
fn bundle_document_is_exact() {
    let mut events = IndigoEvents::default();
    events.stability_pool.push(deposit("h1", 0));
    events.rob.push(Event {
        kind: EventKind::RobOrderFill {
            order_id: None,
            filled_lovelace: 110,
            premium_pct: Some(PremiumRate { gain_lovelace: 10, basis_lovelace: 100 }),
            reimbursement_pct: None,
            tx_hash: "h2".into(),
            slot: None,
        },
        timestamp: Timestamp { unix_seconds: 1_770_528_774, nanosecond: 500_000_000 },
        slot: None,
        tx_hash: "h2".into(),
        extra: Some(JsonValue::Bool(true)),
    });
    let bundle = frozen(events);
    let text = to_compact_text(&bundle.to_json().unwrap());
    let expected = concat_all(&[
        r#"{"version":1,"address":"addr1","created_utc_rfc3339":"2026-02-12T10:00:00Z","#,
        r#""tx_hashes":["tx1"],"input_refs":[],"api_response_hashes":[],"#,
        r#""events":{"stability_pool":[{"kind":{"kind":"stability_pool_deposit","#,
        r#""amount_lovelace":5,"iasset_amount":"p$n","tx_hash":"h1"},"#,
        r#""timestamp":"1970-01-01T00:00:00Z","slot":3,"tx_hash":"h1","extra":null}],"#,
        r#""rob":[{"kind":{"kind":"rob_order_fill","order_id":null,"filled_lovelace":110,"#,
        r#""premium_pct":{"gain_lovelace":10,"basis_lovelace":100},"reimbursement_pct":null,"#,
        r#""tx_hash":"h2","slot":null},"timestamp":"2026-02-08T05:32:54.5Z","slot":null,"#,
        r#""tx_hash":"h2","extra":true}],"indy_staking":[],"other":[]},"#,
        r#""metrics":{"stability_pool":{"total_deposits_lovelace":5,"#,
        r#""total_withdrawals_lovelace":0,"total_liquidations_ada_received_lovelace":0,"#,
        r#""total_realized_premium_lovelace":0,"net_ada_from_liquidations_lovelace":0,"#,
        r#""liquidation_count":0},"rob":{"total_placed_lovelace":0,"#,
        r#""total_filled_lovelace":110,"total_premium_received_lovelace":11,"#,
        r#""premium_samples":[{"gain_lovelace":10,"basis_lovelace":100}],"fill_count":1},"#,
        r#""indy_staking":{"total_rewards_lovelace":0,"total_sp_premium_lovelace":0,"#,
        r#""reward_tx_count":0},"combined":{"total_ada_in_lovelace":5,"#,
        r#""total_ada_out_lovelace":110,"net_pnl_lovelace":105,"apr_pct":null},"#,
        r#""dilution":null},"fetched_at_slots":[100]}"#,
    ]);
    assert_eq!(text, expected);
}

fn concat_all(parts: &[&str]) -> String {
    let mut out = String::new();
    for p in parts {
        out.push_str(p);
    }
    out
}

#[test]
fn hash_is_sha256_of_the_canonical_text() {
    let bundle = frozen(IndigoEvents::default());
    let text = normalize_for_hash(&bundle.to_json().unwrap()).unwrap();
    let h = reproducibility_hash(&bundle).unwrap();
    assert_eq!(h, indigo_poy::chain::cache::Cache::key_for(&text));
    assert!(text.starts_with(r#"{"address":"addr1","api_response_hashes":[],"created_utc_rfc3339":"#));
    assert_eq!(h.len(), 64);
    assert!(h.chars().all(|c| c.is_ascii_digit() || ('a'..='f').contains(&c)));
    assert_eq!(h, reproducibility_hash(&bundle.clone()).unwrap());
}

#[test]
fn hash_covers_every_field() {
    let base = frozen(IndigoEvents::default());
    let h = reproducibility_hash(&base).unwrap();
    let mut b = base.clone();
    b.created_utc_rfc3339 = "2026-02-12T10:00:01Z".to_string();
    assert_ne!(reproducibility_hash(&b).unwrap(), h);
    let mut b = base.clone();
    b.address = "addr2".to_string();
    assert_ne!(reproducibility_hash(&b).unwrap(), h);
    let mut b = base.clone();
    b.version = 2;
    assert_ne!(reproducibility_hash(&b).unwrap(), h);
    let mut b = base.clone();
    b.tx_hashes.push("tx2".to_string());
    assert_ne!(reproducibility_hash(&b).unwrap(), h);
    let mut b = base.clone();
    b.input_refs.push("r".to_string());
    assert_ne!(reproducibility_hash(&b).unwrap(), h);
    let mut b = base.clone();
    b.api_response_hashes.push("r".to_string());
    assert_ne!(reproducibility_hash(&b).unwrap(), h);
    let mut b = base.clone();
    b.fetched_at_slots.push(1);
    assert_ne!(reproducibility_hash(&b).unwrap(), h);
    let mut b = base.clone();
    b.metrics.combined.net_pnl_lovelace = -1;
    assert_ne!(reproducibility_hash(&b).unwrap(), h);
    let mut b = base.clone();
    b.events.other.push(deposit("h", 5));
    assert_ne!(reproducibility_hash(&b).unwrap(), h);
}

#[test]
fn hashing_fails_where_a_time_cannot_be_written() {
    for (seconds, nanos, ok) in [
        (-62_167_219_200i64, 0u32, true),
        (-62_167_219_201, 0, false),
        (253_402_300_799, 999_999_999, true),
        (253_402_300_800, 0, false),
        (0, 1_000_000_000, false),
    ] {
        let mut events = IndigoEvents::default();
        let mut e = deposit("h", seconds);
        e.timestamp.nanosecond = nanos;
        events.indy_staking.push(e);
        let bundle = frozen(events);
        assert_eq!(bundle.to_json().is_some(), ok);
        match reproducibility_hash(&bundle) {
            Ok(_) => assert!(ok),
            Err(VerifyError::Serialize(reason)) => {
                assert!(!ok);
                assert_eq!(reason, "timestamp out of range");
            }
            Err(other) => panic!("unexpected: {:?}", other),
        }
        assert_eq!(verify_bundle_hash(&bundle, "00").is_ok(), ok);
    }
}

#[test]
fn verify_compares_without_case_and_outer_whitespace() {
    let bundle = frozen(IndigoEvents::default());
    let h = reproducibility_hash(&bundle).unwrap();
    let ok = verify_bundle_hash(&bundle, &format!("  {}\n", h.to_uppercase())).unwrap();
    assert!(ok.matches);
    assert_eq!(ok.bundle_hash, h);
    assert_eq!(ok.expected_hash, Some(h.clone()));
    let bad = verify_bundle_hash(&bundle, "deadbeef").unwrap();
    assert!(!bad.matches);
    assert_eq!(bad.bundle_hash, h);
    assert_eq!(bad.expected_hash, Some("deadbeef".to_string()));
}

#[test]
fn compare_hashes_is_exact() {
    let r = compare_hashes("AB".to_string(), "ab", "ab".to_string());
    assert!(r.matches);
    assert_eq!(r.bundle_hash, "AB");
    assert_eq!(r.expected_hash, Some("ab".to_string()));
    assert!(!compare_hashes("AB".to_string(), "ab", "abc".to_string()).matches);
    assert!(!compare_hashes("AB".to_string(), "ab", "".to_string()).matches);
}

#[test]
fn new_stamps_the_current_time_and_keeps_the_rest() {
    let b = EvidenceBundle::new(
        "addr1".to_string(),
        vec!["tx1".into()],
        vec!["ref".into()],
        vec!["api".into()],
        IndigoEvents::default(),
        Default::default(),
        vec![100],
    );
    assert_eq!(b.version, BUNDLE_VERSION);
    assert_eq!(b.version, 1);
    assert_eq!(b.address, "addr1");
    assert_eq!(b.tx_hashes, vec!["tx1".to_string()]);
    assert_eq!(b.input_refs, vec!["ref".to_string()]);
    assert_eq!(b.api_response_hashes, vec!["api".to_string()]);
    assert_eq!(b.fetched_at_slots, vec![100]);
    // the time of creation is a timestamp of today's calendar
    let created = indigo_poy::chain::normalize::parse_time_rfc3339(&b.created_utc_rfc3339).unwrap();
    assert!(created > 1_700_000_000);
}

#[test]
fn demo_bundle_is_fixed() {
    let d = EvidenceBundle::demo();
    assert_eq!(d.created_utc_rfc3339, "2026-02-12T10:00:00Z");
    assert_eq!(d.address, "addr1_demo (Indigo Proof-of-Yield sample)");
    assert_eq!(d.tx_hashes, vec!["demo_tx_1".to_string(), "demo_tx_2".to_string()]);
    assert_eq!(d.fetched_at_slots, vec![100_000, 100_100]);
    assert_eq!(d.metrics.stability_pool.liquidation_count, 23);
    assert_eq!(d.metrics.combined.net_pnl_lovelace, -50_730_000);
    assert_eq!(d.metrics.combined.total_ada_in_lovelace, 70_000_000);
    assert_eq!(d.metrics.rob.fill_count, 4);
    assert_eq!(
        reproducibility_hash(&d).unwrap(),
        reproducibility_hash(&EvidenceBundle::demo()).unwrap()
    );
}

#[test]
fn verify_error_message() {
    assert_eq!(VerifyError::Serialize("x".to_string()).message(), "serialize: x");
    assert_eq!(VerifyError::Io("y".to_string()).message(), "io: y");
}

#[test]
fn three_outcomes_are_told_apart() {
    let bundle = frozen(IndigoEvents::default());
    let h = reproducibility_hash(&bundle).unwrap();
    let ok = verify_against(&bundle, Some(&h)).unwrap();
    assert_eq!(ok.outcome(), VerificationOutcome::Verified);
    assert_eq!(ok.outcome().exit_status(), 0);
    let bad = verify_against(&bundle, Some("00")).unwrap();
    assert_eq!(bad.outcome(), VerificationOutcome::Mismatch);
    assert_eq!(bad.outcome().exit_status(), 1);
    let none = verify_against(&bundle, None).unwrap();
    assert_eq!(none.bundle_hash, h);
    assert!(none.expected_hash.is_none());
    assert!(!none.matches);
    assert_eq!(none.outcome(), VerificationOutcome::Inconclusive);
    assert_eq!(none.outcome().exit_status(), 2);
    let odd = VerificationResult { bundle_hash: h, expected_hash: None, matches: true };
    assert_eq!(odd.outcome(), VerificationOutcome::Verified);
}
