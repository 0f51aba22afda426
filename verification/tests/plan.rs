use indigo_poy::chain::cache::Cache;
use indigo_poy::chain::fetch::{
    list_or_empty, object_or_parse_error, plan_account_txs, plan_address_utxos, plan_tx_utxos,
    request_url, FetchConfig, FetchError,
};
use indigo_poy::chain::normalize::NormalizeError;

#[test]
fn account_txs_plan_is_exact() {
    let r = plan_account_txs("addr1\"x", Some(" 12 "), None).unwrap();
    assert_eq!(r.path, "/account_txs");
    assert_eq!(r.post_body.as_deref(), Some(r#"{"_addresses":["addr1\"x"]}"#));
    assert_eq!(r.cache_key, Cache::key_for(r#"{"address":"addr1\"x","from":12,"to":null}"#));

    let r = plan_account_txs("a", None, Some("7")).unwrap();
    assert_eq!(r.cache_key, Cache::key_for(r#"{"address":"a","from":null,"to":7}"#));
    // a time or a blank end names no slot
    let r = plan_account_txs("a", Some("2026-02-08T05:32:54Z"), Some("  ")).unwrap();
    assert_eq!(r.cache_key, Cache::key_for(r#"{"address":"a","from":null,"to":null}"#));
    let open = plan_account_txs("a", None, None).unwrap();
    assert_eq!(open.cache_key, r.cache_key);
}

#[test]
fn account_txs_plan_refuses_a_bad_range() {
    match plan_account_txs("a", Some("soon"), Some("later")) {
        Err(FetchError::Normalize(NormalizeError::InvalidTime(v))) => assert_eq!(v, "soon"),
        other => panic!("unexpected: {:?}", other),
    }
    match plan_account_txs("a", Some("1"), Some("later")) {
        Err(FetchError::Normalize(NormalizeError::InvalidTime(v))) => assert_eq!(v, "later"),
        other => panic!("unexpected: {:?}", other),
    }
}

#[test]
fn utxo_plans_are_exact() {
    let r = plan_address_utxos("addr1 q/é~-_.Z9");
    assert_eq!(r.path, "/address_utxos?_address=addr1%20q%2F%C3%A9~-_.Z9");
    assert!(r.post_body.is_none());
    assert_eq!(r.cache_key, Cache::key_for(r#"{"address":"addr1 q/é~-_.Z9"}"#));

    let r = plan_tx_utxos("abc&123");
    assert_eq!(r.path, "/tx_utxos?_tx_hash=abc%26123");
    assert!(r.post_body.is_none());
    assert_eq!(r.cache_key, Cache::key_for(r#"{"tx_hash":"abc&123"}"#));
    assert_eq!(plan_tx_utxos("").path, "/tx_utxos?_tx_hash=");
}

#[test]
fn url_drops_trailing_slashes_of_the_base() {
    let mut c = FetchConfig::default();
    assert_eq!(request_url(&c, "/account_txs"), "https://api.koios.rest/api/v1/account_txs");
    c.base_url = "http://h/api///".to_string();
    assert_eq!(request_url(&c, "/x?y=1"), "http://h/api/x?y=1");
    c.base_url = "///".to_string();
    assert_eq!(request_url(&c, "/x"), "/x");
}

#[test]
fn malformed_lists_degrade_and_malformed_objects_fail() {
    assert_eq!(list_or_empty(Some(vec![1, 2])), vec![1, 2]);
    assert_eq!(list_or_empty::<u8>(None), Vec::<u8>::new());
    assert_eq!(object_or_parse_error(Ok::<u8, String>(3)).unwrap(), 3);
    match object_or_parse_error::<u8>(Err("eof".to_string())) {
        Err(FetchError::Api(status, body)) => {
            assert_eq!(status, 0);
            assert_eq!(body, "parse tx_utxos: eof");
        }
        other => panic!("unexpected: {:?}", other),
    }
}

#[test]
fn fetch_error_messages() {
    assert_eq!(FetchError::Request("reset".to_string()).message(), "request: reset");
    assert_eq!(FetchError::Cache("full".to_string()).message(), "cache: full");
    assert_eq!(
        FetchError::Normalize(NormalizeError::InvalidSlot("x".to_string())).message(),
        "normalize: invalid slot: x"
    );
    assert_eq!(
        FetchError::Normalize(NormalizeError::InvalidTime("y".to_string())).message(),
        "normalize: invalid time: y"
    );
    assert_eq!(
        FetchError::Api(503, "busy".to_string()).message(),
        "api error: status 503 body busy"
    );
    assert_eq!(FetchError::Api(0, String::new()).message(), "api error: status 0 body ");
    assert_eq!(FetchError::OfflineMiss.message(), "offline mode: no cached data for key");
}
