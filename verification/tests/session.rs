use indigo_poy::chain::fetch::{FetchConfig, FetchError};
use indigo_poy::chain::session::{
    backoff_delay, rate_limit_delay, step, FetchAction, FetchEvent, FetchState,
};

fn online() -> FetchConfig {
    FetchConfig::default()
}

fn offline() -> FetchConfig {
    FetchConfig { offline: true, ..FetchConfig::default() }
}

/// What a scripted request came to.
struct Outcome {
    action: FetchAction,
    sleeps: Vec<u64>,
    sends: usize,
    stored: Vec<String>,
}

/// Runs a request against a scripted upstream: `responses` are the outcomes
/// of the attempts, in order; `store_fails` is what the store says where it
/// does not take a body.
fn run_full(
    config: &FetchConfig,
    has_cache: bool,
    cached: Option<&str>,
    elapsed_ms: Option<i128>,
    responses: &[Result<(u16, &str), &str>],
    store_fails: Option<&str>,
) -> Outcome {
    let mut sleeps = Vec::new();
    let mut stored = Vec::new();
    let mut sends = 0usize;
    let (mut state, mut action) = step(config, has_cache, FetchState::Start, FetchEvent::Begin);
    for _ in 0..100 {
        let event = match &action {
            FetchAction::LookupCache => match cached {
                Some(body) => FetchEvent::CacheHit(body.to_string()),
                None => FetchEvent::CacheMiss,
            },
            FetchAction::ReadClock => FetchEvent::Clock { elapsed_ms },
            FetchAction::Sleep { ms } => {
                sleeps.push(*ms);
                FetchEvent::Slept
            }
            FetchAction::Send { attempt } => {
                assert_eq!(*attempt as usize, sends);
                let r = &responses[sends];
                sends += 1;
                match r {
                    Ok((status, body)) => {
                        FetchEvent::Response { status: *status, body: body.to_string() }
                    }
                    Err(reason) => FetchEvent::TransportFailed(reason.to_string()),
                }
            }
            FetchAction::Store { body } => {
                assert!(has_cache);
                assert_eq!(state, FetchState::Storing { body: body.clone() });
                match store_fails {
                    Some(reason) => FetchEvent::StoreFailed(reason.to_string()),
                    None => {
                        stored.push(body.clone());
                        FetchEvent::Stored
                    }
                }
            }
            FetchAction::Deliver { .. } | FetchAction::Fail(_) => {
                assert_eq!(state, FetchState::Done);
                return Outcome { action, sleeps, sends, stored };
            }
        };
        let next = step(config, has_cache, state, event);
        state = next.0;
        action = next.1;
    }
    panic!("the request did not end");
}

fn run(
    config: &FetchConfig,
    has_cache: bool,
    cached: Option<&str>,
    elapsed_ms: Option<i128>,
    responses: &[Result<(u16, &str), &str>],
) -> (FetchAction, Vec<u64>, usize) {
    let o = run_full(config, has_cache, cached, elapsed_ms, responses, None);
    (o.action, o.sleeps, o.sends)
}

#[test]
fn default_config() {
    let c = FetchConfig::default();
    assert_eq!(c.base_url, "https://api.koios.rest/api/v1");
    assert_eq!(c.rate_limit_ms, 200);
    assert_eq!(c.max_retries, 3);
    assert_eq!(c.retry_backoff_ms, 500);
    assert!(!c.offline);
}

#[test]
fn offline_with_empty_cache_is_an_offline_miss_without_any_send() {
    let (action, sleeps, sends) = run(&offline(), true, None, None, &[]);
    assert!(matches!(action, FetchAction::Fail(FetchError::OfflineMiss)));
    assert!(sleeps.is_empty());
    assert_eq!(sends, 0);
    let (action, sleeps, sends) = run(&offline(), false, None, Some(0), &[]);
    assert!(matches!(action, FetchAction::Fail(FetchError::OfflineMiss)));
    assert!(sleeps.is_empty());
    assert_eq!(sends, 0);
}

#[test]
fn offline_never_leaves_the_cache_whatever_happens() {
    let events = || {
        vec![
            FetchEvent::Begin,
            FetchEvent::CacheHit("b".to_string()),
            FetchEvent::CacheMiss,
            FetchEvent::CacheFailed("x".to_string()),
            FetchEvent::Stored,
            FetchEvent::StoreFailed("x".to_string()),
            FetchEvent::Clock { elapsed_ms: None },
            FetchEvent::Slept,
            FetchEvent::Response { status: 200, body: "b".to_string() },
            FetchEvent::TransportFailed("x".to_string()),
        ]
    };
    for has_cache in [true, false] {
        for first in events() {
            for second in events() {
                for third in events() {
                    let mut state = FetchState::Start;
                    for e in [first.clone(), second.clone(), third.clone()] {
                        let (next, action) = step(&offline(), has_cache, state, e);
                        assert!(matches!(
                            action,
                            FetchAction::LookupCache
                                | FetchAction::Deliver { from_network: false, .. }
                                | FetchAction::Fail(_)
                        ));
                        assert!(matches!(
                            next,
                            FetchState::Start | FetchState::AwaitingCache | FetchState::Done
                        ));
                        state = next;
                    }
                }
            }
        }
    }
}

#[test]
fn cache_hit_is_delivered_without_clock_or_network() {
    for config in [online(), offline()] {
        let (action, sleeps, sends) = run(&config, true, Some("cached"), Some(0), &[]);
        match action {
            FetchAction::Deliver { body, from_network } => {
                assert_eq!(body, "cached");
                assert!(!from_network);
            }
            other => panic!("unexpected: {:?}", other),
        }
        assert!(sleeps.is_empty());
        assert_eq!(sends, 0);
    }
}

#[test]
fn cache_failure_is_surfaced() {
    let (state, action) = step(&online(), true, FetchState::Start, FetchEvent::Begin);
    assert_eq!(state, FetchState::AwaitingCache);
    assert!(matches!(action, FetchAction::LookupCache));
    let (state, action) = step(&online(), true, state, FetchEvent::CacheFailed("disk".to_string()));
    assert_eq!(state, FetchState::Done);
    match action {
        FetchAction::Fail(FetchError::Cache(reason)) => assert_eq!(reason, "disk"),
        other => panic!("unexpected: {:?}", other),
    }
}

#[test]
fn first_success_is_delivered_from_the_network() {
    let (action, sleeps, sends) = run(&online(), true, None, None, &[Ok((200, "body"))]);
    match action {
        FetchAction::Deliver { body, from_network } => {
            assert_eq!(body, "body");
            assert!(from_network);
        }
        other => panic!("unexpected: {:?}", other),
    }
    assert!(sleeps.is_empty());
    assert_eq!(sends, 1);
}

#[test]
fn rate_gate_waits_for_what_is_missing() {
    let (_, sleeps, sends) = run(&online(), false, None, Some(50), &[Ok((299, "b"))]);
    assert_eq!(sleeps, vec![150]);
    assert_eq!(sends, 1);
    let (_, sleeps, _) = run(&online(), false, None, Some(200), &[Ok((200, "b"))]);
    assert!(sleeps.is_empty());
    let (_, sleeps, _) = run(&online(), false, None, Some(199), &[Ok((200, "b"))]);
    assert_eq!(sleeps, vec![1]);
}

#[test]
fn rate_limit_delay_formula() {
    assert_eq!(rate_limit_delay(200, None), 0);
    assert_eq!(rate_limit_delay(200, Some(0)), 200);
    assert_eq!(rate_limit_delay(200, Some(1)), 199);
    assert_eq!(rate_limit_delay(200, Some(200)), 0);
    assert_eq!(rate_limit_delay(200, Some(i128::MAX)), 0);
    assert_eq!(rate_limit_delay(200, Some(-5)), 205);
    assert_eq!(rate_limit_delay(u64::MAX, Some(-1)), u64::MAX);
    assert_eq!(rate_limit_delay(0, Some(-(u64::MAX as i128))), u64::MAX);
    assert_eq!(rate_limit_delay(0, Some(i128::MIN)), u64::MAX);
    assert_eq!(rate_limit_delay(0, Some(0)), 0);
}

#[test]
fn backoff_doubles_from_the_base() {
    assert_eq!(backoff_delay(500, 0), 500);
    assert_eq!(backoff_delay(500, 1), 1000);
    assert_eq!(backoff_delay(500, 2), 2000);
    assert_eq!(backoff_delay(500, 3), 4000);
    assert_eq!(backoff_delay(0, 40), 0);
    assert_eq!(backoff_delay(1, 63), 1 << 63);
    assert_eq!(backoff_delay(1, 64), u64::MAX);
    assert_eq!(backoff_delay(3, 63), u64::MAX);
    assert_eq!(backoff_delay(u64::MAX, 0), u64::MAX);
    assert_eq!(backoff_delay(7, u32::MAX), u64::MAX);
}

#[test]
fn failures_are_retried_with_backoff_and_the_last_error_is_surfaced() {
    let responses = [Err("reset"), Ok((500, "oops")), Err("timeout"), Ok((503, "busy"))];
    let (action, sleeps, sends) = run(&online(), true, None, Some(120), &responses);
    match action {
        FetchAction::Fail(FetchError::Api(status, body)) => {
            assert_eq!(status, 503);
            assert_eq!(body, "busy");
        }
        other => panic!("unexpected: {:?}", other),
    }
    // the rate gate first, then the pauses after the attempts 0, 1 and 2
    assert_eq!(sleeps, vec![80, 500, 1000, 2000]);
    assert_eq!(sends, 4);

    let responses = [Ok((404, "a")), Ok((404, "b")), Ok((404, "c")), Err("gone")];
    let (action, _, sends) = run(&online(), false, None, None, &responses);
    match action {
        FetchAction::Fail(FetchError::Request(reason)) => assert_eq!(reason, "gone"),
        other => panic!("unexpected: {:?}", other),
    }
    assert_eq!(sends, 4);
}

#[test]
fn a_retry_that_succeeds_is_delivered() {
    let responses = [Err("reset"), Ok((429, "slow down")), Ok((200, "fine"))];
    let (action, sleeps, sends) = run(&online(), true, None, None, &responses);
    assert!(matches!(action, FetchAction::Deliver { from_network: true, .. }));
    assert_eq!(sleeps, vec![500, 1000]);
    assert_eq!(sends, 3);
}

#[test]
fn without_retries_the_first_failure_ends_the_request() {
    let config = FetchConfig { max_retries: 0, ..FetchConfig::default() };
    let (action, sleeps, sends) = run(&config, false, None, None, &[Ok((199, "early"))]);
    assert!(matches!(action, FetchAction::Fail(FetchError::Api(199, _))));
    assert!(sleeps.is_empty());
    assert_eq!(sends, 1);
    let (action, _, _) = run(&config, false, None, None, &[Ok((300, "moved"))]);
    assert!(matches!(action, FetchAction::Fail(FetchError::Api(300, _))));
}

#[test]
fn an_event_out_of_turn_ends_the_request_with_the_unknown_error() {
    let cases = [
        (FetchState::Start, FetchEvent::Slept),
        (FetchState::AwaitingCache, FetchEvent::Begin),
        (FetchState::AwaitingClock, FetchEvent::CacheMiss),
        (FetchState::Gated, FetchEvent::Clock { elapsed_ms: None }),
        (FetchState::InFlight { attempt: 0 }, FetchEvent::Slept),
        (FetchState::BackingOff { attempt: 0 }, FetchEvent::Begin),
        (FetchState::BackingOff { attempt: u32::MAX }, FetchEvent::Slept),
        (FetchState::InFlight { attempt: 0 }, FetchEvent::Stored),
        (FetchState::Storing { body: "b".to_string() }, FetchEvent::Slept),
        (
            FetchState::Storing { body: "b".to_string() },
            FetchEvent::Response { status: 200, body: "c".to_string() },
        ),
        (FetchState::Done, FetchEvent::Stored),
        (FetchState::Done, FetchEvent::Begin),
    ];
    for (state, event) in cases {
        let (next, action) = step(&online(), true, state, event);
        assert_eq!(next, FetchState::Done);
        match action {
            FetchAction::Fail(FetchError::Api(status, body)) => {
                assert_eq!(status, 0);
                assert_eq!(body, "unknown");
            }
            other => panic!("unexpected: {:?}", other),
        }
    }
}

#[test]
fn a_fetched_body_is_stored_before_it_is_delivered() {
    let o = run_full(&online(), true, None, None, &[Err("reset"), Ok((200, "fresh"))], None);
    match o.action {
        FetchAction::Deliver { body, from_network } => {
            assert_eq!(body, "fresh");
            assert!(from_network);
        }
        other => panic!("unexpected: {:?}", other),
    }
    assert_eq!(o.stored, vec!["fresh".to_string()]);
    assert_eq!(o.sends, 2);
    assert_eq!(o.sleeps, vec![500]);

    // step by step: the answer leads to the store, the store to the delivery
    let (state, action) = step(
        &online(),
        true,
        FetchState::InFlight { attempt: 2 },
        FetchEvent::Response { status: 204, body: "b".to_string() },
    );
    assert_eq!(state, FetchState::Storing { body: "b".to_string() });
    match action {
        FetchAction::Store { body } => assert_eq!(body, "b"),
        other => panic!("unexpected: {:?}", other),
    }
    let (state, action) = step(&online(), true, state, FetchEvent::Stored);
    assert_eq!(state, FetchState::Done);
    assert!(matches!(action, FetchAction::Deliver { from_network: true, .. }));
}

#[test]
fn a_cache_hit_and_a_client_without_cache_store_nothing() {
    let o = run_full(&online(), true, Some("cached"), None, &[], None);
    assert!(o.stored.is_empty());
    assert!(matches!(o.action, FetchAction::Deliver { from_network: false, .. }));
    let o = run_full(&online(), false, None, None, &[Ok((200, "b"))], Some("never asked"));
    assert!(o.stored.is_empty());
    match o.action {
        FetchAction::Deliver { body, from_network } => {
            assert_eq!(body, "b");
            assert!(from_network);
        }
        other => panic!("unexpected: {:?}", other),
    }
}

#[test]
fn a_failed_store_is_surfaced() {
    let o = run_full(&online(), true, None, None, &[Ok((200, "fresh"))], Some("disk full"));
    match o.action {
        FetchAction::Fail(FetchError::Cache(reason)) => assert_eq!(reason, "disk full"),
        other => panic!("unexpected: {:?}", other),
    }
    assert!(o.stored.is_empty());
    assert_eq!(o.sends, 1);
    // a failure of the upstream source is not stored either
    let failed = [Ok((500, "a")), Ok((500, "b")), Ok((500, "c")), Ok((500, "d"))];
    let o = run_full(&online(), true, None, None, &failed, None);
    assert!(o.stored.is_empty());
    assert!(matches!(o.action, FetchAction::Fail(FetchError::Api(500, _))));
}
