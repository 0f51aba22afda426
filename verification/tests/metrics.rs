use indigo_poy::compute::metrics::{
    annual_terms, compute_metrics, difference, premium_of_fill, AprTerms, ComputeInput,
    ComputedMetrics, RobMetrics, SECONDS_PER_YEAR,
};
use indigo_poy::indigo::events::{Event, EventKind, IndigoEvents, PremiumRate, Timestamp};

fn at(seconds: i64) -> Timestamp {
    Timestamp { unix_seconds: seconds, nanosecond: 0 }
}

fn event(kind: EventKind, slot: u64, hash: &str) -> Event {
    Event { kind, timestamp: at(slot as i64), slot: Some(slot), tx_hash: hash.into(), extra: None }
}

fn fill(filled: u64, rate: Option<PremiumRate>) -> Event {
    event(
        EventKind::RobOrderFill {
            order_id: None,
            filled_lovelace: filled,
            premium_pct: rate,
            reimbursement_pct: rate,
            tx_hash: "f".into(),
            slot: Some(1),
        },
        1,
        "f",
    )
}

#[test]
fn compute_empty() {
    let input = ComputeInput::default();
    let m = compute_metrics(&input);
    assert_eq!(m.combined.total_ada_in_lovelace, 0);
    assert_eq!(m.combined.net_pnl_lovelace, 0);
}

#[test]
fn compute_apr() {
    let mut events = IndigoEvents::default();
    events.stability_pool.push(Event {
        kind: EventKind::StabilityPoolLiquidation {
            iasset_burnt: "x".into(),
            ada_received_lovelace: 1_100_000,
            realized_premium_lovelace: 100_000,
            dilution_effect: None,
            tx_hash: "abc".into(),
            slot: Some(100),
        },
        timestamp: at(1000),
        slot: Some(100),
        tx_hash: "abc".into(),
        extra: None,
    });
    let input = ComputeInput {
        period_start_ts: Some(0),
        period_end_ts: Some(365 * 24 * 3600),
        current_ada_position: Some(1_000_000),
        events,
    };
    let m = compute_metrics(&input);
    assert!(m.combined.apr_pct.is_some());
    assert!(m.stability_pool.liquidation_count == 1);
}

#[test]
fn ordering_invariance() {
    let mut a = IndigoEvents::default();
    a.stability_pool.push(Event {
        kind: EventKind::StabilityPoolDeposit {
            amount_lovelace: 100,
            iasset_amount: None,
            tx_hash: "a".into(),
        },
        timestamp: at(1),
        slot: Some(1),
        tx_hash: "a".into(),
        extra: None,
    });
    a.stability_pool.push(Event {
        kind: EventKind::StabilityPoolWithdraw {
            amount_lovelace: 50,
            iasset_amount: None,
            tx_hash: "b".into(),
        },
        timestamp: at(2),
        slot: Some(2),
        tx_hash: "b".into(),
        extra: None,
    });
    let mut b = IndigoEvents::default();
    b.stability_pool.push(a.stability_pool[1].clone());
    b.stability_pool.push(a.stability_pool[0].clone());
    let in1 = ComputeInput {
        events: a,
        period_start_ts: None,
        period_end_ts: None,
        current_ada_position: None,
    };
    let in2 = ComputeInput {
        events: b,
        period_start_ts: None,
        period_end_ts: None,
        current_ada_position: None,
    };
    let m1 = compute_metrics(&in1);
    let m2 = compute_metrics(&in2);
    assert_eq!(m1.combined.total_ada_in_lovelace, m2.combined.total_ada_in_lovelace);
    assert_eq!(m1.combined.total_ada_out_lovelace, m2.combined.total_ada_out_lovelace);
    assert_eq!(m1.combined.net_pnl_lovelace, m2.combined.net_pnl_lovelace);
}

#[test]
fn empty_events_give_zero_totals_and_apr_only_with_a_period() {
    let m = compute_metrics(&ComputeInput::default());
    assert_eq!(m.stability_pool, Default::default());
    assert_eq!(m.indy_staking, Default::default());
    assert_eq!(m.combined, Default::default());
    assert_eq!(m.rob.total_placed_lovelace, 0);
    assert_eq!(m.rob.total_filled_lovelace, 0);
    assert_eq!(m.rob.total_premium_received_lovelace, 0);
    assert_eq!(m.rob.fill_count, 0);
    assert!(m.rob.premium_samples.is_empty());
    assert!(m.dilution.is_none());
    assert!(m.combined.apr_pct.is_none());

    let with_period = ComputeInput {
        events: IndigoEvents::default(),
        period_start_ts: Some(0),
        period_end_ts: Some(365 * 24 * 3600),
        current_ada_position: Some(1_000_000),
    };
    let m = compute_metrics(&with_period);
    assert_eq!(m.combined.total_ada_in_lovelace, 0);
    assert_eq!(
        m.combined.apr_pct,
        Some(AprTerms {
            gain_lovelace: 0,
            position_lovelace: 1_000_000,
            period_seconds: 31_536_000
        })
    );
    let t = m.combined.apr_pct.unwrap();
    let apr = t.gain_lovelace as f64 / t.position_lovelace as f64
        * (SECONDS_PER_YEAR as f64 / t.period_seconds as f64)
        * 100.0;
    assert!(apr.is_finite());
    assert_eq!(apr, 0.0);

    // only one end of the period: no annualised return
    let half = ComputeInput {
        events: IndigoEvents::default(),
        period_start_ts: Some(0),
        period_end_ts: None,
        current_ada_position: Some(1),
    };
    assert!(compute_metrics(&half).combined.apr_pct.is_none());
}

#[test]
fn every_kind_is_counted_where_it_belongs() {
    let mut ev = IndigoEvents::default();
    ev.stability_pool.push(event(
        EventKind::StabilityPoolDeposit {
            amount_lovelace: 100,
            iasset_amount: None,
            tx_hash: "a".into(),
        },
        1,
        "a",
    ));
    ev.stability_pool.push(event(
        EventKind::StabilityPoolWithdraw {
            amount_lovelace: 30,
            iasset_amount: None,
            tx_hash: "b".into(),
        },
        2,
        "b",
    ));
    ev.stability_pool.push(event(
        EventKind::StabilityPoolLiquidation {
            iasset_burnt: "x".into(),
            ada_received_lovelace: 500,
            realized_premium_lovelace: 50,
            dilution_effect: None,
            tx_hash: "c".into(),
            slot: Some(3),
        },
        3,
        "c",
    ));
    ev.rob.push(event(
        EventKind::RobOrderPlace {
            order_id: None,
            amount_lovelace: 1000,
            tx_hash: "d".into(),
            slot: Some(4),
        },
        4,
        "d",
    ));
    ev.rob.push(fill(2000, Some(PremiumRate { gain_lovelace: 1, basis_lovelace: 10 })));
    ev.rob.push(fill(7, None));
    ev.rob.push(event(EventKind::RobCooldown { inferred_from_tx: true, tx_hash: "e".into() }, 5, "e"));
    ev.indy_staking.push(event(
        EventKind::IndyStakingReward { amount_lovelace: 9, epoch: Some(1), tx_hash: "g".into() },
        6,
        "g",
    ));
    ev.other.push(event(
        EventKind::IndySpPremium { amount_lovelace: 4, tx_hash: "h".into(), slot: None },
        7,
        "h",
    ));
    ev.other.push(event(
        EventKind::OtherFlow {
            description: "misc".into(),
            amount_lovelace: Some(1_000_000),
            tx_hash: "i".into(),
        },
        8,
        "i",
    ));
    let m = compute_metrics(&ComputeInput {
        events: ev,
        period_start_ts: Some(100),
        period_end_ts: Some(700),
        current_ada_position: None,
    });
    assert_eq!(m.stability_pool.total_deposits_lovelace, 100);
    assert_eq!(m.stability_pool.total_withdrawals_lovelace, 30);
    assert_eq!(m.stability_pool.total_liquidations_ada_received_lovelace, 500);
    assert_eq!(m.stability_pool.total_realized_premium_lovelace, 50);
    assert_eq!(m.stability_pool.net_ada_from_liquidations_lovelace, 400);
    assert_eq!(m.stability_pool.liquidation_count, 1);
    assert_eq!(m.rob.total_placed_lovelace, 1000);
    assert_eq!(m.rob.total_filled_lovelace, 2007);
    assert_eq!(m.rob.total_premium_received_lovelace, 200);
    assert_eq!(m.rob.fill_count, 2);
    assert_eq!(m.rob.premium_samples, vec![PremiumRate { gain_lovelace: 1, basis_lovelace: 10 }]);
    assert_eq!(m.indy_staking.total_rewards_lovelace, 9);
    assert_eq!(m.indy_staking.total_sp_premium_lovelace, 4);
    assert_eq!(m.indy_staking.reward_tx_count, 1);
    assert_eq!(m.combined.total_ada_in_lovelace, 1100);
    assert_eq!(m.combined.total_ada_out_lovelace, 30 + 500 + 2007 + 9 + 4);
    assert_eq!(m.combined.net_pnl_lovelace, 2550 - 1100);
    assert_eq!(
        m.combined.apr_pct,
        Some(AprTerms { gain_lovelace: 1450, position_lovelace: 1, period_seconds: 600 })
    );
}

#[test]
fn sums_saturate() {
    let mut ev = IndigoEvents::default();
    for hash in ["a", "b"] {
        ev.stability_pool.push(event(
            EventKind::StabilityPoolDeposit {
                amount_lovelace: u64::MAX - 1,
                iasset_amount: None,
                tx_hash: hash.into(),
            },
            1,
            hash,
        ));
    }
    let m = compute_metrics(&ComputeInput {
        events: ev,
        period_start_ts: None,
        period_end_ts: None,
        current_ada_position: None,
    });
    assert_eq!(m.stability_pool.total_deposits_lovelace, u64::MAX);
    assert_eq!(m.combined.total_ada_in_lovelace, u64::MAX);
    assert_eq!(m.combined.net_pnl_lovelace, i64::MIN);
    assert_eq!(m.stability_pool.net_ada_from_liquidations_lovelace, 0);
}

#[test]
fn fill_premium_formula() {
    let rate = |g, b| Some(PremiumRate { gain_lovelace: g, basis_lovelace: b });
    assert_eq!(premium_of_fill(1_100_000, rate(100_000, 1_000_000)), 110_000);
    assert_eq!(premium_of_fill(10, rate(1, 3)), 3);
    assert_eq!(premium_of_fill(0, rate(5, 1)), 0);
    assert_eq!(premium_of_fill(7, None), 0);
    assert_eq!(premium_of_fill(7, rate(1, 0)), 0);
    assert_eq!(premium_of_fill(u64::MAX, rate(u64::MAX, 1)), u64::MAX);
    assert_eq!(premium_of_fill(u64::MAX, rate(u64::MAX, u64::MAX)), u64::MAX);
    assert_eq!(premium_of_fill(u64::MAX, rate(1, 2)), u64::MAX / 2);
}

#[test]
fn difference_is_clamped() {
    assert_eq!(difference(5, 3), 2);
    assert_eq!(difference(3, 5), -2);
    assert_eq!(difference(u64::MAX, 0), i64::MAX);
    assert_eq!(difference(0, u64::MAX), i64::MIN);
    assert_eq!(difference(1 << 63, 1), i64::MAX);
    assert_eq!(difference(0, 1 << 63), i64::MIN);
}

#[test]
fn annual_terms_floor_position_and_period_at_one() {
    assert_eq!(annual_terms(10, 20, None, Some(5), None), None);
    assert_eq!(annual_terms(10, 20, Some(5), None, None), None);
    assert_eq!(
        annual_terms(10, 25, Some(5), Some(5), None),
        Some(AprTerms { gain_lovelace: 15, position_lovelace: 1, period_seconds: 1 })
    );
    assert_eq!(
        annual_terms(100, 25, Some(50), Some(10), None),
        Some(AprTerms { gain_lovelace: 0, position_lovelace: 75, period_seconds: 1 })
    );
    assert_eq!(
        annual_terms(0, 0, Some(i64::MIN), Some(i64::MAX), Some(0)),
        Some(AprTerms { gain_lovelace: 0, position_lovelace: 1, period_seconds: u64::MAX })
    );
    assert_eq!(SECONDS_PER_YEAR, 36_525 * 24 * 36);
}

#[test]
fn default_metrics_are_zero() {
    let m = ComputedMetrics::default();
    assert_eq!(m.combined.total_ada_out_lovelace, 0);
    assert!(m.combined.apr_pct.is_none());
    assert!(m.rob.premium_samples.is_empty());
}

#[test]
fn percentages_in_millionths() {
    let rate = |g, b| PremiumRate { gain_lovelace: g, basis_lovelace: b };
    // (1_100_000 - 1_000_000) / 1_000_000 * 100 = 10 %
    assert_eq!(rate(100_000, 1_000_000).percent_millionths(), Some(10_000_000));
    assert_eq!(rate(1, 3).percent_millionths(), Some(33_333_333));
    assert_eq!(rate(0, 5).percent_millionths(), Some(0));
    assert_eq!(rate(5, 0).percent_millionths(), None);
    assert_eq!(
        rate(u64::MAX, 1).percent_millionths(),
        Some(u64::MAX as u128 * 100_000_000)
    );

    // 97 / 1000 * (one year / one year) * 100 = 9.7 %
    let apr = AprTerms { gain_lovelace: 97, position_lovelace: 1000, period_seconds: SECONDS_PER_YEAR };
    assert_eq!(apr.percent_millionths(), Some(9_700_000));
    // 100_000 / 1_000_000 over 365 days: 10 % * 365.25 / 365
    let apr = AprTerms {
        gain_lovelace: 100_000,
        position_lovelace: 1_000_000,
        period_seconds: 365 * 24 * 3600,
    };
    assert_eq!(apr.percent_millionths(), Some(10_006_849));
    let zero = AprTerms { gain_lovelace: 0, position_lovelace: 1_000_000, period_seconds: 31_536_000 };
    assert_eq!(zero.percent_millionths(), Some(0));
    assert_eq!(
        AprTerms { gain_lovelace: 1, position_lovelace: 0, period_seconds: 1 }.percent_millionths(),
        None
    );
    assert_eq!(
        AprTerms { gain_lovelace: 1, position_lovelace: 1, period_seconds: 0 }.percent_millionths(),
        None
    );
    let huge = AprTerms { gain_lovelace: u64::MAX, position_lovelace: 1, period_seconds: 1 };
    assert_eq!(
        huge.percent_millionths(),
        Some(u64::MAX as u128 * 31_557_600 * 100_000_000)
    );
    let tiny = AprTerms {
        gain_lovelace: u64::MAX,
        position_lovelace: u64::MAX,
        period_seconds: u64::MAX,
    };
    assert_eq!(tiny.percent_millionths(), Some(0));
}

#[test]
fn average_premium_is_the_running_two_point_mean() {
    let rate = |g, b| PremiumRate { gain_lovelace: g, basis_lovelace: b };
    let with = |samples: Vec<PremiumRate>| RobMetrics { premium_samples: samples, ..RobMetrics::default() };
    assert_eq!(with(vec![]).avg_premium_millionths(), None);
    assert_eq!(with(vec![rate(1, 100)]).avg_premium_millionths(), Some(1_000_000));
    // 2 %, 4 %, 8 %: (2 + 4) / 2 = 3, (3 + 8) / 2 = 5.5
    assert_eq!(
        with(vec![rate(2, 100), rate(4, 100), rate(8, 100)]).avg_premium_millionths(),
        Some(5_500_000)
    );
    // the other way round: (8 + 4) / 2 = 6, (6 + 2) / 2 = 4
    assert_eq!(
        with(vec![rate(8, 100), rate(4, 100), rate(2, 100)]).avg_premium_millionths(),
        Some(4_000_000)
    );
    // a sample without a basis counts for nothing
    assert_eq!(
        with(vec![rate(1, 0), rate(2, 100), rate(9, 0), rate(4, 100)]).avg_premium_millionths(),
        Some(3_000_000)
    );
    assert_eq!(with(vec![rate(1, 0)]).avg_premium_millionths(), None);
    assert_eq!(
        with(vec![rate(u64::MAX, 1), rate(u64::MAX, 1)]).avg_premium_millionths(),
        Some(u64::MAX as u128 * 100_000_000)
    );
}

#[test]
fn average_liquidation() {
    let mut m = ComputedMetrics::default();
    assert_eq!(m.stability_pool.avg_liquidation_lovelace(), None);
    m.stability_pool.total_liquidations_ada_received_lovelace = 11_270_000;
    m.stability_pool.liquidation_count = 23;
    assert_eq!(m.stability_pool.avg_liquidation_lovelace(), Some(490_000));
    m.stability_pool.liquidation_count = 3;
    assert_eq!(m.stability_pool.avg_liquidation_lovelace(), Some(3_756_666));
}
