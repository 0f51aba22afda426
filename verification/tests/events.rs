use indigo_poy::chain::fetch::{
    KoiosAccountTx, KoiosAsset, KoiosTxUtxos, KoiosUtxo, TxUtxoTable,
};
use indigo_poy::compute::metrics::{compute_metrics, ComputeInput};
use indigo_poy::indigo::events::{Event, EventKind, IndigoEvents, PremiumRate, Timestamp};
use indigo_poy::indigo::indy_staking::{classify_reward, reconstruct_indy_staking_events};
use indigo_poy::indigo::protocol_config::IndigoV2Config;
use indigo_poy::indigo::reconstruct_all_events;
use indigo_poy::indigo::rob::{classify_order, reconstruct_rob_events};
use indigo_poy::compute::metrics::block_time_span;
use indigo_poy::verify::bundle::{
    reproducibility_hash, slots_touched, sorted_tx_hashes, EvidenceBundle,
};

fn now() -> Timestamp {
    Timestamp { unix_seconds: 1_700_000_000, nanosecond: 250 }
}

fn tx(hash: &str, slot: Option<u64>, block_time: Option<i64>) -> KoiosAccountTx {
    KoiosAccountTx {
        tx_hash: hash.to_string(),
        block_height: None,
        block_time,
        epoch_no: Some(9),
        slot_no: slot,
    }
}

fn utxo(value: &str, with_asset: bool) -> KoiosUtxo {
    KoiosUtxo {
        tx_hash: "src".to_string(),
        tx_index: 1,
        value: value.to_string(),
        datum_hash: Some("d".to_string()),
        asset_list: if with_asset {
            Some(vec![KoiosAsset {
                policy_id: "p".to_string(),
                asset_name: "n".to_string(),
                quantity: "1".to_string(),
            }])
        } else {
            None
        },
    }
}

fn plain(kind: EventKind, slot: Option<u64>, hash: &str) -> Event {
    Event { kind, timestamp: now(), slot, tx_hash: hash.to_string(), extra: None }
}

fn marker(n: u64, slot: Option<u64>, hash: &str) -> Event {
    plain(
        EventKind::OtherFlow {
            description: "m".to_string(),
            amount_lovelace: Some(n),
            tx_hash: hash.to_string(),
        },
        slot,
        hash,
    )
}

fn marks(events: &[Event]) -> Vec<u64> {
    events
        .iter()
        .map(|e| match &e.kind {
            EventKind::OtherFlow { amount_lovelace: Some(n), .. } => *n,
            other => panic!("unexpected: {:?}", other),
        })
        .collect()
}

#[test]
fn sort_is_by_slot_then_hash_and_stable() {
    let mut ev = IndigoEvents::default();
    ev.other = vec![
        marker(0, Some(5), "b"),
        marker(1, Some(5), "a"),
        marker(2, None, "z"),
        marker(3, Some(0), "z"),
        marker(4, Some(5), "a"),
        marker(5, Some(1), "zz"),
        marker(6, Some(1), "z"),
        marker(7, Some(5), "B"),
        marker(8, Some(u64::MAX), ""),
        marker(9, Some(5), "ab"),
    ];
    ev.rob = vec![marker(1, Some(2), "x"), marker(0, Some(1), "x")];
    ev.sort_by_slot_then_tx();
    assert_eq!(marks(&ev.other), vec![2, 3, 6, 5, 7, 1, 4, 9, 0, 8]);
    assert_eq!(marks(&ev.rob), vec![0, 1]);
    assert!(ev.stability_pool.is_empty());
    ev.sort_by_slot_then_tx();
    assert_eq!(marks(&ev.other), vec![2, 3, 6, 5, 7, 1, 4, 9, 0, 8]);
}

#[test]
fn all_events_goes_bucket_by_bucket() {
    let mut ev = IndigoEvents::default();
    ev.other = vec![marker(4, None, "o")];
    ev.indy_staking = vec![marker(3, None, "i")];
    ev.rob = vec![marker(2, None, "r")];
    ev.stability_pool = vec![marker(0, None, "s"), marker(1, None, "s")];
    let all: Vec<Event> = ev.all_events().into_iter().cloned().collect();
    assert_eq!(marks(&all), vec![0, 1, 2, 3, 4]);
    assert_eq!(all[0].tx_hash(), "s");
    assert!(IndigoEvents::default().all_events().is_empty());
}

#[test]
fn order_book_fill_and_placement() {
    let t = tx("h", Some(3), Some(10));
    let ts = Timestamp { unix_seconds: 10, nanosecond: 0 };
    match classify_order(&t, ts, 1_000_000, 1_100_000).unwrap().kind {
        EventKind::RobOrderFill {
            order_id,
            filled_lovelace,
            premium_pct,
            reimbursement_pct,
            tx_hash,
            slot,
        } => {
            assert!(order_id.is_none());
            assert_eq!(filled_lovelace, 1_100_000);
            let rate = PremiumRate { gain_lovelace: 100_000, basis_lovelace: 1_000_000 };
            assert_eq!(premium_pct, Some(rate));
            assert_eq!(reimbursement_pct, Some(rate));
            // as a percentage: (output - input) / input * 100
            let pct = rate.gain_lovelace as f64 / rate.basis_lovelace as f64 * 100.0;
            assert_eq!(pct, 10.0);
            assert_eq!(tx_hash, "h");
            assert_eq!(slot, Some(3));
        }
        other => panic!("unexpected: {:?}", other),
    }
    match classify_order(&t, ts, 700, 0).unwrap().kind {
        EventKind::RobOrderPlace { order_id, amount_lovelace, tx_hash, slot } => {
            assert!(order_id.is_none());
            assert_eq!(amount_lovelace, 700);
            assert_eq!(tx_hash, "h");
            assert_eq!(slot, Some(3));
        }
        other => panic!("unexpected: {:?}", other),
    }
    assert!(classify_order(&t, ts, 0, 0).is_none());
    assert!(classify_order(&t, ts, 0, 5).is_none());
    assert!(classify_order(&t, ts, 5, 5).is_none());
    assert!(classify_order(&t, ts, 5, 4).is_none());
    let e = classify_order(&t, ts, 5, 6).unwrap();
    assert_eq!(e.timestamp, ts);
    assert_eq!(e.slot, Some(3));
    assert_eq!(e.tx_hash, "h");
    assert!(e.extra.is_none());
}

#[test]
fn staking_reward_is_the_difference() {
    let t = tx("h", None, None);
    match classify_reward(&t, now(), 40, 100).unwrap().kind {
        EventKind::IndyStakingReward { amount_lovelace, epoch, tx_hash } => {
            assert_eq!(amount_lovelace, 60);
            assert_eq!(epoch, Some(9));
            assert_eq!(tx_hash, "h");
        }
        other => panic!("unexpected: {:?}", other),
    }
    assert!(classify_reward(&t, now(), 100, 100).is_none());
    assert!(classify_reward(&t, now(), 100, 40).is_none());
    assert_eq!(classify_reward(&t, now(), 0, 1).unwrap().timestamp, now());
}

fn sample() -> (Vec<KoiosAccountTx>, TxUtxoTable) {
    let txs = vec![
        tx("cc", Some(30), Some(3)),
        tx("aa", Some(10), Some(1)),
        tx("bb", Some(10), None),
        tx("dd", None, Some(4)),
        tx("unfetched", Some(1), Some(5)),
    ];
    let mut table = TxUtxoTable::new();
    table.insert(
        "cc".to_string(),
        KoiosTxUtxos {
            inputs: Some(vec![utxo("100", true)]),
            outputs: Some(vec![utxo("150", true), utxo("20", false)]),
        },
    );
    table.insert(
        "aa".to_string(),
        KoiosTxUtxos { inputs: Some(vec![utxo("500", true), utxo("5", true)]), outputs: None },
    );
    table.insert(
        "bb".to_string(),
        KoiosTxUtxos { inputs: None, outputs: Some(vec![utxo("9", true)]) },
    );
    table.insert(
        "dd".to_string(),
        KoiosTxUtxos { inputs: Some(vec![utxo("7", false)]), outputs: Some(vec![utxo("7", false)]) },
    );
    (txs, table)
}

fn hashes(events: &[Event]) -> Vec<String> {
    events.iter().map(|e| e.tx_hash.clone()).collect()
}

#[test]
fn all_classifiers_run_on_every_transaction() {
    let (txs, table) = sample();
    let ev = reconstruct_all_events(&txs, &table, now(), None);
    // pool: bb withdraws 9; aa deposits 500 and 5; cc is liquidated for 150, then deposits 100
    assert_eq!(hashes(&ev.stability_pool), vec!["aa", "aa", "bb", "cc", "cc"]);
    assert!(matches!(
        ev.stability_pool[0].kind,
        EventKind::StabilityPoolDeposit { amount_lovelace: 500, .. }
    ));
    assert!(matches!(
        ev.stability_pool[1].kind,
        EventKind::StabilityPoolDeposit { amount_lovelace: 5, .. }
    ));
    assert!(matches!(
        ev.stability_pool[2].kind,
        EventKind::StabilityPoolWithdraw { amount_lovelace: 9, .. }
    ));
    assert!(matches!(
        ev.stability_pool[3].kind,
        EventKind::StabilityPoolLiquidation {
            ada_received_lovelace: 150,
            realized_premium_lovelace: 50,
            ..
        }
    ));
    assert!(matches!(
        ev.stability_pool[4].kind,
        EventKind::StabilityPoolDeposit { amount_lovelace: 100, .. }
    ));
    // order book: aa places 505, cc is filled with 170 on 100
    assert_eq!(hashes(&ev.rob), vec!["aa", "cc"]);
    assert!(matches!(ev.rob[0].kind, EventKind::RobOrderPlace { amount_lovelace: 505, .. }));
    assert!(matches!(
        ev.rob[1].kind,
        EventKind::RobOrderFill {
            filled_lovelace: 170,
            premium_pct: Some(PremiumRate { gain_lovelace: 70, basis_lovelace: 100 }),
            ..
        }
    ));
    // staking: bb gains 9, cc gains 70
    assert_eq!(hashes(&ev.indy_staking), vec!["bb", "cc"]);
    assert!(matches!(
        ev.indy_staking[0].kind,
        EventKind::IndyStakingReward { amount_lovelace: 9, .. }
    ));
    assert!(matches!(
        ev.indy_staking[1].kind,
        EventKind::IndyStakingReward { amount_lovelace: 70, .. }
    ));
    assert!(ev.other.is_empty());
    // times: the block time where there is one, else now
    assert_eq!(ev.stability_pool[0].timestamp, Timestamp { unix_seconds: 1, nanosecond: 0 });
    assert_eq!(ev.stability_pool[2].timestamp, now());
    assert_eq!(
        hashes(&reconstruct_rob_events(&txs, &table, now())),
        vec!["aa".to_string(), "cc".to_string()]
    );
    assert_eq!(
        hashes(&reconstruct_indy_staking_events(&txs, &table, now())),
        vec!["bb".to_string(), "cc".to_string()]
    );
}

fn fingerprint(txs: &[KoiosAccountTx], table: &TxUtxoTable) -> (String, String) {
    let events = reconstruct_all_events(txs, table, now(), Some(&IndigoV2Config::default()));
    let metrics = compute_metrics(&ComputeInput {
        events: events.clone(),
        period_start_ts: Some(0),
        period_end_ts: Some(1000),
        current_ada_position: None,
    });
    let bundle = EvidenceBundle::created_at(
        "2026-02-12T10:00:00Z".to_string(),
        "addr".to_string(),
        vec![],
        vec![],
        vec![],
        events.clone(),
        metrics,
        vec![],
    );
    (format!("{:?}", events), reproducibility_hash(&bundle).unwrap())
}

#[test]
fn reconstruction_does_not_depend_on_the_order_of_the_transactions() {
    let (txs, table) = sample();
    let expected = fingerprint(&txs, &table);
    let n = txs.len();
    // every rotation and every swap of two transactions
    for shift in 0..n {
        let mut rotated = txs.clone();
        rotated.rotate_left(shift);
        assert_eq!(fingerprint(&rotated, &table), expected);
        for i in 0..n {
            for j in 0..n {
                let mut swapped = rotated.clone();
                swapped.swap(i, j);
                assert_eq!(fingerprint(&swapped, &table), expected);
            }
        }
    }
    let mut reversed = txs.clone();
    reversed.reverse();
    assert_eq!(fingerprint(&reversed, &table), expected);
}

#[test]
fn empty_transaction_list_gives_empty_events() {
    let ev = reconstruct_all_events(&[], &TxUtxoTable::new(), now(), None);
    assert!(ev.stability_pool.is_empty());
    assert!(ev.rob.is_empty());
    assert!(ev.indy_staking.is_empty());
    assert!(ev.other.is_empty());
    let m = compute_metrics(&ComputeInput {
        events: ev,
        period_start_ts: None,
        period_end_ts: None,
        current_ada_position: None,
    });
    assert_eq!(m.combined.total_ada_in_lovelace, 0);
    assert_eq!(m.combined.total_ada_out_lovelace, 0);
    assert_eq!(m.combined.net_pnl_lovelace, 0);
    assert!(m.combined.apr_pct.is_none());
}

#[test]
fn later_table_entries_replace_earlier_ones() {
    let mut table = TxUtxoTable::new();
    assert!(table.get("h").is_none());
    table.insert("h".to_string(), KoiosTxUtxos { inputs: None, outputs: None });
    table.insert("g".to_string(), KoiosTxUtxos { inputs: Some(vec![]), outputs: None });
    table.insert(
        "h".to_string(),
        KoiosTxUtxos { inputs: Some(vec![utxo("1", false)]), outputs: None },
    );
    assert_eq!(table.get("h").unwrap().inputs.as_ref().unwrap().len(), 1);
    assert_eq!(table.get("g").unwrap().inputs.as_ref().unwrap().len(), 0);
    assert!(table.get("H").is_none());
}

#[test]
fn run_figures_come_from_the_transactions() {
    let (txs, _) = sample();
    assert_eq!(block_time_span(&txs), (Some(1), Some(5)));
    assert_eq!(block_time_span(&[]), (None, None));
    assert_eq!(block_time_span(&[tx("a", None, None)]), (None, None));
    assert_eq!(block_time_span(&[tx("a", None, Some(-7))]), (Some(-7), Some(-7)));
    assert_eq!(
        block_time_span(&[tx("a", None, Some(i64::MAX)), tx("b", None, Some(i64::MIN))]),
        (Some(i64::MIN), Some(i64::MAX))
    );
    assert_eq!(sorted_tx_hashes(&txs), vec!["aa", "bb", "cc", "dd", "unfetched"]);
    assert_eq!(slots_touched(&txs), vec![30, 10, 10, 1]);
    assert!(sorted_tx_hashes(&[]).is_empty());
    assert!(slots_touched(&[]).is_empty());
    assert_eq!(
        sorted_tx_hashes(&[tx("b", None, None), tx("B", None, None), tx("b", None, None)]),
        vec!["B", "b", "b"]
    );
}

#[test]
fn sort_handles_long_and_adversarial_runs() {
    // descending, ascending, all equal, and a pseudo-random run
    let n = 3000u64;
    let mut seed = 99u64;
    let mut runs: Vec<Vec<(u64, String)>> = vec![
        (0..n).rev().map(|i| (i, format!("h{}", i % 7))).collect(),
        (0..n).map(|i| (i, "h".to_string())).collect(),
        (0..n).map(|_| (5, "same".to_string())).collect(),
    ];
    runs.push(
        (0..n)
            .map(|_| {
                seed = seed.wrapping_mul(6364136223846793005).wrapping_add(1442695040888963407);
                ((seed >> 60), format!("{:x}", (seed >> 30) % 13))
            })
            .collect(),
    );
    for run in runs {
        let mut ev = IndigoEvents::default();
        ev.other = run
            .iter()
            .enumerate()
            .map(|(i, (slot, hash))| marker(i as u64, Some(*slot), hash))
            .collect();
        let mut expected: Vec<(u64, String, u64)> = run
            .iter()
            .enumerate()
            .map(|(i, (slot, hash))| (*slot, hash.clone(), i as u64))
            .collect();
        expected.sort_by_key(|(slot, hash, _)| (*slot, hash.clone()));
        ev.sort_by_slot_then_tx();
        let got: Vec<(u64, String, u64)> = ev
            .other
            .iter()
            .zip(marks(&ev.other))
            .map(|(e, m)| (e.slot.unwrap(), e.tx_hash.clone(), m))
            .collect();
        assert_eq!(got, expected);
    }
}
