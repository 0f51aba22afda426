use indigo_poy::compute::{compute_metrics, ComputeInput};
use indigo_poy::indigo::events::Timestamp;
use indigo_poy::indigo::reconstruct_all_events;
use indigo_poy::{KoiosAccountTx, KoiosAsset, KoiosTxUtxos, KoiosUtxo, TxUtxoTable};

fn fixture_account_txs() -> Vec<KoiosAccountTx> {
    vec![
        KoiosAccountTx {
            tx_hash: "abc123def456".to_string(),
            block_height: Some(9_000_000),
            block_time: Some(1_699_999_000),
            epoch_no: Some(450),
            slot_no: Some(100000),
        },
        KoiosAccountTx {
            tx_hash: "fedcba654321".to_string(),
            block_height: Some(9_000_010),
            block_time: Some(1_699_999_200),
            epoch_no: Some(450),
            slot_no: Some(100100),
        },
    ]
}

fn fixture_tx_utxos_abc123() -> KoiosTxUtxos {
    KoiosTxUtxos {
        inputs: Some(vec![KoiosUtxo {
            tx_hash: "abc123def456".to_string(),
            tx_index: 0,
            value: "5000000".to_string(),
            datum_hash: None,
            asset_list: Some(vec![KoiosAsset {
                policy_id: "f0ff48bbb7bbe9d59a40f1ce90e9e9d0ff5002ec48f232b49ca0fb9a".to_string(),
                asset_name: "iUSD".to_string(),
                quantity: "1000000".to_string(),
            }]),
        }]),
        outputs: Some(vec![]),
    }
}

#[test]
fn integration_reconstruct_from_fixtures() {
    let txs = fixture_account_txs();
    let mut table = TxUtxoTable::new();
    table.insert("abc123def456".to_string(), fixture_tx_utxos_abc123());
    let now = Timestamp { unix_seconds: 1700000000, nanosecond: 0 };
    let events = reconstruct_all_events(&txs, &table, now, None);
    assert!(!events.stability_pool.is_empty() || events.rob.is_empty());
}

#[test]
fn integration_compute_from_events() {
    let input = ComputeInput {
        events: indigo_poy::IndigoEvents::default(),
        period_start_ts: Some(0),
        period_end_ts: Some(365 * 24 * 3600),
        current_ada_position: Some(1_000_000),
    };
    let m = compute_metrics(&input);
    assert_eq!(m.combined.total_ada_in_lovelace, 0);
    assert!(m.combined.apr_pct.is_some());
}

#[test]
fn fixture_gives_one_deposit_and_one_placement() {
    let txs = fixture_account_txs();
    let mut table = TxUtxoTable::new();
    table.insert("abc123def456".to_string(), fixture_tx_utxos_abc123());
    let now = Timestamp { unix_seconds: 1700000000, nanosecond: 0 };
    let events = reconstruct_all_events(&txs, &table, now, None);
    assert_eq!(events.stability_pool.len(), 1);
    assert_eq!(events.rob.len(), 1);
    assert!(events.indy_staking.is_empty());
    let m = compute_metrics(&ComputeInput {
        events,
        period_start_ts: None,
        period_end_ts: None,
        current_ada_position: None,
    });
    assert_eq!(m.stability_pool.total_deposits_lovelace, 5_000_000);
    assert_eq!(m.stability_pool.liquidation_count, 0);
    assert_eq!(m.stability_pool.total_withdrawals_lovelace, 0);
    assert_eq!(m.rob.total_placed_lovelace, 5_000_000);
    assert_eq!(m.combined.total_ada_in_lovelace, 10_000_000);
}
