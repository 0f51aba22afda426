//! Staking: reward-like flows, read off the whole input and output of each
//! transaction.

use vstd::prelude::*;
use vstd::string::*;
use crate::chain::fetch::{
    lookup_utxos, tx_views, AccountTxView, KoiosAccountTx, TxUtxoEntry, TxUtxoTable, TxUtxosView,
};
use crate::indigo::events::{
    event_time, event_timestamp, event_views, sort_bucket, Event, EventKind, EventKindView,
    EventView, Timestamp,
};
use crate::indigo::stability_pool::{sum_lovelace, total_lovelace};
use crate::order::stable_sort;

verus! {

/// The staking event of a transaction that takes `input` lovelace in and
/// gives `output` lovelace out: a reward of the difference where it gives
/// more than it takes, else none.
pub open spec fn reward_event(
    tx: AccountTxView,
    ts: Timestamp,
    input: u64,
    output: u64,
) -> Option<EventView> {
    if output > input {
        Some(
            EventView {
                kind: EventKindView::IndyStakingReward {
                    amount_lovelace: (output - input) as u64,
                    epoch: tx.epoch_no,
                    tx_hash: tx.tx_hash,
                },
                timestamp: ts,
                slot: tx.slot_no,
                tx_hash: tx.tx_hash,
                extra: None,
            },
        )
    } else {
        None
    }
}

/// The staking events of one transaction: one or none.
pub open spec fn reward_events_of_tx(tx: AccountTxView, utxos: TxUtxosView, now: Timestamp) -> Seq<
    EventView,
> {
    match reward_event(
        tx,
        event_time(tx.block_time, now),
        total_lovelace(utxos.inputs),
        total_lovelace(utxos.outputs),
    ) {
        Some(e) => seq![e],
        None => Seq::empty(),
    }
}

/// The staking events of the transactions, in the order of the transactions.
/// A transaction without a UTXO set in `table` gives none.
pub open spec fn reward_events_in_order(
    txs: Seq<AccountTxView>,
    table: Seq<TxUtxoEntry>,
    now: Timestamp,
) -> Seq<EventView>
    decreases txs.len(),
{
    if txs.len() == 0 {
        Seq::empty()
    } else {
        reward_events_in_order(txs.drop_last(), table, now) + match lookup_utxos(
            table,
            txs.last().tx_hash,
        ) {
            Some(utxos) => reward_events_of_tx(txs.last(), utxos, now),
            None => Seq::empty(),
        }
    }
}

/// The staking events of the transactions, ordered by slot, then transaction hash.
pub open spec fn reward_events(txs: Seq<AccountTxView>, table: Seq<TxUtxoEntry>, now: Timestamp) -> Seq<
    EventView,
> {
    stable_sort(reward_events_in_order(txs, table, now))
}

/// The staking event of a transaction with the given whole input and output.
pub fn classify_reward(tx: &KoiosAccountTx, ts: Timestamp, input: u64, output: u64) -> (r: Option<
    Event,
>)
    ensures
        match r {
            Some(e) => reward_event(tx@, ts, input, output) == Some(e@),
            None => reward_event(tx@, ts, input, output) is None,
        },
{
    if output > input {
        Some(
            Event {
                kind: EventKind::IndyStakingReward {
                    amount_lovelace: output - input,
                    epoch: tx.epoch_no,
                    tx_hash: tx.tx_hash.clone(),
                },
                timestamp: ts,
                slot: tx.slot_no,
                tx_hash: tx.tx_hash.clone(),
                extra: None,
            },
        )
    } else {
        None
    }
}

/// Reconstructs the staking rewards of an account.
///
/// Each transaction that has a UTXO set in `table` and gives out more than it
/// takes in gives a reward of the difference. The events come ordered by
/// slot, then transaction hash.
pub fn reconstruct_indy_staking_events(
    account_txs: &[KoiosAccountTx],
    table: &TxUtxoTable,
    now: Timestamp,
) -> (events: Vec<Event>)
    ensures
        event_views(events@) == reward_events(tx_views(account_txs@), table.entries@, now),
{
    let mut events: Vec<Event> = Vec::new();
    let ghost txs = tx_views(account_txs@);
    let mut i: usize = 0;
    assert(txs.take(0) =~= Seq::<AccountTxView>::empty());
    assert(event_views(events@) =~= Seq::<EventView>::empty());
    while i < account_txs.len()
        invariant
            i <= account_txs.len(),
            txs == tx_views(account_txs@),
            event_views(events@) == reward_events_in_order(txs.take(i as int), table.entries@, now),
        decreases account_txs.len() - i,
    {
        assert(txs.take(i + 1).drop_last() =~= txs.take(i as int));
        assert(txs.take(i + 1).last() == account_txs@[i as int]@);
        let tx = &account_txs[i];
        let ghost before = events@;
        match table.get(tx.tx_hash.as_str()) {
            Some(utxos) => {
                let ts = event_timestamp(tx.block_time, now);
                let input = sum_lovelace(&utxos.inputs);
                let output = sum_lovelace(&utxos.outputs);
                match classify_reward(tx, ts, input, output) {
                    Some(e) => {
                        events.push(e);
                        assert(event_views(events@) =~= event_views(before) + seq![e@]);
                    },
                    None => {
                        assert(event_views(events@) =~= event_views(before) + Seq::<
                            EventView,
                        >::empty());
                    },
                }
            },
            None => {
                assert(event_views(events@) =~= event_views(before) + Seq::<EventView>::empty());
            },
        }
        i += 1;
    }
    assert(txs.take(i as int) =~= txs);
    sort_bucket(&mut events);
    events
}

} // verus!
