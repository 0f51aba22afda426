//! Stability pool: deposits, withdrawals and liquidations, read off the
//! inputs and outputs of each transaction.

use vstd::prelude::*;
use vstd::string::*;
use crate::chain::fetch::{
    lookup_utxos, tx_views, utxo_views, AccountTxView, AssetView, KoiosAccountTx, KoiosAsset,
    KoiosUtxo, TxUtxoEntry, TxUtxoTable, TxUtxosView, UtxoView,
};
use crate::indigo::events::{
    event_time, event_timestamp, event_views, sort_bucket, Event, EventKind, EventKindView,
    EventView, Timestamp,
};
use crate::indigo::invariance::lemma_premium_never_exceeds_received;
use crate::indigo::protocol_config::{admits, admits_datum, ConfigView, IndigoV2Config};
use crate::order::stable_sort;
use crate::text::{parse_u64, parse_u64_spec, trim, trimmed};

verus! {

/// The amount that a value string holds: its decimal number, whitespace
/// around it ignored, or 0 where it is no such number.
pub open spec fn lovelace(value: Seq<char>) -> u64 {
    match parse_u64_spec(trimmed(value)) {
        Some(n) => n,
        None => 0,
    }
}

/// `a + b`, held at `u64::MAX`.
pub open spec fn sat_add(a: u64, b: u64) -> u64 {
    if a + b > u64::MAX {
        u64::MAX
    } else {
        (a + b) as u64
    }
}

/// The amounts of `utxos` added up; the sum is held at `u64::MAX`.
pub open spec fn total_lovelace(utxos: Seq<UtxoView>) -> u64
    decreases utxos.len(),
{
    if utxos.len() == 0 {
        0
    } else {
        sat_add(total_lovelace(utxos.drop_last()), lovelace(utxos.last().value))
    }
}

/// Whether a UTXO counts as one of the stability pool: its datum hash is
/// admitted, it carries an asset, and the policy of its first asset is admitted.
pub open spec fn is_pool_utxo(u: UtxoView, c: ConfigView) -> bool {
    &&& admits_datum(c.stability_pool_datum_hashes, u.datum_hash)
    &&& u.asset_list matches Some(assets)
    &&& assets.len() > 0
    &&& admits(c.iasset_policy_ids, assets[0].policy_id)
}

/// How an asset is named in events: policy id, `$`, asset name.
pub open spec fn asset_label(a: AssetView) -> Seq<char> {
    a.policy_id + seq!['$'] + a.asset_name
}

/// The event of an output of the pool that carries `ada > 0` lovelace: a
/// liquidation where that is at least the whole input of the transaction and
/// the input is not zero, else a withdrawal.
pub open spec fn pool_output_event(
    tx: AccountTxView,
    ts: Timestamp,
    input_total: u64,
    u: UtxoView,
) -> EventView {
    let ada = lovelace(u.value);
    let label = asset_label(u.asset_list->0[0]);
    EventView {
        kind: if ada >= input_total && input_total > 0 {
            EventKindView::StabilityPoolLiquidation {
                iasset_burnt: label,
                ada_received_lovelace: ada,
                realized_premium_lovelace: (ada - input_total) as u64,
                dilution_effect: None,
                tx_hash: tx.tx_hash,
                slot: tx.slot_no,
            }
        } else {
            EventKindView::StabilityPoolWithdraw {
                amount_lovelace: ada,
                iasset_amount: Some(label),
                tx_hash: tx.tx_hash,
            }
        },
        timestamp: ts,
        slot: tx.slot_no,
        tx_hash: tx.tx_hash,
        extra: None,
    }
}

/// The deposit event of an input of the pool.
pub open spec fn pool_input_event(tx: AccountTxView, ts: Timestamp, u: UtxoView) -> EventView {
    EventView {
        kind: EventKindView::StabilityPoolDeposit {
            amount_lovelace: lovelace(u.value),
            iasset_amount: Some(asset_label(u.asset_list->0[0])),
            tx_hash: tx.tx_hash,
        },
        timestamp: ts,
        slot: tx.slot_no,
        tx_hash: tx.tx_hash,
        extra: None,
    }
}

/// Whether a UTXO gives a pool event: it is one of the pool and is not empty.
pub open spec fn counts_for_pool(u: UtxoView, c: ConfigView) -> bool {
    is_pool_utxo(u, c) && lovelace(u.value) > 0
}

/// The events of the outputs of one transaction, in the order of the outputs.
pub open spec fn pool_output_events(
    tx: AccountTxView,
    ts: Timestamp,
    input_total: u64,
    outputs: Seq<UtxoView>,
    c: ConfigView,
) -> Seq<EventView>
    decreases outputs.len(),
{
    if outputs.len() == 0 {
        Seq::empty()
    } else {
        let rest = pool_output_events(tx, ts, input_total, outputs.drop_last(), c);
        if counts_for_pool(outputs.last(), c) {
            rest.push(pool_output_event(tx, ts, input_total, outputs.last()))
        } else {
            rest
        }
    }
}

/// The deposits of one transaction, in the order of its inputs.
pub open spec fn pool_input_events(
    tx: AccountTxView,
    ts: Timestamp,
    inputs: Seq<UtxoView>,
    c: ConfigView,
) -> Seq<EventView>
    decreases inputs.len(),
{
    if inputs.len() == 0 {
        Seq::empty()
    } else {
        let rest = pool_input_events(tx, ts, inputs.drop_last(), c);
        if counts_for_pool(inputs.last(), c) {
            rest.push(pool_input_event(tx, ts, inputs.last()))
        } else {
            rest
        }
    }
}

/// The pool events of one transaction: those of its outputs, then its deposits.
pub open spec fn pool_events_of_tx(
    tx: AccountTxView,
    utxos: TxUtxosView,
    now: Timestamp,
    c: ConfigView,
) -> Seq<EventView> {
    let ts = event_time(tx.block_time, now);
    pool_output_events(tx, ts, total_lovelace(utxos.inputs), utxos.outputs, c) + pool_input_events(
        tx,
        ts,
        utxos.inputs,
        c,
    )
}

/// The pool events of the transactions, in the order of the transactions. A
/// transaction without a UTXO set in `table` gives none.
pub open spec fn pool_events_in_order(
    txs: Seq<AccountTxView>,
    table: Seq<TxUtxoEntry>,
    now: Timestamp,
    c: ConfigView,
) -> Seq<EventView>
    decreases txs.len(),
{
    if txs.len() == 0 {
        Seq::empty()
    } else {
        pool_events_in_order(txs.drop_last(), table, now, c) + match lookup_utxos(
            table,
            txs.last().tx_hash,
        ) {
            Some(utxos) => pool_events_of_tx(txs.last(), utxos, now, c),
            None => Seq::empty(),
        }
    }
}

/// The pool events of the transactions, ordered by slot, then transaction hash.
pub open spec fn pool_events(
    txs: Seq<AccountTxView>,
    table: Seq<TxUtxoEntry>,
    now: Timestamp,
    c: ConfigView,
) -> Seq<EventView> {
    stable_sort(pool_events_in_order(txs, table, now, c))
}

/// Whether an event, if it is a liquidation, states a premium that is no
/// more than what was received.
pub open spec fn premium_within_received(e: EventView) -> bool {
    e.kind matches EventKindView::StabilityPoolLiquidation {
        ada_received_lovelace,
        realized_premium_lovelace,
        ..
    } ==> realized_premium_lovelace <= ada_received_lovelace
}

/// The amount in lovelace that a value string holds, 0 where it holds none.
pub fn parse_lovelace(s: &str) -> (r: u64)
    ensures
        r == lovelace(s@),
{
    match parse_u64(trim(s)) {
        Some(n) => n,
        None => 0,
    }
}

/// The amounts of a list of UTXOs added up, held at `u64::MAX`.
pub fn sum_lovelace(list: &Option<Vec<KoiosUtxo>>) -> (r: u64)
    ensures
        r == total_lovelace(utxo_views(*list)),
{
    match list {
        Some(v) => {
            let mut total: u64 = 0;
            let mut i: usize = 0;
            let ghost all = utxo_views(*list);
            assert(all.take(0) =~= Seq::<UtxoView>::empty());
            while i < v.len()
                invariant
                    i <= v.len(),
                    all == v@.map_values(|u: KoiosUtxo| u@),
                    total == total_lovelace(all.take(i as int)),
                decreases v.len() - i,
            {
                assert(all.take(i + 1).drop_last() =~= all.take(i as int));
                total = total.saturating_add(parse_lovelace(v[i].value.as_str()));
                i += 1;
            }
            assert(all.take(i as int) =~= all);
            total
        },
        None => 0,
    }
}

/// Whether a UTXO counts as one of the stability pool.
pub fn is_sp_utxo(utxo: &KoiosUtxo, config: &IndigoV2Config) -> (r: bool)
    ensures
        r == is_pool_utxo(utxo@, config@),
{
    let datum = match &utxo.datum_hash {
        Some(d) => Some(d.as_str()),
        None => None,
    };
    if !config.is_stability_pool_datum(datum) {
        return false;
    }
    match &utxo.asset_list {
        Some(assets) => {
            if assets.len() == 0 {
                false
            } else {
                config.is_known_iasset_policy(assets[0].policy_id.as_str())
            }
        },
        None => false,
    }
}

/// The name of an asset in events: policy id, `$`, asset name.
pub fn asset_label_of(asset: &KoiosAsset) -> (r: String)
    ensures
        r@ == asset_label(asset@),
{
    proof {
        reveal_strlit("$");
    }
    let mut label = asset.policy_id.clone();
    label.append("$");
    label.append(asset.asset_name.as_str());
    assert(label@ =~= asset_label(asset@));
    label
}

/// The name of the first asset of a UTXO that carries one.
fn first_asset_label(utxo: &KoiosUtxo) -> (r: String)
    requires
        utxo@.asset_list matches Some(assets) && assets.len() > 0,
    ensures
        r@ == asset_label(utxo@.asset_list->0[0]),
{
    match &utxo.asset_list {
        Some(assets) => asset_label_of(&assets[0]),
        None => String::new(),
    }
}

fn output_event(tx: &KoiosAccountTx, ts: Timestamp, input_total: u64, utxo: &KoiosUtxo) -> (r: Event)
    requires
        utxo@.asset_list matches Some(assets) && assets.len() > 0,
    ensures
        r@ == pool_output_event(tx@, ts, input_total, utxo@),
{
    let ada = parse_lovelace(utxo.value.as_str());
    let label = first_asset_label(utxo);
    let kind = if ada >= input_total && input_total > 0 {
        EventKind::StabilityPoolLiquidation {
            iasset_burnt: label,
            ada_received_lovelace: ada,
            realized_premium_lovelace: ada - input_total,
            dilution_effect: None,
            tx_hash: tx.tx_hash.clone(),
            slot: tx.slot_no,
        }
    } else {
        EventKind::StabilityPoolWithdraw {
            amount_lovelace: ada,
            iasset_amount: Some(label),
            tx_hash: tx.tx_hash.clone(),
        }
    };
    Event { kind, timestamp: ts, slot: tx.slot_no, tx_hash: tx.tx_hash.clone(), extra: None }
}

fn input_event(tx: &KoiosAccountTx, ts: Timestamp, utxo: &KoiosUtxo) -> (r: Event)
    requires
        utxo@.asset_list matches Some(assets) && assets.len() > 0,
    ensures
        r@ == pool_input_event(tx@, ts, utxo@),
{
    Event {
        kind: EventKind::StabilityPoolDeposit {
            amount_lovelace: parse_lovelace(utxo.value.as_str()),
            iasset_amount: Some(first_asset_label(utxo)),
            tx_hash: tx.tx_hash.clone(),
        },
        timestamp: ts,
        slot: tx.slot_no,
        tx_hash: tx.tx_hash.clone(),
        extra: None,
    }
}

fn push_output_events(
    events: &mut Vec<Event>,
    tx: &KoiosAccountTx,
    ts: Timestamp,
    input_total: u64,
    outputs: &Option<Vec<KoiosUtxo>>,
    config: &IndigoV2Config,
)
    ensures
        event_views(final(events)@) == event_views(old(events)@) + pool_output_events(
            tx@,
            ts,
            input_total,
            utxo_views(*outputs),
            config@,
        ),
{
    let ghost start = event_views(events@);
    let ghost all = utxo_views(*outputs);
    assert(event_views(events@) =~= start + Seq::<EventView>::empty());
    match outputs {
        Some(v) => {
            let mut i: usize = 0;
            assert(all.take(0) =~= Seq::<UtxoView>::empty());
            while i < v.len()
                invariant
                    i <= v.len(),
                    all == v@.map_values(|u: KoiosUtxo| u@),
                    event_views(events@) == start + pool_output_events(
                        tx@,
                        ts,
                        input_total,
                        all.take(i as int),
                        config@,
                    ),
                decreases v.len() - i,
            {
                assert(all.take(i + 1).drop_last() =~= all.take(i as int));
                assert(all.take(i + 1).last() == v@[i as int]@);
                let utxo = &v[i];
                if is_sp_utxo(utxo, config) && parse_lovelace(utxo.value.as_str()) > 0 {
                    let ghost before = events@;
                    let e = output_event(tx, ts, input_total, utxo);
                    events.push(e);
                    assert(event_views(events@) =~= event_views(before).push(e@));
                    assert(event_views(events@) =~= start + pool_output_events(
                        tx@,
                        ts,
                        input_total,
                        all.take(i + 1),
                        config@,
                    ));
                }
                i += 1;
            }
            assert(all.take(i as int) =~= all);
        },
        None => {},
    }
}

fn push_input_events(
    events: &mut Vec<Event>,
    tx: &KoiosAccountTx,
    ts: Timestamp,
    inputs: &Option<Vec<KoiosUtxo>>,
    config: &IndigoV2Config,
)
    ensures
        event_views(final(events)@) == event_views(old(events)@) + pool_input_events(
            tx@,
            ts,
            utxo_views(*inputs),
            config@,
        ),
{
    let ghost start = event_views(events@);
    let ghost all = utxo_views(*inputs);
    assert(event_views(events@) =~= start + Seq::<EventView>::empty());
    match inputs {
        Some(v) => {
            let mut i: usize = 0;
            assert(all.take(0) =~= Seq::<UtxoView>::empty());
            while i < v.len()
                invariant
                    i <= v.len(),
                    all == v@.map_values(|u: KoiosUtxo| u@),
                    event_views(events@) == start + pool_input_events(
                        tx@,
                        ts,
                        all.take(i as int),
                        config@,
                    ),
                decreases v.len() - i,
            {
                assert(all.take(i + 1).drop_last() =~= all.take(i as int));
                assert(all.take(i + 1).last() == v@[i as int]@);
                let utxo = &v[i];
                if is_sp_utxo(utxo, config) && parse_lovelace(utxo.value.as_str()) > 0 {
                    let ghost before = events@;
                    let e = input_event(tx, ts, utxo);
                    events.push(e);
                    assert(event_views(events@) =~= event_views(before).push(e@));
                    assert(event_views(events@) =~= start + pool_input_events(
                        tx@,
                        ts,
                        all.take(i + 1),
                        config@,
                    ));
                }
                i += 1;
            }
            assert(all.take(i as int) =~= all);
        },
        None => {},
    }
}

/// Reconstructs the stability pool events of an account.
///
/// Each transaction that has a UTXO set in `table` gives, for every output of
/// the pool with a positive amount, a liquidation or a withdrawal, and for
/// every such input a deposit. The events come ordered by slot, then
/// transaction hash.
pub fn reconstruct_stability_pool_events(
    account_txs: &[KoiosAccountTx],
    table: &TxUtxoTable,
    now: Timestamp,
    config: &IndigoV2Config,
) -> (events: Vec<Event>)
    ensures
        event_views(events@) == pool_events(tx_views(account_txs@), table.entries@, now, config@),
        forall|i: int| 0 <= i < events@.len() ==> premium_within_received((#[trigger] events@[i])@),
{
    let mut events: Vec<Event> = Vec::new();
    let ghost txs = tx_views(account_txs@);
    let mut i: usize = 0;
    assert(txs.take(0) =~= Seq::<AccountTxView>::empty());
    assert(event_views(events@) =~= Seq::<EventView>::empty());
    while i < account_txs.len()
        invariant
            i <= account_txs.len(),
            txs == tx_views(account_txs@),
            event_views(events@) == pool_events_in_order(
                txs.take(i as int),
                table.entries@,
                now,
                config@,
            ),
        decreases account_txs.len() - i,
    {
        assert(txs.take(i + 1).drop_last() =~= txs.take(i as int));
        assert(txs.take(i + 1).last() == account_txs@[i as int]@);
        let tx = &account_txs[i];
        let ghost before = event_views(events@);
        match table.get(tx.tx_hash.as_str()) {
            Some(utxos) => {
                let ts = event_timestamp(tx.block_time, now);
                let input_total = sum_lovelace(&utxos.inputs);
                push_output_events(&mut events, tx, ts, input_total, &utxos.outputs, config);
                push_input_events(&mut events, tx, ts, &utxos.inputs, config);
                assert(event_views(events@) =~= before + pool_events_of_tx(
                    tx@,
                    utxos@,
                    now,
                    config@,
                ));
            },
            None => {
                assert(event_views(events@) =~= before + Seq::<EventView>::empty());
            },
        }
        i += 1;
    }
    assert(txs.take(i as int) =~= txs);
    sort_bucket(&mut events);
    proof {
        lemma_premium_never_exceeds_received(txs, table.entries@, now, config@);
        assert forall|i: int| 0 <= i < events@.len() implies premium_within_received(
            (#[trigger] events@[i])@,
        ) by {
            let sorted = pool_events(txs, table.entries@, now, config@);
            assert(sorted.len() == events@.len());
            assert(sorted[i] == events@[i]@);
            assert(premium_within_received(sorted[i]));
        }
    }
    events
}

} // verus!
