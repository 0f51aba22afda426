//! What holds of every reconstruction: the order in which transactions come
//! does not matter, and a liquidation never earns more than it received.

use vstd::prelude::*;
use crate::chain::fetch::{lookup_utxos, AccountTxView, TxUtxoEntry, UtxoView};
use crate::compute::metrics::{metrics_of, ComputeInputView};
use crate::indigo::all_events_of;
use crate::indigo::events::{slot_or_zero, EventKindView, EventView, Timestamp};
use crate::indigo::indy_staking::{reward_events_in_order, reward_events_of_tx};
use crate::indigo::protocol_config::ConfigView;
use crate::indigo::rob::{order_events_in_order, order_events_of_tx};
use crate::indigo::stability_pool::{
    pool_events, pool_events_in_order, pool_events_of_tx, pool_input_events, pool_output_events,
    premium_within_received,
};
use crate::order::{
    flat, keeps_key, key_identifies, lemma_sort_flat, lemma_sort_keeps_all,
    lemma_sort_order_independent, SortKey, SortKeyed,
};
use crate::verify::bundle::{bundle_hash, BundleView};

verus! {

impl SortKeyed for AccountTxView {
    /// A transaction is ordered as its events are: by slot, then by hash.
    open spec fn sort_key(&self) -> SortKey {
        SortKey { slot: slot_or_zero(self.slot_no), hash: vstd::utf8::encode_utf8(self.tx_hash) }
    }
}

/// The transactions form a set: two entries with the same slot and hash are
/// the same transaction.
pub open spec fn is_tx_set(txs: Seq<AccountTxView>) -> bool {
    key_identifies(txs)
}

/// The pool events of one transaction, none where its UTXO set is missing.
pub open spec fn pool_events_for(
    tx: AccountTxView,
    table: Seq<TxUtxoEntry>,
    now: Timestamp,
    c: ConfigView,
) -> Seq<EventView> {
    match lookup_utxos(table, tx.tx_hash) {
        Some(utxos) => pool_events_of_tx(tx, utxos, now, c),
        None => Seq::empty(),
    }
}

/// The order-book events of one transaction, none where its UTXO set is missing.
pub open spec fn order_events_for(tx: AccountTxView, table: Seq<TxUtxoEntry>, now: Timestamp) -> Seq<
    EventView,
> {
    match lookup_utxos(table, tx.tx_hash) {
        Some(utxos) => order_events_of_tx(tx, utxos, now),
        None => Seq::empty(),
    }
}

/// The staking events of one transaction, none where its UTXO set is missing.
pub open spec fn reward_events_for(tx: AccountTxView, table: Seq<TxUtxoEntry>, now: Timestamp) -> Seq<
    EventView,
> {
    match lookup_utxos(table, tx.tx_hash) {
        Some(utxos) => reward_events_of_tx(tx, utxos, now),
        None => Seq::empty(),
    }
}

proof fn lemma_pool_in_order_is_flat(
    txs: Seq<AccountTxView>,
    table: Seq<TxUtxoEntry>,
    now: Timestamp,
    c: ConfigView,
)
    ensures
        pool_events_in_order(txs, table, now, c) == flat(
            txs,
            |tx: AccountTxView| pool_events_for(tx, table, now, c),
        ),
    decreases txs.len(),
{
    if txs.len() > 0 {
        lemma_pool_in_order_is_flat(txs.drop_last(), table, now, c);
    }
}

proof fn lemma_order_in_order_is_flat(txs: Seq<AccountTxView>, table: Seq<TxUtxoEntry>, now: Timestamp)
    ensures
        order_events_in_order(txs, table, now) == flat(
            txs,
            |tx: AccountTxView| order_events_for(tx, table, now),
        ),
    decreases txs.len(),
{
    if txs.len() > 0 {
        lemma_order_in_order_is_flat(txs.drop_last(), table, now);
    }
}

proof fn lemma_reward_in_order_is_flat(txs: Seq<AccountTxView>, table: Seq<TxUtxoEntry>, now: Timestamp)
    ensures
        reward_events_in_order(txs, table, now) == flat(
            txs,
            |tx: AccountTxView| reward_events_for(tx, table, now),
        ),
    decreases txs.len(),
{
    if txs.len() > 0 {
        lemma_reward_in_order_is_flat(txs.drop_last(), table, now);
    }
}

/// The transaction hash that an event kind states.
pub open spec fn stated_tx_hash(k: EventKindView) -> Seq<char> {
    match k {
        EventKindView::StabilityPoolDeposit { tx_hash, .. } => tx_hash,
        EventKindView::StabilityPoolWithdraw { tx_hash, .. } => tx_hash,
        EventKindView::StabilityPoolLiquidation { tx_hash, .. } => tx_hash,
        EventKindView::RobOrderPlace { tx_hash, .. } => tx_hash,
        EventKindView::RobOrderFill { tx_hash, .. } => tx_hash,
        EventKindView::RobCooldown { tx_hash, .. } => tx_hash,
        EventKindView::IndyStakingReward { tx_hash, .. } => tx_hash,
        EventKindView::IndySpPremium { tx_hash, .. } => tx_hash,
        EventKindView::OtherFlow { tx_hash, .. } => tx_hash,
    }
}

/// Whether an event carries the slot and the hash of `tx`, the hash in its
/// kind too.
pub open spec fn belongs_to(e: EventView, tx: AccountTxView) -> bool {
    e.slot == tx.slot_no && e.tx_hash == tx.tx_hash && stated_tx_hash(e.kind) == tx.tx_hash
}

proof fn lemma_pool_outputs_belong(
    tx: AccountTxView,
    ts: Timestamp,
    input_total: u64,
    outputs: Seq<UtxoView>,
    c: ConfigView,
)
    ensures
        forall|i: int|
            0 <= i < pool_output_events(tx, ts, input_total, outputs, c).len() ==> belongs_to(
                #[trigger] pool_output_events(tx, ts, input_total, outputs, c)[i],
                tx,
            ) && premium_within_received(pool_output_events(tx, ts, input_total, outputs, c)[i]),
    decreases outputs.len(),
{
    if outputs.len() > 0 {
        lemma_pool_outputs_belong(tx, ts, input_total, outputs.drop_last(), c);
        let rest = pool_output_events(tx, ts, input_total, outputs.drop_last(), c);
        let all = pool_output_events(tx, ts, input_total, outputs, c);
        assert forall|i: int| 0 <= i < all.len() implies belongs_to(#[trigger] all[i], tx)
            && premium_within_received(all[i]) by {
            if i < rest.len() {
                assert(all[i] == rest[i]);
            }
        }
    }
}

proof fn lemma_pool_inputs_belong(tx: AccountTxView, ts: Timestamp, inputs: Seq<UtxoView>, c: ConfigView)
    ensures
        forall|i: int|
            0 <= i < pool_input_events(tx, ts, inputs, c).len() ==> belongs_to(
                #[trigger] pool_input_events(tx, ts, inputs, c)[i],
                tx,
            ) && premium_within_received(pool_input_events(tx, ts, inputs, c)[i]),
    decreases inputs.len(),
{
    if inputs.len() > 0 {
        lemma_pool_inputs_belong(tx, ts, inputs.drop_last(), c);
        let rest = pool_input_events(tx, ts, inputs.drop_last(), c);
        let all = pool_input_events(tx, ts, inputs, c);
        assert forall|i: int| 0 <= i < all.len() implies belongs_to(#[trigger] all[i], tx)
            && premium_within_received(all[i]) by {
            if i < rest.len() {
                assert(all[i] == rest[i]);
            }
        }
    }
}

/// Every event of a transaction carries the slot and the hash of that
/// transaction, whichever classifier made it.
pub proof fn lemma_events_belong_to_their_tx(
    tx: AccountTxView,
    table: Seq<TxUtxoEntry>,
    now: Timestamp,
    c: ConfigView,
)
    ensures
        forall|i: int|
            0 <= i < pool_events_for(tx, table, now, c).len() ==> belongs_to(
                #[trigger] pool_events_for(tx, table, now, c)[i],
                tx,
            ) && premium_within_received(pool_events_for(tx, table, now, c)[i]),
        forall|i: int|
            0 <= i < order_events_for(tx, table, now).len() ==> belongs_to(
                #[trigger] order_events_for(tx, table, now)[i],
                tx,
            ),
        forall|i: int|
            0 <= i < reward_events_for(tx, table, now).len() ==> belongs_to(
                #[trigger] reward_events_for(tx, table, now)[i],
                tx,
            ),
{
    match lookup_utxos(table, tx.tx_hash) {
        Some(utxos) => {
            let ts = crate::indigo::events::event_time(tx.block_time, now);
            let total = crate::indigo::stability_pool::total_lovelace(utxos.inputs);
            lemma_pool_outputs_belong(tx, ts, total, utxos.outputs, c);
            lemma_pool_inputs_belong(tx, ts, utxos.inputs, c);
        },
        None => {},
    }
}

/// The realized premium of a liquidation never exceeds what the liquidation
/// received, whatever the inputs and outputs of the transactions hold, an
/// empty input among them.
pub proof fn lemma_premium_never_exceeds_received(
    txs: Seq<AccountTxView>,
    table: Seq<TxUtxoEntry>,
    now: Timestamp,
    c: ConfigView,
)
    ensures
        forall|i: int|
            0 <= i < pool_events(txs, table, now, c).len() ==> premium_within_received(
                #[trigger] pool_events(txs, table, now, c)[i],
            ),
{
    lemma_in_order_within(txs, table, now, c);
    lemma_sort_keeps_all(
        pool_events_in_order(txs, table, now, c),
        |e: EventView| premium_within_received(e),
    );
}

proof fn lemma_in_order_within(
    txs: Seq<AccountTxView>,
    table: Seq<TxUtxoEntry>,
    now: Timestamp,
    c: ConfigView,
)
    ensures
        forall|i: int|
            0 <= i < pool_events_in_order(txs, table, now, c).len() ==> premium_within_received(
                #[trigger] pool_events_in_order(txs, table, now, c)[i],
            ),
    decreases txs.len(),
{
    if txs.len() > 0 {
        lemma_in_order_within(txs.drop_last(), table, now, c);
        lemma_events_belong_to_their_tx(txs.last(), table, now, c);
        let head = pool_events_in_order(txs.drop_last(), table, now, c);
        let tail = pool_events_for(txs.last(), table, now, c);
        assert forall|i: int|
            0 <= i < pool_events_in_order(
                txs,
                table,
                now,
                c,
            ).len() implies premium_within_received(
            #[trigger] pool_events_in_order(txs, table, now, c)[i],
        ) by {
            if i < head.len() {
                assert(pool_events_in_order(txs, table, now, c)[i] == head[i]);
            } else {
                assert(pool_events_in_order(txs, table, now, c)[i] == tail[i - head.len()]);
            }
        }
    }
}

/// Reconstruction does not depend on the order in which the transactions
/// come: two runs of the same set of transactions give the same events in
/// every bucket.
pub proof fn lemma_reconstruction_order_independent(
    a: Seq<AccountTxView>,
    b: Seq<AccountTxView>,
    table: Seq<TxUtxoEntry>,
    now: Timestamp,
    config: Option<ConfigView>,
)
    requires
        a.to_multiset() == b.to_multiset(),
        is_tx_set(a),
    ensures
        all_events_of(a, table, now, config) == all_events_of(b, table, now, config),
{
    let c = crate::indigo::config_or_empty(config);
    let pool = |tx: AccountTxView| pool_events_for(tx, table, now, c);
    let order = |tx: AccountTxView| order_events_for(tx, table, now);
    let reward = |tx: AccountTxView| reward_events_for(tx, table, now);
    lemma_sort_order_independent(a, b);
    assert(keeps_key(pool) && keeps_key(order) && keeps_key(reward)) by {
        assert forall|t: AccountTxView, i: int| 0 <= i < pool(t).len() implies (#[trigger] pool(
            t,
        )[i]).sort_key() == t.sort_key() by {
            lemma_events_belong_to_their_tx(t, table, now, c);
            assert(belongs_to(pool_events_for(t, table, now, c)[i], t));
        }
        assert forall|t: AccountTxView, i: int| 0 <= i < order(t).len() implies (#[trigger] order(
            t,
        )[i]).sort_key() == t.sort_key() by {
            lemma_events_belong_to_their_tx(t, table, now, c);
            assert(belongs_to(order_events_for(t, table, now)[i], t));
        }
        assert forall|t: AccountTxView, i: int| 0 <= i < reward(t).len() implies (#[trigger] reward(
            t,
        )[i]).sort_key() == t.sort_key() by {
            lemma_events_belong_to_their_tx(t, table, now, c);
            assert(belongs_to(reward_events_for(t, table, now)[i], t));
        }
    }
    lemma_pool_in_order_is_flat(a, table, now, c);
    lemma_pool_in_order_is_flat(b, table, now, c);
    lemma_order_in_order_is_flat(a, table, now);
    lemma_order_in_order_is_flat(b, table, now);
    lemma_reward_in_order_is_flat(a, table, now);
    lemma_reward_in_order_is_flat(b, table, now);
    lemma_sort_flat(a, pool);
    lemma_sort_flat(b, pool);
    lemma_sort_flat(a, order);
    lemma_sort_flat(b, order);
    lemma_sort_flat(a, reward);
    lemma_sort_flat(b, reward);
}

/// With the events, the metrics and the hash of the bundle do not depend on
/// the order of the transactions either: for the same period, position and
/// frozen time of creation, two runs of the same transactions give the same
/// metrics, and bundles made of them have the same hash.
pub proof fn lemma_bundle_order_independent(
    a: Seq<AccountTxView>,
    b: Seq<AccountTxView>,
    table: Seq<TxUtxoEntry>,
    now: Timestamp,
    config: Option<ConfigView>,
    input: ComputeInputView,
    bundle: BundleView,
)
    requires
        a.to_multiset() == b.to_multiset(),
        is_tx_set(a),
    ensures
        metrics_of(ComputeInputView { events: all_events_of(a, table, now, config), ..input })
            == metrics_of(ComputeInputView { events: all_events_of(b, table, now, config), ..input }),
        bundle_hash(
            BundleView {
                events: all_events_of(a, table, now, config),
                metrics: metrics_of(
                    ComputeInputView { events: all_events_of(a, table, now, config), ..input },
                ),
                ..bundle
            },
        ) == bundle_hash(
            BundleView {
                events: all_events_of(b, table, now, config),
                metrics: metrics_of(
                    ComputeInputView { events: all_events_of(b, table, now, config), ..input },
                ),
                ..bundle
            },
        ),
{
    lemma_reconstruction_order_independent(a, b, table, now, config);
}

} // verus!
