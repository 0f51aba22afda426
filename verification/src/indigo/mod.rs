//! Protocol-specific reconstruction: from transactions to typed events.

use vstd::prelude::*;
use crate::chain::fetch::{tx_views, AccountTxView, KoiosAccountTx, TxUtxoEntry, TxUtxoTable};
use crate::order::lemma_stable_sort_idempotent;

pub mod events;
pub mod indy_staking;
pub mod invariance;
pub mod protocol_config;
pub mod rob;
pub mod stability_pool;

pub use events::{Event, EventKind, IndigoEvents};
pub use indy_staking::reconstruct_indy_staking_events;
pub use protocol_config::IndigoV2Config;
pub use rob::reconstruct_rob_events;
pub use stability_pool::reconstruct_stability_pool_events;

use events::{IndigoEventsView, Timestamp};
use indy_staking::reward_events;
use protocol_config::ConfigView;
use rob::order_events;
use stability_pool::pool_events;

verus! {

/// The configuration that reconstruction goes by: the one given, or the empty
/// one (heuristic mode) where none is given.
pub open spec fn config_or_empty(config: Option<ConfigView>) -> ConfigView {
    match config {
        Some(c) => c,
        None => ConfigView::empty(),
    }
}

/// The events of the transactions: every bucket ordered by slot, then
/// transaction hash; the bucket of other flows empty.
pub open spec fn all_events_of(
    txs: Seq<AccountTxView>,
    table: Seq<TxUtxoEntry>,
    now: Timestamp,
    config: Option<ConfigView>,
) -> IndigoEventsView {
    IndigoEventsView {
        stability_pool: pool_events(txs, table, now, config_or_empty(config)),
        rob: order_events(txs, table, now),
        indy_staking: reward_events(txs, table, now),
        other: Seq::empty(),
    }
}

/// Reconstructs all events of an account from its transactions and the UTXO
/// sets that were fetched for them.
///
/// The three classifiers run on every transaction, each on its own. With a
/// configuration, the pool classifier keeps to the identifiers listed in it;
/// without one it goes by the shape of the transaction alone.
pub fn reconstruct_all_events(
    account_txs: &[KoiosAccountTx],
    table: &TxUtxoTable,
    now: Timestamp,
    config: Option<&IndigoV2Config>,
) -> (events: IndigoEvents)
    ensures
        events@ == all_events_of(
            tx_views(account_txs@),
            table.entries@,
            now,
            match config {
                Some(c) => Some(c@),
                None => None,
            },
        ),
{
    let default_config = IndigoV2Config::default();
    let ghost given = match config {
        Some(c) => Some(c@),
        None => None,
    };
    let config = match config {
        Some(c) => c,
        None => &default_config,
    };
    let sp = reconstruct_stability_pool_events(account_txs, table, now, config);
    let rob = reconstruct_rob_events(account_txs, table, now);
    let indy = reconstruct_indy_staking_events(account_txs, table, now);
    let mut events = IndigoEvents { stability_pool: sp, rob, indy_staking: indy, other: Vec::new() };
    proof {
        lemma_stable_sort_idempotent(events@.stability_pool);
        lemma_stable_sort_idempotent(events@.rob);
        lemma_stable_sort_idempotent(events@.indy_staking);
        lemma_stable_sort_idempotent(
            stability_pool::pool_events_in_order(
                tx_views(account_txs@),
                table.entries@,
                now,
                config@,
            ),
        );
        lemma_stable_sort_idempotent(
            rob::order_events_in_order(tx_views(account_txs@), table.entries@, now),
        );
        lemma_stable_sort_idempotent(
            indy_staking::reward_events_in_order(tx_views(account_txs@), table.entries@, now),
        );
        assert(events@.other =~= Seq::empty());
    }
    events.sort_by_slot_then_tx();
    assert(events@.other =~= Seq::empty());
    events
}

} // verus!
