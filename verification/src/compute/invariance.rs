//! The totals of a fold do not depend on the order of the events: each is a
//! sum of what the events add, held at `u64::MAX`.

use vstd::prelude::*;
use crate::compute::metrics::{
    fill_premium, metrics_of, tally_of, ComputeInputView, Tally,
};
use crate::indigo::events::{EventKindView, EventView};

verus! {

/// The exact sums behind the totals, without any bound.
pub struct Sums {
    pub deposits: nat,
    pub withdrawals: nat,
    pub liquidations_received: nat,
    pub realized_premium: nat,
    pub liquidation_count: nat,
    pub placed: nat,
    pub filled: nat,
    pub premium_received: nat,
    pub fill_count: nat,
    pub rewards: nat,
    pub sp_premium: nat,
    pub reward_tx_count: nat,
    pub total_in: nat,
    pub total_out: nat,
}

impl Sums {
    /// Nothing added yet.
    pub open spec fn zero() -> Sums {
        Sums {
            deposits: 0,
            withdrawals: 0,
            liquidations_received: 0,
            realized_premium: 0,
            liquidation_count: 0,
            placed: 0,
            filled: 0,
            premium_received: 0,
            fill_count: 0,
            rewards: 0,
            sp_premium: 0,
            reward_tx_count: 0,
            total_in: 0,
            total_out: 0,
        }
    }

    /// The sums added up, one by one.
    pub open spec fn plus(self, other: Sums) -> Sums {
        Sums {
            deposits: self.deposits + other.deposits,
            withdrawals: self.withdrawals + other.withdrawals,
            liquidations_received: self.liquidations_received + other.liquidations_received,
            realized_premium: self.realized_premium + other.realized_premium,
            liquidation_count: self.liquidation_count + other.liquidation_count,
            placed: self.placed + other.placed,
            filled: self.filled + other.filled,
            premium_received: self.premium_received + other.premium_received,
            fill_count: self.fill_count + other.fill_count,
            rewards: self.rewards + other.rewards,
            sp_premium: self.sp_premium + other.sp_premium,
            reward_tx_count: self.reward_tx_count + other.reward_tx_count,
            total_in: self.total_in + other.total_in,
            total_out: self.total_out + other.total_out,
        }
    }
}

/// What one event adds to the sums.
pub open spec fn share(e: EventView) -> Sums {
    match e.kind {
        EventKindView::StabilityPoolDeposit { amount_lovelace, .. } => Sums {
            deposits: amount_lovelace as nat,
            total_in: amount_lovelace as nat,
            ..Sums::zero()
        },
        EventKindView::StabilityPoolWithdraw { amount_lovelace, .. } => Sums {
            withdrawals: amount_lovelace as nat,
            total_out: amount_lovelace as nat,
            ..Sums::zero()
        },
        EventKindView::StabilityPoolLiquidation {
            ada_received_lovelace,
            realized_premium_lovelace,
            ..
        } => Sums {
            liquidations_received: ada_received_lovelace as nat,
            realized_premium: realized_premium_lovelace as nat,
            liquidation_count: 1,
            total_out: ada_received_lovelace as nat,
            ..Sums::zero()
        },
        EventKindView::RobOrderPlace { amount_lovelace, .. } => Sums {
            placed: amount_lovelace as nat,
            total_in: amount_lovelace as nat,
            ..Sums::zero()
        },
        EventKindView::RobOrderFill { filled_lovelace, premium_pct, .. } => Sums {
            filled: filled_lovelace as nat,
            premium_received: fill_premium(filled_lovelace, premium_pct) as nat,
            fill_count: 1,
            total_out: filled_lovelace as nat,
            ..Sums::zero()
        },
        EventKindView::IndyStakingReward { amount_lovelace, .. } => Sums {
            rewards: amount_lovelace as nat,
            reward_tx_count: 1,
            total_out: amount_lovelace as nat,
            ..Sums::zero()
        },
        EventKindView::IndySpPremium { amount_lovelace, .. } => Sums {
            sp_premium: amount_lovelace as nat,
            total_out: amount_lovelace as nat,
            ..Sums::zero()
        },
        EventKindView::RobCooldown { .. } => Sums::zero(),
        EventKindView::OtherFlow { .. } => Sums::zero(),
    }
}

/// The exact sums of a run of events.
pub open spec fn sums_of(events: Seq<EventView>) -> Sums
    decreases events.len(),
{
    if events.len() == 0 {
        Sums::zero()
    } else {
        sums_of(events.drop_last()).plus(share(events.last()))
    }
}

/// `n`, held at `u64::MAX`.
pub open spec fn capped(n: nat) -> u64 {
    if n > u64::MAX {
        u64::MAX
    } else {
        n as u64
    }
}

/// Whether every total of the tally is its exact sum, held at `u64::MAX`.
pub open spec fn totals_are(t: Tally, s: Sums) -> bool {
    &&& t.deposits == capped(s.deposits)
    &&& t.withdrawals == capped(s.withdrawals)
    &&& t.liquidations_received == capped(s.liquidations_received)
    &&& t.realized_premium == capped(s.realized_premium)
    &&& t.liquidation_count == capped(s.liquidation_count)
    &&& t.placed == capped(s.placed)
    &&& t.filled == capped(s.filled)
    &&& t.premium_received == capped(s.premium_received)
    &&& t.fill_count == capped(s.fill_count)
    &&& t.rewards == capped(s.rewards)
    &&& t.sp_premium == capped(s.sp_premium)
    &&& t.reward_tx_count == capped(s.reward_tx_count)
    &&& t.total_in == capped(s.total_in)
    &&& t.total_out == capped(s.total_out)
}

/// Every total of a tally is the sum of what the events add, held at
/// `u64::MAX`: it reaches that bound exactly where the sum passes it.
pub proof fn lemma_totals_are_capped_sums(events: Seq<EventView>)
    ensures
        totals_are(tally_of(events), sums_of(events)),
    decreases events.len(),
{
    if events.len() > 0 {
        lemma_totals_are_capped_sums(events.drop_last());
    }
}

proof fn lemma_sums_without(events: Seq<EventView>, j: int)
    requires
        0 <= j < events.len(),
    ensures
        sums_of(events) == sums_of(events.remove(j)).plus(share(events[j])),
    decreases events.len(),
{
    let n = events.len() as int;
    if j == n - 1 {
        assert(events.remove(j) =~= events.drop_last());
    } else {
        lemma_sums_without(events.drop_last(), j);
        assert(events.remove(j).drop_last() =~= events.drop_last().remove(j));
        assert(events.remove(j).last() == events.last());
    }
}

/// The exact sums do not depend on the order of the events.
pub proof fn lemma_sums_order_independent(a: Seq<EventView>, b: Seq<EventView>)
    requires
        a.to_multiset() == b.to_multiset(),
    ensures
        sums_of(a) == sums_of(b),
    decreases a.len(),
{
    a.to_multiset_ensures();
    b.to_multiset_ensures();
    if a.len() == 0 {
        assert(b.len() == 0);
    } else {
        let n = a.len() as int;
        let x = a.last();
        assert(a.contains(a[n - 1]));
        assert(a.to_multiset().count(x) > 0);
        assert(b.to_multiset().count(x) > 0);
        assert(b.contains(x));
        let j = choose|j: int| 0 <= j < b.len() && b[j] == x;
        assert(a.remove(n - 1) =~= a.drop_last());
        vstd::seq_lib::to_multiset_remove(a, n - 1);
        vstd::seq_lib::to_multiset_remove(b, j);
        lemma_sums_order_independent(a.drop_last(), b.remove(j));
        lemma_sums_without(b, j);
    }
}

/// The totals of the metrics do not depend on the order of the events: two
/// inputs that hold the same events, in whatever buckets and order, and
/// agree in period and position, give the same totals, net figures and
/// terms of the annualised return. Only the premium samples follow the order.
pub proof fn lemma_totals_order_independent(x: ComputeInputView, y: ComputeInputView)
    requires
        x.events.all().to_multiset() == y.events.all().to_multiset(),
        x.period_start_ts == y.period_start_ts,
        x.period_end_ts == y.period_end_ts,
        x.current_ada_position == y.current_ada_position,
    ensures
        metrics_of(x).stability_pool == metrics_of(y).stability_pool,
        metrics_of(x).indy_staking == metrics_of(y).indy_staking,
        metrics_of(x).combined == metrics_of(y).combined,
        metrics_of(x).rob.total_placed_lovelace == metrics_of(y).rob.total_placed_lovelace,
        metrics_of(x).rob.total_filled_lovelace == metrics_of(y).rob.total_filled_lovelace,
        metrics_of(x).rob.total_premium_received_lovelace == metrics_of(
            y,
        ).rob.total_premium_received_lovelace,
        metrics_of(x).rob.fill_count == metrics_of(y).rob.fill_count,
{
    lemma_totals_are_capped_sums(x.events.all());
    lemma_totals_are_capped_sums(y.events.all());
    lemma_sums_order_independent(x.events.all(), y.events.all());
}

} // verus!
