//! The metrics of an event set: one fold over all events, every sum held at
//! the largest value its type can take.

use vstd::prelude::*;
use vstd::string::*;
use crate::chain::fetch::{opt_text, KoiosAccountTx};
use crate::indigo::events::{
    event_ref_views, percent_millionths, Event, EventKind, EventKindView, EventView,
    IndigoEvents, IndigoEventsView, PremiumRate, MILLIONTHS,
};
use crate::indigo::stability_pool::sat_add;

verus! {

/// The seconds of a year of 365.25 days.
pub const SECONDS_PER_YEAR: u64 = 31_557_600;

/// What is to be measured: the events, and optionally the reporting period
/// (Unix seconds) and the current position in lovelace.
#[derive(Clone, Debug)]
pub struct ComputeInput {
    pub events: IndigoEvents,
    pub period_start_ts: Option<i64>,
    pub period_end_ts: Option<i64>,
    pub current_ada_position: Option<u64>,
}

/// The mathematical value of a [`ComputeInput`].
pub struct ComputeInputView {
    pub events: IndigoEventsView,
    pub period_start_ts: Option<i64>,
    pub period_end_ts: Option<i64>,
    pub current_ada_position: Option<u64>,
}

impl View for ComputeInput {
    type V = ComputeInputView;

    open spec fn view(&self) -> ComputeInputView {
        ComputeInputView {
            events: self.events@,
            period_start_ts: self.period_start_ts,
            period_end_ts: self.period_end_ts,
            current_ada_position: self.current_ada_position,
        }
    }
}

/// How a position was diluted, where that is known.
#[derive(Clone, Debug)]
pub struct DilutionModel {
    pub total_iasset_at_risk: Option<String>,
    pub user_share_pct: Option<PremiumRate>,
    pub dilution_effect_lovelace: Option<u64>,
}

/// The mathematical value of a [`DilutionModel`].
pub struct DilutionView {
    pub total_iasset_at_risk: Option<Seq<char>>,
    pub user_share_pct: Option<PremiumRate>,
    pub dilution_effect_lovelace: Option<u64>,
}

impl View for DilutionModel {
    type V = DilutionView;

    open spec fn view(&self) -> DilutionView {
        DilutionView {
            total_iasset_at_risk: opt_text(self.total_iasset_at_risk),
            user_share_pct: self.user_share_pct,
            dilution_effect_lovelace: self.dilution_effect_lovelace,
        }
    }
}

/// Totals of the stability pool, in lovelace.
#[derive(Clone, Copy, Debug, PartialEq, Eq)]
pub struct StabilityPoolMetrics {
    pub total_deposits_lovelace: u64,
    pub total_withdrawals_lovelace: u64,
    pub total_liquidations_ada_received_lovelace: u64,
    pub total_realized_premium_lovelace: u64,
    pub net_ada_from_liquidations_lovelace: i64,
    pub liquidation_count: u64,
}

/// Totals of the order book, in lovelace.
///
/// `premium_samples` holds the premium of every fill that states one, in the
/// order of the events. The average premium is their running two-point mean:
/// the first sample, then with each further sample half the sum of the mean
/// so far and that sample. It depends on the order of the samples;
/// [`RobMetrics::avg_premium_millionths`] works it out.
#[derive(Clone, Debug)]
pub struct RobMetrics {
    pub total_placed_lovelace: u64,
    pub total_filled_lovelace: u64,
    pub total_premium_received_lovelace: u64,
    pub premium_samples: Vec<PremiumRate>,
    pub fill_count: u64,
}

/// The mathematical value of a [`RobMetrics`].
pub struct RobMetricsView {
    pub total_placed_lovelace: u64,
    pub total_filled_lovelace: u64,
    pub total_premium_received_lovelace: u64,
    pub premium_samples: Seq<PremiumRate>,
    pub fill_count: u64,
}

impl View for RobMetrics {
    type V = RobMetricsView;

    open spec fn view(&self) -> RobMetricsView {
        RobMetricsView {
            total_placed_lovelace: self.total_placed_lovelace,
            total_filled_lovelace: self.total_filled_lovelace,
            total_premium_received_lovelace: self.total_premium_received_lovelace,
            premium_samples: self.premium_samples@,
            fill_count: self.fill_count,
        }
    }
}

/// Totals of staking, in lovelace.
#[derive(Clone, Copy, Debug, PartialEq, Eq)]
pub struct IndyStakingMetrics {
    pub total_rewards_lovelace: u64,
    pub total_sp_premium_lovelace: u64,
    pub reward_tx_count: u64,
}

/// The three terms of the annualised return, each at least what keeps the
/// formula finite:
/// `apr_pct = gain / position × (SECONDS_PER_YEAR / period_seconds) × 100`.
#[derive(Clone, Copy, Debug, PartialEq, Eq)]
pub struct AprTerms {
    /// The net profit, 0 where there is a loss.
    pub gain_lovelace: u64,
    /// The position that the profit is measured against, at least 1.
    pub position_lovelace: u64,
    /// The length of the reporting period, at least 1.
    pub period_seconds: u64,
}

/// Totals over all mechanisms, in lovelace.
#[derive(Clone, Copy, Debug, PartialEq, Eq)]
pub struct CombinedMetrics {
    pub total_ada_in_lovelace: u64,
    pub total_ada_out_lovelace: u64,
    pub net_pnl_lovelace: i64,
    pub apr_pct: Option<AprTerms>,
}

/// All metrics of one event set.
#[derive(Clone, Debug)]
pub struct ComputedMetrics {
    pub stability_pool: StabilityPoolMetrics,
    pub rob: RobMetrics,
    pub indy_staking: IndyStakingMetrics,
    pub combined: CombinedMetrics,
    pub dilution: Option<DilutionModel>,
}

/// The mathematical value of a [`ComputedMetrics`].
pub struct ComputedMetricsView {
    pub stability_pool: StabilityPoolMetrics,
    pub rob: RobMetricsView,
    pub indy_staking: IndyStakingMetrics,
    pub combined: CombinedMetrics,
    pub dilution: Option<DilutionView>,
}

impl View for ComputedMetrics {
    type V = ComputedMetricsView;

    open spec fn view(&self) -> ComputedMetricsView {
        ComputedMetricsView {
            stability_pool: self.stability_pool,
            rob: self.rob@,
            indy_staking: self.indy_staking,
            combined: self.combined,
            dilution: match self.dilution {
                Some(d) => Some(d@),
                None => None,
            },
        }
    }
}

impl Default for StabilityPoolMetrics {
    fn default() -> (r: StabilityPoolMetrics)
        ensures
            r == (StabilityPoolMetrics {
                total_deposits_lovelace: 0,
                total_withdrawals_lovelace: 0,
                total_liquidations_ada_received_lovelace: 0,
                total_realized_premium_lovelace: 0,
                net_ada_from_liquidations_lovelace: 0,
                liquidation_count: 0,
            }),
    {
        StabilityPoolMetrics {
            total_deposits_lovelace: 0,
            total_withdrawals_lovelace: 0,
            total_liquidations_ada_received_lovelace: 0,
            total_realized_premium_lovelace: 0,
            net_ada_from_liquidations_lovelace: 0,
            liquidation_count: 0,
        }
    }
}

impl Default for RobMetrics {
    fn default() -> (r: RobMetrics)
        ensures
            r@ == (RobMetricsView {
                total_placed_lovelace: 0,
                total_filled_lovelace: 0,
                total_premium_received_lovelace: 0,
                premium_samples: Seq::empty(),
                fill_count: 0,
            }),
    {
        let r = RobMetrics {
            total_placed_lovelace: 0,
            total_filled_lovelace: 0,
            total_premium_received_lovelace: 0,
            premium_samples: Vec::new(),
            fill_count: 0,
        };
        assert(r.premium_samples@ =~= Seq::empty());
        r
    }
}

impl Default for IndyStakingMetrics {
    fn default() -> (r: IndyStakingMetrics)
        ensures
            r == (IndyStakingMetrics {
                total_rewards_lovelace: 0,
                total_sp_premium_lovelace: 0,
                reward_tx_count: 0,
            }),
    {
        IndyStakingMetrics {
            total_rewards_lovelace: 0,
            total_sp_premium_lovelace: 0,
            reward_tx_count: 0,
        }
    }
}

impl Default for CombinedMetrics {
    fn default() -> (r: CombinedMetrics)
        ensures
            r == (CombinedMetrics {
                total_ada_in_lovelace: 0,
                total_ada_out_lovelace: 0,
                net_pnl_lovelace: 0,
                apr_pct: None,
            }),
    {
        CombinedMetrics {
            total_ada_in_lovelace: 0,
            total_ada_out_lovelace: 0,
            net_pnl_lovelace: 0,
            apr_pct: None,
        }
    }
}

impl Default for DilutionModel {
    fn default() -> (r: DilutionModel)
        ensures
            r@ == (DilutionView {
                total_iasset_at_risk: None,
                user_share_pct: None,
                dilution_effect_lovelace: None,
            }),
    {
        DilutionModel {
            total_iasset_at_risk: None,
            user_share_pct: None,
            dilution_effect_lovelace: None,
        }
    }
}

impl ComputedMetricsView {
    /// The metrics of no event at all, without a period.
    pub open spec fn zero() -> ComputedMetricsView {
        ComputedMetricsView {
            stability_pool: StabilityPoolMetrics {
                total_deposits_lovelace: 0,
                total_withdrawals_lovelace: 0,
                total_liquidations_ada_received_lovelace: 0,
                total_realized_premium_lovelace: 0,
                net_ada_from_liquidations_lovelace: 0,
                liquidation_count: 0,
            },
            rob: RobMetricsView {
                total_placed_lovelace: 0,
                total_filled_lovelace: 0,
                total_premium_received_lovelace: 0,
                premium_samples: Seq::empty(),
                fill_count: 0,
            },
            indy_staking: IndyStakingMetrics {
                total_rewards_lovelace: 0,
                total_sp_premium_lovelace: 0,
                reward_tx_count: 0,
            },
            combined: CombinedMetrics {
                total_ada_in_lovelace: 0,
                total_ada_out_lovelace: 0,
                net_pnl_lovelace: 0,
                apr_pct: None,
            },
            dilution: None,
        }
    }
}

impl Default for ComputedMetrics {
    fn default() -> (r: ComputedMetrics)
        ensures
            r@ == ComputedMetricsView::zero(),
    {
        ComputedMetrics {
            stability_pool: StabilityPoolMetrics::default(),
            rob: RobMetrics::default(),
            indy_staking: IndyStakingMetrics::default(),
            combined: CombinedMetrics::default(),
            dilution: None,
        }
    }
}

impl Default for ComputeInput {
    /// No events, no period, no position.
    fn default() -> (r: ComputeInput)
        ensures
            r@ == (ComputeInputView {
                events: IndigoEventsView::empty(),
                period_start_ts: None,
                period_end_ts: None,
                current_ada_position: None,
            }),
    {
        ComputeInput {
            events: IndigoEvents::default(),
            period_start_ts: None,
            period_end_ts: None,
            current_ada_position: None,
        }
    }
}

/// The metrics of no event at all are all zero; the annualised return is set
/// exactly where the period has a start and an end, even then.
pub proof fn lemma_metrics_of_nothing(start: Option<i64>, end: Option<i64>, position: Option<u64>)
    ensures
        metrics_of(
            ComputeInputView {
                events: IndigoEventsView::empty(),
                period_start_ts: start,
                period_end_ts: end,
                current_ada_position: position,
            },
        ) == (ComputedMetricsView {
            combined: CombinedMetrics {
                apr_pct: apr_terms(0, 0, start, end, position),
                ..ComputedMetricsView::zero().combined
            },
            ..ComputedMetricsView::zero()
        }),
        apr_terms(0, 0, start, end, position) is Some <==> (start is Some && end is Some),
        apr_terms(0, 0, start, end, position) matches Some(t) ==> t.gain_lovelace == 0
            && t.position_lovelace >= 1 && t.period_seconds >= 1 && apr_millionths(t) == Some(
            0nat,
        ),
{
    assert(IndigoEventsView::empty().all() =~= Seq::<EventView>::empty());
    if let Some(t) = apr_terms(0, 0, start, end, position) {
        let d = t.position_lovelace as nat * t.period_seconds as nat;
        assert(d > 0) by (nonlinear_arith)
            requires
                d == t.position_lovelace as nat * t.period_seconds as nat,
                t.position_lovelace >= 1,
                t.period_seconds >= 1,
        ;
        assert((0nat * SECONDS_PER_YEAR as nat * 100 * MILLIONTHS as nat) / d == 0)
            by (nonlinear_arith)
            requires
                d > 0,
        ;
    }
}

/// The running totals of the fold.
pub struct Tally {
    pub deposits: u64,
    pub withdrawals: u64,
    pub liquidations_received: u64,
    pub realized_premium: u64,
    pub liquidation_count: u64,
    pub placed: u64,
    pub filled: u64,
    pub premium_received: u64,
    pub premium_samples: Seq<PremiumRate>,
    pub fill_count: u64,
    pub rewards: u64,
    pub sp_premium: u64,
    pub reward_tx_count: u64,
    pub total_in: u64,
    pub total_out: u64,
}

impl Tally {
    /// Nothing counted yet.
    pub open spec fn zero() -> Tally {
        Tally {
            deposits: 0,
            withdrawals: 0,
            liquidations_received: 0,
            realized_premium: 0,
            liquidation_count: 0,
            placed: 0,
            filled: 0,
            premium_received: 0,
            premium_samples: Seq::empty(),
            fill_count: 0,
            rewards: 0,
            sp_premium: 0,
            reward_tx_count: 0,
            total_in: 0,
            total_out: 0,
        }
    }
}

/// The premium that a fill of `filled` lovelace earned at `rate`, rounded
/// down and held at `u64::MAX`; 0 where the fill states no rate or the rate
/// has no basis.
pub open spec fn fill_premium(filled: u64, rate: Option<PremiumRate>) -> u64 {
    match rate {
        Some(r) => if r.basis_lovelace == 0 {
            0
        } else {
            let exact = (filled as int * r.gain_lovelace as int) / (r.basis_lovelace as int);
            if exact > u64::MAX {
                u64::MAX
            } else {
                exact as u64
            }
        },
        None => 0,
    }
}

/// The tally with one more event counted.
///
/// Deposits and order placements are money in; withdrawals, liquidations,
/// fills, rewards and pool premiums are money out. Cooldowns and other flows
/// count for nothing.
pub open spec fn count_event(t: Tally, e: EventView) -> Tally {
    match e.kind {
        EventKindView::StabilityPoolDeposit { amount_lovelace, .. } => Tally {
            deposits: sat_add(t.deposits, amount_lovelace),
            total_in: sat_add(t.total_in, amount_lovelace),
            ..t
        },
        EventKindView::StabilityPoolWithdraw { amount_lovelace, .. } => Tally {
            withdrawals: sat_add(t.withdrawals, amount_lovelace),
            total_out: sat_add(t.total_out, amount_lovelace),
            ..t
        },
        EventKindView::StabilityPoolLiquidation {
            ada_received_lovelace,
            realized_premium_lovelace,
            ..
        } => Tally {
            liquidations_received: sat_add(t.liquidations_received, ada_received_lovelace),
            realized_premium: sat_add(t.realized_premium, realized_premium_lovelace),
            liquidation_count: sat_add(t.liquidation_count, 1),
            total_out: sat_add(t.total_out, ada_received_lovelace),
            ..t
        },
        EventKindView::RobOrderPlace { amount_lovelace, .. } => Tally {
            placed: sat_add(t.placed, amount_lovelace),
            total_in: sat_add(t.total_in, amount_lovelace),
            ..t
        },
        EventKindView::RobOrderFill { filled_lovelace, premium_pct, .. } => Tally {
            filled: sat_add(t.filled, filled_lovelace),
            premium_received: sat_add(t.premium_received, fill_premium(filled_lovelace, premium_pct)),
            premium_samples: match premium_pct {
                Some(r) => t.premium_samples.push(r),
                None => t.premium_samples,
            },
            fill_count: sat_add(t.fill_count, 1),
            total_out: sat_add(t.total_out, filled_lovelace),
            ..t
        },
        EventKindView::IndyStakingReward { amount_lovelace, .. } => Tally {
            rewards: sat_add(t.rewards, amount_lovelace),
            reward_tx_count: sat_add(t.reward_tx_count, 1),
            total_out: sat_add(t.total_out, amount_lovelace),
            ..t
        },
        EventKindView::IndySpPremium { amount_lovelace, .. } => Tally {
            sp_premium: sat_add(t.sp_premium, amount_lovelace),
            total_out: sat_add(t.total_out, amount_lovelace),
            ..t
        },
        EventKindView::RobCooldown { .. } => t,
        EventKindView::OtherFlow { .. } => t,
    }
}

/// The tally of a run of events.
pub open spec fn tally_of(events: Seq<EventView>) -> Tally
    decreases events.len(),
{
    if events.len() == 0 {
        Tally::zero()
    } else {
        count_event(tally_of(events.drop_last()), events.last())
    }
}

/// `a - b`, held within `i64`.
pub open spec fn clamped_difference(a: u64, b: u64) -> i64 {
    if a - b > i64::MAX {
        i64::MAX
    } else if a - b < i64::MIN {
        i64::MIN
    } else {
        (a - b) as i64
    }
}

/// `a - b`, or 0 where `b` is the larger.
pub open spec fn sat_sub(a: u64, b: u64) -> u64 {
    if a >= b {
        (a - b) as u64
    } else {
        0
    }
}

/// The length of the period from `start` to `end` in seconds, at least 1.
pub open spec fn period_seconds(start: i64, end: i64) -> u64 {
    if end - start < 1 {
        1
    } else {
        (end - start) as u64
    }
}

/// The terms of the annualised return: set where the period has a start and
/// an end, and then never with a zero position or period.
///
/// The position is the one given, else what went in less what came out, and
/// at least 1. The gain is the net profit, a loss counting as 0.
pub open spec fn apr_terms(
    total_in: u64,
    total_out: u64,
    start: Option<i64>,
    end: Option<i64>,
    position: Option<u64>,
) -> Option<AprTerms> {
    if start is Some && end is Some {
        let held = match position {
            Some(p) => p,
            None => sat_sub(total_in, total_out),
        };
        let net = clamped_difference(total_out, total_in);
        Some(
            AprTerms {
                gain_lovelace: if net > 0 {
                    net as u64
                } else {
                    0
                },
                position_lovelace: if held < 1 {
                    1
                } else {
                    held
                },
                period_seconds: period_seconds(start->0, end->0),
            },
        )
    } else {
        None
    }
}

/// The metrics of an input: the tally of all its events, the net figures
/// derived from it, and the terms of the annualised return.
pub open spec fn metrics_of(input: ComputeInputView) -> ComputedMetricsView {
    let t = tally_of(input.events.all());
    ComputedMetricsView {
        stability_pool: StabilityPoolMetrics {
            total_deposits_lovelace: t.deposits,
            total_withdrawals_lovelace: t.withdrawals,
            total_liquidations_ada_received_lovelace: t.liquidations_received,
            total_realized_premium_lovelace: t.realized_premium,
            net_ada_from_liquidations_lovelace: clamped_difference(
                sat_sub(t.liquidations_received, t.deposits),
                0,
            ),
            liquidation_count: t.liquidation_count,
        },
        rob: RobMetricsView {
            total_placed_lovelace: t.placed,
            total_filled_lovelace: t.filled,
            total_premium_received_lovelace: t.premium_received,
            premium_samples: t.premium_samples,
            fill_count: t.fill_count,
        },
        indy_staking: IndyStakingMetrics {
            total_rewards_lovelace: t.rewards,
            total_sp_premium_lovelace: t.sp_premium,
            reward_tx_count: t.reward_tx_count,
        },
        combined: CombinedMetrics {
            total_ada_in_lovelace: t.total_in,
            total_ada_out_lovelace: t.total_out,
            net_pnl_lovelace: clamped_difference(t.total_out, t.total_in),
            apr_pct: apr_terms(
                t.total_in,
                t.total_out,
                input.period_start_ts,
                input.period_end_ts,
                input.current_ada_position,
            ),
        },
        dilution: None,
    }
}

/// The running two-point mean of the premiums that have a basis, in
/// millionths of a percent: the first of them, then with each further one half
/// the sum of the mean so far and that one, rounded down. None where no
/// sample has a basis.
pub open spec fn running_mean(samples: Seq<PremiumRate>) -> Option<nat>
    decreases samples.len(),
{
    if samples.len() == 0 {
        None
    } else {
        match (running_mean(samples.drop_last()), percent_millionths(samples.last())) {
            (mean, None) => mean,
            (None, Some(p)) => Some(p),
            (Some(mean), Some(p)) => Some((mean + p) / 2),
        }
    }
}

/// The annualised return in millionths of a percent, rounded down:
/// `gain / position × (SECONDS_PER_YEAR / period_seconds) × 100`, times a
/// million. None where the position or the period is zero.
pub open spec fn apr_millionths(t: AprTerms) -> Option<nat> {
    if t.position_lovelace == 0 || t.period_seconds == 0 {
        None
    } else {
        Some(
            ((t.gain_lovelace as nat * SECONDS_PER_YEAR as nat * 100 * MILLIONTHS as nat) / (
            t.position_lovelace as nat * t.period_seconds as nat)) as nat,
        )
    }
}

impl AprTerms {
    /// The annualised return in millionths of a percent, rounded down.
    pub fn percent_millionths(&self) -> (r: Option<u128>)
        ensures
            match r {
                Some(p) => apr_millionths(*self) == Some(p as nat),
                None => apr_millionths(*self) is None,
            },
    {
        if self.position_lovelace == 0 || self.period_seconds == 0 {
            None
        } else {
            assert(self.gain_lovelace as nat * SECONDS_PER_YEAR as nat * 100 * MILLIONTHS as nat
                <= 0xffff_ffff_ffff_ffff * 31_557_600 * 100 * 1_000_000) by (nonlinear_arith)
                requires
                    self.gain_lovelace <= 0xffff_ffff_ffff_ffff,
                    SECONDS_PER_YEAR == 31_557_600,
                    MILLIONTHS == 1_000_000,
            ;
            assert(0 < self.position_lovelace as nat * self.period_seconds as nat
                <= 0xffff_ffff_ffff_ffff * 0xffff_ffff_ffff_ffff) by (nonlinear_arith)
                requires
                    0 < self.position_lovelace <= 0xffff_ffff_ffff_ffff,
                    0 < self.period_seconds <= 0xffff_ffff_ffff_ffff,
            ;
            let numerator: u128 = (self.gain_lovelace as u128) * (SECONDS_PER_YEAR as u128) * 100
                * (MILLIONTHS as u128);
            let denominator: u128 = (self.position_lovelace as u128) * (
            self.period_seconds as u128);
            Some(numerator / denominator)
        }
    }
}

impl StabilityPoolMetrics {
    /// What a liquidation received on average, in lovelace, rounded down;
    /// none where there was no liquidation.
    pub fn avg_liquidation_lovelace(&self) -> (r: Option<u64>)
        ensures
            r == if self.liquidation_count == 0 {
                None
            } else {
                Some(
                    (self.total_liquidations_ada_received_lovelace / self.liquidation_count) as u64,
                )
            },
    {
        if self.liquidation_count == 0 {
            None
        } else {
            Some(self.total_liquidations_ada_received_lovelace / self.liquidation_count)
        }
    }
}

impl RobMetrics {
    /// The average premium: the running two-point mean of the premium
    /// samples, in millionths of a percent.
    pub fn avg_premium_millionths(&self) -> (r: Option<u128>)
        ensures
            match r {
                Some(p) => running_mean(self.premium_samples@) == Some(p as nat),
                None => running_mean(self.premium_samples@) is None,
            },
    {
        let mut mean: Option<u128> = None;
        let mut i: usize = 0;
        let ghost samples = self.premium_samples@;
        assert(samples.take(0) =~= Seq::<PremiumRate>::empty());
        while i < self.premium_samples.len()
            invariant
                i <= self.premium_samples.len(),
                samples == self.premium_samples@,
                match mean {
                    Some(m) => running_mean(samples.take(i as int)) == Some(m as nat) && m
                        <= 0xffff_ffff_ffff_ffff * 100_000_000,
                    None => running_mean(samples.take(i as int)) is None,
                },
            decreases self.premium_samples.len() - i,
        {
            assert(samples.take(i + 1).drop_last() =~= samples.take(i as int));
            assert(samples.take(i + 1).last() == samples[i as int]);
            let sample = self.premium_samples[i];
            match sample.percent_millionths() {
                Some(p) => {
                    assert(p <= 0xffff_ffff_ffff_ffff * 100_000_000) by {
                        assert((sample.gain_lovelace as nat * 100 * MILLIONTHS as nat) / (
                        sample.basis_lovelace as nat) <= sample.gain_lovelace as nat * 100
                            * MILLIONTHS as nat) by (nonlinear_arith)
                            requires
                                sample.basis_lovelace >= 1,
                        ;
                    }
                    mean = match mean {
                        Some(m) => Some((m + p) / 2),
                        None => Some(p),
                    };
                },
                None => {},
            }
            i += 1;
        }
        assert(samples.take(i as int) =~= samples);
        mean
    }
}

/// The reporting period of a run of transactions: the earliest and the
/// latest of their block times, neither where none of them has one.
pub fn block_time_span(txs: &[KoiosAccountTx]) -> (r: (Option<i64>, Option<i64>))
    ensures
        r.0 is Some == r.1 is Some,
        r.0 is Some == exists|i: int| 0 <= i < txs@.len() && (#[trigger] txs@[i]).block_time is Some,
        r.0 matches Some(first) ==> {
            &&& exists|i: int| 0 <= i < txs@.len() && (#[trigger] txs@[i]).block_time == Some(first)
            &&& forall|i: int|
                0 <= i < txs@.len() && (#[trigger] txs@[i]).block_time is Some ==> first
                    <= txs@[i].block_time->0
        },
        r.1 matches Some(last) ==> {
            &&& exists|i: int| 0 <= i < txs@.len() && (#[trigger] txs@[i]).block_time == Some(last)
            &&& forall|i: int|
                0 <= i < txs@.len() && (#[trigger] txs@[i]).block_time is Some ==> last
                    >= txs@[i].block_time->0
        },
{
    let mut first: Option<i64> = None;
    let mut last: Option<i64> = None;
    let mut i: usize = 0;
    while i < txs.len()
        invariant
            i <= txs.len(),
            first is Some == last is Some,
            first is Some == exists|k: int| 0 <= k < i && (#[trigger] txs@[k]).block_time is Some,
            first matches Some(f) ==> {
                &&& exists|k: int| 0 <= k < i && (#[trigger] txs@[k]).block_time == Some(f)
                &&& forall|k: int|
                    0 <= k < i && (#[trigger] txs@[k]).block_time is Some ==> f
                        <= txs@[k].block_time->0
            },
            last matches Some(l) ==> {
                &&& exists|k: int| 0 <= k < i && (#[trigger] txs@[k]).block_time == Some(l)
                &&& forall|k: int|
                    0 <= k < i && (#[trigger] txs@[k]).block_time is Some ==> l
                        >= txs@[k].block_time->0
            },
        decreases txs.len() - i,
    {
        match txs[i].block_time {
            Some(t) => {
                first = match first {
                    Some(f) => if t < f {
                        Some(t)
                    } else {
                        Some(f)
                    },
                    None => Some(t),
                };
                last = match last {
                    Some(l) => if t > l {
                        Some(t)
                    } else {
                        Some(l)
                    },
                    None => Some(t),
                };
                assert(txs@[i as int].block_time == Some(t));
            },
            None => {},
        }
        i += 1;
    }
    (first, last)
}

/// The premium that a fill earned at its rate, in lovelace.
pub fn premium_of_fill(filled: u64, rate: Option<PremiumRate>) -> (r: u64)
    ensures
        r == fill_premium(filled, rate),
{
    match rate {
        Some(rate) => {
            if rate.basis_lovelace == 0 {
                0
            } else {
                assert(filled as int * rate.gain_lovelace as int <= 0xffff_ffff_ffff_ffff
                    * 0xffff_ffff_ffff_ffff) by (nonlinear_arith)
                    requires
                        0 <= filled <= 0xffff_ffff_ffff_ffff,
                        0 <= rate.gain_lovelace <= 0xffff_ffff_ffff_ffff,
                ;
                let exact: u128 = (filled as u128) * (rate.gain_lovelace as u128) / (
                rate.basis_lovelace as u128);
                if exact > u64::MAX as u128 {
                    u64::MAX
                } else {
                    exact as u64
                }
            }
        },
        None => 0,
    }
}

/// `a - b`, held within `i64`.
pub fn difference(a: u64, b: u64) -> (r: i64)
    ensures
        r == clamped_difference(a, b),
{
    let d: i128 = a as i128 - b as i128;
    if d > i64::MAX as i128 {
        i64::MAX
    } else if d < i64::MIN as i128 {
        i64::MIN
    } else {
        d as i64
    }
}

/// The terms of the annualised return, where the period has a start and an end.
pub fn annual_terms(
    total_in: u64,
    total_out: u64,
    start: Option<i64>,
    end: Option<i64>,
    position: Option<u64>,
) -> (r: Option<AprTerms>)
    ensures
        r == apr_terms(total_in, total_out, start, end, position),
        r matches Some(t) ==> t.position_lovelace >= 1 && t.period_seconds >= 1 && apr_millionths(
            t,
        ) is Some,
        r is Some <==> (start is Some && end is Some),
{
    match (start, end) {
        (Some(s), Some(e)) => {
            let span: i128 = e as i128 - s as i128;
            let period: u64 = if span < 1 {
                1
            } else {
                span as u64
            };
            let held = match position {
                Some(p) => p,
                None => total_in.saturating_sub(total_out),
            };
            let net = difference(total_out, total_in);
            Some(
                AprTerms {
                    gain_lovelace: if net > 0 {
                        net as u64
                    } else {
                        0
                    },
                    position_lovelace: if held < 1 {
                        1
                    } else {
                        held
                    },
                    period_seconds: period,
                },
            )
        },
        _ => None,
    }
}

/// Computes all metrics of an event set.
///
/// Every event of the four buckets is counted once. Sums that would pass the
/// largest value of their type stay there. The annualised return is set only
/// where the period has both a start and an end.
pub fn compute_metrics(input: &ComputeInput) -> (m: ComputedMetrics)
    ensures
        m@ == metrics_of(input@),
        m@.combined.apr_pct is Some <==> (input.period_start_ts is Some && input.period_end_ts
            is Some),
        m@.combined.apr_pct matches Some(t) ==> apr_millionths(t) is Some,
{
    let all = input.events.all_events();
    let ghost views = event_ref_views(all@);
    let mut deposits: u64 = 0;
    let mut withdrawals: u64 = 0;
    let mut liquidations_received: u64 = 0;
    let mut realized_premium: u64 = 0;
    let mut liquidation_count: u64 = 0;
    let mut placed: u64 = 0;
    let mut filled: u64 = 0;
    let mut premium_received: u64 = 0;
    let mut premium_samples: Vec<PremiumRate> = Vec::new();
    let mut fill_count: u64 = 0;
    let mut rewards: u64 = 0;
    let mut sp_premium: u64 = 0;
    let mut reward_tx_count: u64 = 0;
    let mut total_in: u64 = 0;
    let mut total_out: u64 = 0;
    let mut i: usize = 0;
    assert(views.take(0) =~= Seq::<EventView>::empty());
    assert(premium_samples@ =~= Seq::<PremiumRate>::empty());
    while i < all.len()
        invariant
            i <= all.len(),
            views == event_ref_views(all@),
            tally_of(views.take(i as int)) == (Tally {
                deposits,
                withdrawals,
                liquidations_received,
                realized_premium,
                liquidation_count,
                placed,
                filled,
                premium_received,
                premium_samples: premium_samples@,
                fill_count,
                rewards,
                sp_premium,
                reward_tx_count,
                total_in,
                total_out,
            }),
        decreases all.len() - i,
    {
        assert(views.take(i + 1).drop_last() =~= views.take(i as int));
        assert(views.take(i + 1).last() == all@[i as int]@);
        let ev: &Event = all[i];
        match &ev.kind {
            EventKind::StabilityPoolDeposit { amount_lovelace, .. } => {
                deposits = deposits.saturating_add(*amount_lovelace);
                total_in = total_in.saturating_add(*amount_lovelace);
            },
            EventKind::StabilityPoolWithdraw { amount_lovelace, .. } => {
                withdrawals = withdrawals.saturating_add(*amount_lovelace);
                total_out = total_out.saturating_add(*amount_lovelace);
            },
            EventKind::StabilityPoolLiquidation {
                ada_received_lovelace,
                realized_premium_lovelace,
                ..
            } => {
                liquidations_received = liquidations_received.saturating_add(
                    *ada_received_lovelace,
                );
                realized_premium = realized_premium.saturating_add(*realized_premium_lovelace);
                liquidation_count = liquidation_count.saturating_add(1);
                total_out = total_out.saturating_add(*ada_received_lovelace);
            },
            EventKind::RobOrderPlace { amount_lovelace, .. } => {
                placed = placed.saturating_add(*amount_lovelace);
                total_in = total_in.saturating_add(*amount_lovelace);
            },
            EventKind::RobOrderFill { filled_lovelace, premium_pct, .. } => {
                filled = filled.saturating_add(*filled_lovelace);
                premium_received = premium_received.saturating_add(
                    premium_of_fill(*filled_lovelace, *premium_pct),
                );
                match premium_pct {
                    Some(rate) => {
                        premium_samples.push(*rate);
                    },
                    None => {},
                }
                fill_count = fill_count.saturating_add(1);
                total_out = total_out.saturating_add(*filled_lovelace);
            },
            EventKind::IndyStakingReward { amount_lovelace, .. } => {
                rewards = rewards.saturating_add(*amount_lovelace);
                reward_tx_count = reward_tx_count.saturating_add(1);
                total_out = total_out.saturating_add(*amount_lovelace);
            },
            EventKind::IndySpPremium { amount_lovelace, .. } => {
                sp_premium = sp_premium.saturating_add(*amount_lovelace);
                total_out = total_out.saturating_add(*amount_lovelace);
            },
            EventKind::RobCooldown { .. } => {},
            EventKind::OtherFlow { .. } => {},
        }
        i += 1;
    }
    assert(views.take(i as int) =~= views);
    ComputedMetrics {
        stability_pool: StabilityPoolMetrics {
            total_deposits_lovelace: deposits,
            total_withdrawals_lovelace: withdrawals,
            total_liquidations_ada_received_lovelace: liquidations_received,
            total_realized_premium_lovelace: realized_premium,
            net_ada_from_liquidations_lovelace: difference(
                liquidations_received.saturating_sub(deposits),
                0,
            ),
            liquidation_count,
        },
        rob: RobMetrics {
            total_placed_lovelace: placed,
            total_filled_lovelace: filled,
            total_premium_received_lovelace: premium_received,
            premium_samples,
            fill_count,
        },
        indy_staking: IndyStakingMetrics {
            total_rewards_lovelace: rewards,
            total_sp_premium_lovelace: sp_premium,
            reward_tx_count,
        },
        combined: CombinedMetrics {
            total_ada_in_lovelace: total_in,
            total_ada_out_lovelace: total_out,
            net_pnl_lovelace: difference(total_out, total_in),
            apr_pct: annual_terms(
                total_in,
                total_out,
                input.period_start_ts,
                input.period_end_ts,
                input.current_ada_position,
            ),
        },
        dilution: None,
    }
}

} // verus!
