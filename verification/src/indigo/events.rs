//! The event type shared by the stability pool, the redemption order book
//! and staking, and the four buckets that events are collected in.

use vstd::prelude::*;
use vstd::string::*;
use crate::chain::fetch::opt_text;
use crate::json::{JsonValue, JsonView};
use crate::order::{
    lemma_sort_commutes_with_map, sort_stable, stable_sort, KeyOrder, SortKey, SortKeyed,
};
use crate::text::str_lt;

verus! {

/// A point in time: seconds since the Unix epoch, and the nanoseconds past them.
#[derive(Clone, Copy, Debug, PartialEq, Eq)]
pub struct Timestamp {
    pub unix_seconds: i64,
    pub nanosecond: u32,
}

/// Calls `time::OffsetDateTime::now_utc`, then `unix_timestamp` and
/// `nanosecond` on what it returns: the current time. Nothing is promised
/// of it.
#[verifier::external_body]
pub(crate) fn current_time() -> Timestamp {
    let now = time::OffsetDateTime::now_utc();
    Timestamp { unix_seconds: now.unix_timestamp(), nanosecond: now.nanosecond() }
}

/// The first second that the `time` crate can hold as a date: the start of the year -9999.
pub const MIN_UNIX_SECONDS: i64 = -377_705_116_800;

/// The last second that the `time` crate can hold as a date: the end of the year 9999.
pub const MAX_UNIX_SECONDS: i64 = 253_402_300_799;

/// Calls `time::OffsetDateTime::from_unix_timestamp` and says whether it
/// accepted `t`: it does so exactly for the seconds of the years -9999 to 9999.
#[verifier::external_body]
fn is_unix_time(t: i64) -> (r: bool)
    ensures
        r == (MIN_UNIX_SECONDS <= t <= MAX_UNIX_SECONDS),
{
    time::OffsetDateTime::from_unix_timestamp(t).is_ok()
}

/// When an event took place: the block time of its transaction where that is
/// a time the calendar can hold, else `now`.
pub open spec fn event_time(block_time: Option<i64>, now: Timestamp) -> Timestamp {
    match block_time {
        Some(t) => if MIN_UNIX_SECONDS <= t <= MAX_UNIX_SECONDS {
            Timestamp { unix_seconds: t, nanosecond: 0 }
        } else {
            now
        },
        None => now,
    }
}

/// When an event took place: the block time of its transaction where that is
/// a time the calendar can hold, else `now`.
pub fn event_timestamp(block_time: Option<i64>, now: Timestamp) -> (r: Timestamp)
    ensures
        r == event_time(block_time, now),
{
    match block_time {
        Some(t) => if is_unix_time(t) {
            Timestamp { unix_seconds: t, nanosecond: 0 }
        } else {
            now
        },
        None => now,
    }
}

/// A premium as an exact ratio: `gain_lovelace / basis_lovelace`, read as a
/// percentage by multiplying with 100.
#[derive(Clone, Copy, Debug, PartialEq, Eq)]
pub struct PremiumRate {
    pub gain_lovelace: u64,
    pub basis_lovelace: u64,
}

/// How many millionths make one percent: percentages are worked out to six
/// decimal places.
pub const MILLIONTHS: u64 = 1_000_000;

/// A premium as a percentage in millionths of a percent, rounded down:
/// `gain / basis × 100`, times a million. A rate without a basis has none.
pub open spec fn percent_millionths(r: PremiumRate) -> Option<nat> {
    if r.basis_lovelace == 0 {
        None
    } else {
        Some(((r.gain_lovelace as nat * 100 * MILLIONTHS as nat) / (r.basis_lovelace as nat)) as nat)
    }
}

impl PremiumRate {
    /// The premium as a percentage, in millionths of a percent, rounded down.
    pub fn percent_millionths(&self) -> (r: Option<u128>)
        ensures
            match r {
                Some(p) => percent_millionths(*self) == Some(p as nat),
                None => percent_millionths(*self) is None,
            },
    {
        if self.basis_lovelace == 0 {
            None
        } else {
            Some((self.gain_lovelace as u128) * 100 * (MILLIONTHS as u128) / (self.basis_lovelace as u128))
        }
    }
}

/// What happened, with the fields of its kind. Amounts are in lovelace.
#[derive(Clone, Debug)]
pub enum EventKind {
    StabilityPoolDeposit { amount_lovelace: u64, iasset_amount: Option<String>, tx_hash: String },
    StabilityPoolWithdraw { amount_lovelace: u64, iasset_amount: Option<String>, tx_hash: String },
    StabilityPoolLiquidation {
        iasset_burnt: String,
        ada_received_lovelace: u64,
        realized_premium_lovelace: u64,
        dilution_effect: Option<String>,
        tx_hash: String,
        slot: Option<u64>,
    },
    RobOrderPlace { order_id: Option<String>, amount_lovelace: u64, tx_hash: String, slot: Option<u64> },
    RobOrderFill {
        order_id: Option<String>,
        filled_lovelace: u64,
        premium_pct: Option<PremiumRate>,
        reimbursement_pct: Option<PremiumRate>,
        tx_hash: String,
        slot: Option<u64>,
    },
    RobCooldown { inferred_from_tx: bool, tx_hash: String },
    IndyStakingReward { amount_lovelace: u64, epoch: Option<u64>, tx_hash: String },
    IndySpPremium { amount_lovelace: u64, tx_hash: String, slot: Option<u64> },
    OtherFlow { description: String, amount_lovelace: Option<u64>, tx_hash: String },
}

/// The mathematical value of an [`EventKind`].
pub enum EventKindView {
    StabilityPoolDeposit {
        amount_lovelace: u64,
        iasset_amount: Option<Seq<char>>,
        tx_hash: Seq<char>,
    },
    StabilityPoolWithdraw {
        amount_lovelace: u64,
        iasset_amount: Option<Seq<char>>,
        tx_hash: Seq<char>,
    },
    StabilityPoolLiquidation {
        iasset_burnt: Seq<char>,
        ada_received_lovelace: u64,
        realized_premium_lovelace: u64,
        dilution_effect: Option<Seq<char>>,
        tx_hash: Seq<char>,
        slot: Option<u64>,
    },
    RobOrderPlace {
        order_id: Option<Seq<char>>,
        amount_lovelace: u64,
        tx_hash: Seq<char>,
        slot: Option<u64>,
    },
    RobOrderFill {
        order_id: Option<Seq<char>>,
        filled_lovelace: u64,
        premium_pct: Option<PremiumRate>,
        reimbursement_pct: Option<PremiumRate>,
        tx_hash: Seq<char>,
        slot: Option<u64>,
    },
    RobCooldown { inferred_from_tx: bool, tx_hash: Seq<char> },
    IndyStakingReward { amount_lovelace: u64, epoch: Option<u64>, tx_hash: Seq<char> },
    IndySpPremium { amount_lovelace: u64, tx_hash: Seq<char>, slot: Option<u64> },
    OtherFlow { description: Seq<char>, amount_lovelace: Option<u64>, tx_hash: Seq<char> },
}

impl View for EventKind {
    type V = EventKindView;

    open spec fn view(&self) -> EventKindView {
        match *self {
            EventKind::StabilityPoolDeposit { amount_lovelace, iasset_amount, tx_hash } => {
                EventKindView::StabilityPoolDeposit {
                    amount_lovelace,
                    iasset_amount: opt_text(iasset_amount),
                    tx_hash: tx_hash@,
                }
            },
            EventKind::StabilityPoolWithdraw { amount_lovelace, iasset_amount, tx_hash } => {
                EventKindView::StabilityPoolWithdraw {
                    amount_lovelace,
                    iasset_amount: opt_text(iasset_amount),
                    tx_hash: tx_hash@,
                }
            },
            EventKind::StabilityPoolLiquidation {
                iasset_burnt,
                ada_received_lovelace,
                realized_premium_lovelace,
                dilution_effect,
                tx_hash,
                slot,
            } => EventKindView::StabilityPoolLiquidation {
                iasset_burnt: iasset_burnt@,
                ada_received_lovelace,
                realized_premium_lovelace,
                dilution_effect: opt_text(dilution_effect),
                tx_hash: tx_hash@,
                slot,
            },
            EventKind::RobOrderPlace { order_id, amount_lovelace, tx_hash, slot } => {
                EventKindView::RobOrderPlace {
                    order_id: opt_text(order_id),
                    amount_lovelace,
                    tx_hash: tx_hash@,
                    slot,
                }
            },
            EventKind::RobOrderFill {
                order_id,
                filled_lovelace,
                premium_pct,
                reimbursement_pct,
                tx_hash,
                slot,
            } => EventKindView::RobOrderFill {
                order_id: opt_text(order_id),
                filled_lovelace,
                premium_pct,
                reimbursement_pct,
                tx_hash: tx_hash@,
                slot,
            },
            EventKind::RobCooldown { inferred_from_tx, tx_hash } => EventKindView::RobCooldown {
                inferred_from_tx,
                tx_hash: tx_hash@,
            },
            EventKind::IndyStakingReward { amount_lovelace, epoch, tx_hash } => {
                EventKindView::IndyStakingReward { amount_lovelace, epoch, tx_hash: tx_hash@ }
            },
            EventKind::IndySpPremium { amount_lovelace, tx_hash, slot } => {
                EventKindView::IndySpPremium { amount_lovelace, tx_hash: tx_hash@, slot }
            },
            EventKind::OtherFlow { description, amount_lovelace, tx_hash } => {
                EventKindView::OtherFlow {
                    description: description@,
                    amount_lovelace,
                    tx_hash: tx_hash@,
                }
            },
        }
    }
}

/// One economic event, with the time, slot and transaction it is ordered by.
#[derive(Clone, Debug)]
pub struct Event {
    pub kind: EventKind,
    pub timestamp: Timestamp,
    pub slot: Option<u64>,
    pub tx_hash: String,
    pub extra: Option<JsonValue>,
}

/// The mathematical value of an [`Event`].
pub struct EventView {
    pub kind: EventKindView,
    pub timestamp: Timestamp,
    pub slot: Option<u64>,
    pub tx_hash: Seq<char>,
    pub extra: Option<JsonView>,
}

impl View for Event {
    type V = EventView;

    open spec fn view(&self) -> EventView {
        EventView {
            kind: self.kind@,
            timestamp: self.timestamp,
            slot: self.slot,
            tx_hash: self.tx_hash@,
            extra: match self.extra {
                Some(v) => Some(v@),
                None => None,
            },
        }
    }
}

/// The slot that an event is ordered by: its own, or 0 where it has none.
pub open spec fn slot_or_zero(slot: Option<u64>) -> u64 {
    match slot {
        Some(s) => s,
        None => 0,
    }
}

impl SortKeyed for EventView {
    open spec fn sort_key(&self) -> SortKey {
        SortKey { slot: slot_or_zero(self.slot), hash: vstd::utf8::encode_utf8(self.tx_hash) }
    }
}

impl SortKeyed for Event {
    open spec fn sort_key(&self) -> SortKey {
        self@.sort_key()
    }
}

impl KeyOrder for Event {
    fn key_before(&self, other: &Self) -> (r: bool) {
        let a = match self.slot {
            Some(s) => s,
            None => 0,
        };
        let b = match other.slot {
            Some(s) => s,
            None => 0,
        };
        a < b || (a == b && str_lt(self.tx_hash.as_str(), other.tx_hash.as_str()))
    }
}

impl Event {
    /// The hash of the transaction that the event was derived from.
    pub fn tx_hash(&self) -> (r: &str)
        ensures
            r@ == self@.tx_hash,
    {
        self.tx_hash.as_str()
    }
}

/// The views of a run of events.
pub open spec fn event_views(s: Seq<Event>) -> Seq<EventView> {
    s.map_values(|e: Event| e@)
}

/// The events of one address, in four buckets.
#[derive(Clone, Debug)]
pub struct IndigoEvents {
    pub stability_pool: Vec<Event>,
    pub rob: Vec<Event>,
    pub indy_staking: Vec<Event>,
    pub other: Vec<Event>,
}

/// The mathematical value of an [`IndigoEvents`].
pub struct IndigoEventsView {
    pub stability_pool: Seq<EventView>,
    pub rob: Seq<EventView>,
    pub indy_staking: Seq<EventView>,
    pub other: Seq<EventView>,
}

impl View for IndigoEvents {
    type V = IndigoEventsView;

    open spec fn view(&self) -> IndigoEventsView {
        IndigoEventsView {
            stability_pool: event_views(self.stability_pool@),
            rob: event_views(self.rob@),
            indy_staking: event_views(self.indy_staking@),
            other: event_views(self.other@),
        }
    }
}

/// Orders one bucket by slot, then transaction hash.
pub fn sort_bucket(bucket: &mut Vec<Event>)
    ensures
        event_views(final(bucket)@) == stable_sort(event_views(old(bucket)@)),
{
    proof {
        lemma_sort_commutes_with_map(bucket@, |e: Event| e@);
    }
    sort_stable(bucket);
}

impl Default for IndigoEvents {
    fn default() -> (r: IndigoEvents)
        ensures
            r@ == IndigoEventsView::empty(),
    {
        let r = IndigoEvents {
            stability_pool: Vec::new(),
            rob: Vec::new(),
            indy_staking: Vec::new(),
            other: Vec::new(),
        };
        assert(event_views(r.stability_pool@) =~= Seq::empty());
        assert(event_views(r.rob@) =~= Seq::empty());
        assert(event_views(r.indy_staking@) =~= Seq::empty());
        assert(event_views(r.other@) =~= Seq::empty());
        r
    }
}

/// The views of a run of borrowed events.
pub open spec fn event_ref_views(s: Seq<&Event>) -> Seq<EventView> {
    Seq::new(s.len(), |i: int| s[i]@)
}

fn push_refs<'a>(out: &mut Vec<&'a Event>, bucket: &'a Vec<Event>)
    ensures
        event_ref_views(final(out)@) == event_ref_views(old(out)@) + event_views(bucket@),
{
    let ghost start = out@;
    let mut i: usize = 0;
    assert(event_ref_views(out@) =~= event_ref_views(start) + event_views(bucket@.take(0)));
    while i < bucket.len()
        invariant
            i <= bucket.len(),
            out@.len() == start.len() + i,
            event_ref_views(out@) == event_ref_views(start) + event_views(bucket@.take(i as int)),
        decreases bucket.len() - i,
    {
        let ghost prev = out@;
        out.push(&bucket[i]);
        assert forall|k: int| 0 <= k < out@.len() implies event_ref_views(out@)[k] == (
        event_ref_views(start) + event_views(bucket@.take(i + 1)))[k] by {
            if k < prev.len() {
                assert(event_ref_views(prev)[k] == (event_ref_views(start) + event_views(
                    bucket@.take(i as int),
                ))[k]);
            }
        }
        assert(event_ref_views(out@) =~= event_ref_views(start) + event_views(
            bucket@.take(i + 1),
        ));
        i += 1;
    }
    assert(bucket@.take(i as int) =~= bucket@);
}

impl IndigoEvents {
    /// All events, bucket after bucket: pool, order book, staking, other.
    pub fn all_events(&self) -> (r: Vec<&Event>)
        ensures
            event_ref_views(r@) == self@.all(),
    {
        let mut out: Vec<&Event> = Vec::new();
        assert(event_ref_views(out@) =~= Seq::<EventView>::empty());
        push_refs(&mut out, &self.stability_pool);
        push_refs(&mut out, &self.rob);
        push_refs(&mut out, &self.indy_staking);
        push_refs(&mut out, &self.other);
        assert(event_ref_views(out@) =~= self@.all());
        out
    }

    /// Orders every bucket by `(slot, tx_hash)`: slot ascending, an event
    /// without a slot at slot 0, then the transaction hash byte by byte.
    /// Events with the same key keep their order.
    pub fn sort_by_slot_then_tx(&mut self)
        ensures
            final(self)@ == old(self)@.sorted(),
    {
        sort_bucket(&mut self.stability_pool);
        sort_bucket(&mut self.rob);
        sort_bucket(&mut self.indy_staking);
        sort_bucket(&mut self.other);
    }
}

impl IndigoEventsView {
    /// No event in any bucket.
    pub open spec fn empty() -> IndigoEventsView {
        IndigoEventsView {
            stability_pool: Seq::empty(),
            rob: Seq::empty(),
            indy_staking: Seq::empty(),
            other: Seq::empty(),
        }
    }

    /// All events: the pool's, then the order book's, the staking's and the others.
    pub open spec fn all(self) -> Seq<EventView> {
        self.stability_pool + self.rob + self.indy_staking + self.other
    }

    /// Each bucket ordered by slot, then transaction hash.
    pub open spec fn sorted(self) -> IndigoEventsView {
        IndigoEventsView {
            stability_pool: stable_sort(self.stability_pool),
            rob: stable_sort(self.rob),
            indy_staking: stable_sort(self.indy_staking),
            other: stable_sort(self.other),
        }
    }
}

} // verus!
