//! The structured document of a bundle: what is written down and hashed.
//!
//! Every record becomes an object with one member for each of its fields,
//! under the name of the field. An event kind carries its name in the member
//! `kind`. A field without a value is `null`.

use vstd::prelude::*;
use vstd::string::*;
use crate::compute::metrics::{
    AprTerms, CombinedMetrics, ComputedMetrics, ComputedMetricsView, DilutionModel, DilutionView,
    IndyStakingMetrics, RobMetrics, RobMetricsView, StabilityPoolMetrics,
};
use crate::indigo::events::{
    event_views, Event, EventKind, EventKindView, EventView, IndigoEvents, IndigoEventsView,
    PremiumRate, Timestamp, MAX_UNIX_SECONDS,
};
use crate::json::{
    item_views, no_members, put, put_item, JsonMember, JsonMemberView, JsonValue, JsonView,
};

verus! {

/// The first second of the year 0.
pub const YEAR_ZERO_UNIX_SECONDS: i64 = -62_167_219_200;

/// The RFC 3339 text of a point in time in UTC, as the `time` crate writes it.
pub uninterp spec fn rfc3339_text(unix_seconds: i64, nanosecond: u32) -> Option<Seq<char>>;

/// Whether a point in time can be written in RFC 3339: its year has four
/// digits and its nanoseconds are less than a second.
pub open spec fn timestamp_ok(t: Timestamp) -> bool {
    YEAR_ZERO_UNIX_SECONDS <= t.unix_seconds <= MAX_UNIX_SECONDS && t.nanosecond < 1_000_000_000
}

/// Calls `time::OffsetDateTime::from_unix_timestamp`, `replace_nanosecond`
/// and `format` with the `Rfc3339` description. The first accepts the seconds
/// of the years -9999 to 9999, the second nanoseconds below a second, the
/// third years from 0 on; so there is a text exactly for the times that
/// `timestamp_ok` admits.
#[verifier::external_body]
fn format_timestamp(t: Timestamp) -> (r: Option<String>)
    ensures
        r is Some == timestamp_ok(t),
        r is Some == rfc3339_text(t.unix_seconds, t.nanosecond) is Some,
        r is Some ==> r->0@ == rfc3339_text(t.unix_seconds, t.nanosecond)->0,
{
    let at = time::OffsetDateTime::from_unix_timestamp(t.unix_seconds).ok()?;
    let at = at.replace_nanosecond(t.nanosecond).ok()?;
    at.format(&time::format_description::well_known::Rfc3339).ok()
}

/// The RFC 3339 text of a point in time; `None` where it has none.
pub fn timestamp_text(t: Timestamp) -> (r: Option<String>)
    ensures
        r is Some == timestamp_ok(t),
        r matches Some(text) ==> Some(text@) == rfc3339_text(t.unix_seconds, t.nanosecond),
{
    format_timestamp(t)
}

/// The member `key: value`.
pub open spec fn member(key: Seq<char>, value: JsonView) -> JsonMemberView {
    JsonMemberView { key, value }
}

/// A premium rate: its gain and its basis.
pub open spec fn rate_json(r: PremiumRate) -> JsonView {
    JsonView::Object(
        Seq::empty().push(member("gain_lovelace"@, JsonView::number(r.gain_lovelace))).push(
            member("basis_lovelace"@, JsonView::number(r.basis_lovelace)),
        ),
    )
}

/// A premium rate, or `null` where there is none.
pub open spec fn opt_rate_json(o: Option<PremiumRate>) -> JsonView {
    match o {
        Some(r) => rate_json(r),
        None => JsonView::Null,
    }
}

/// An event kind: its name in snake case under `kind`, then its fields.
pub open spec fn kind_json(k: EventKindView) -> JsonView {
    match k {
        EventKindView::StabilityPoolDeposit { amount_lovelace, iasset_amount, tx_hash } => {
            JsonView::Object(
                Seq::empty().push(member("kind"@, JsonView::Text("stability_pool_deposit"@))).push(
                    member("amount_lovelace"@, JsonView::number(amount_lovelace)),
                ).push(member("iasset_amount"@, JsonView::opt_text(iasset_amount))).push(
                    member("tx_hash"@, JsonView::Text(tx_hash)),
                ),
            )
        },
        EventKindView::StabilityPoolWithdraw { amount_lovelace, iasset_amount, tx_hash } => {
            JsonView::Object(
                Seq::empty().push(member("kind"@, JsonView::Text("stability_pool_withdraw"@))).push(
                    member("amount_lovelace"@, JsonView::number(amount_lovelace)),
                ).push(member("iasset_amount"@, JsonView::opt_text(iasset_amount))).push(
                    member("tx_hash"@, JsonView::Text(tx_hash)),
                ),
            )
        },
        EventKindView::StabilityPoolLiquidation {
            iasset_burnt,
            ada_received_lovelace,
            realized_premium_lovelace,
            dilution_effect,
            tx_hash,
            slot,
        } => JsonView::Object(
            Seq::empty().push(
                member("kind"@, JsonView::Text("stability_pool_liquidation"@)),
            ).push(member("iasset_burnt"@, JsonView::Text(iasset_burnt))).push(
                member("ada_received_lovelace"@, JsonView::number(ada_received_lovelace)),
            ).push(
                member("realized_premium_lovelace"@, JsonView::number(realized_premium_lovelace)),
            ).push(member("dilution_effect"@, JsonView::opt_text(dilution_effect))).push(
                member("tx_hash"@, JsonView::Text(tx_hash)),
            ).push(member("slot"@, JsonView::opt_number(slot))),
        ),
        EventKindView::RobOrderPlace { order_id, amount_lovelace, tx_hash, slot } => {
            JsonView::Object(
                Seq::empty().push(member("kind"@, JsonView::Text("rob_order_place"@))).push(
                    member("order_id"@, JsonView::opt_text(order_id)),
                ).push(member("amount_lovelace"@, JsonView::number(amount_lovelace))).push(
                    member("tx_hash"@, JsonView::Text(tx_hash)),
                ).push(member("slot"@, JsonView::opt_number(slot))),
            )
        },
        EventKindView::RobOrderFill {
            order_id,
            filled_lovelace,
            premium_pct,
            reimbursement_pct,
            tx_hash,
            slot,
        } => JsonView::Object(
            Seq::empty().push(member("kind"@, JsonView::Text("rob_order_fill"@))).push(
                member("order_id"@, JsonView::opt_text(order_id)),
            ).push(member("filled_lovelace"@, JsonView::number(filled_lovelace))).push(
                member("premium_pct"@, opt_rate_json(premium_pct)),
            ).push(member("reimbursement_pct"@, opt_rate_json(reimbursement_pct))).push(
                member("tx_hash"@, JsonView::Text(tx_hash)),
            ).push(member("slot"@, JsonView::opt_number(slot))),
        ),
        EventKindView::RobCooldown { inferred_from_tx, tx_hash } => JsonView::Object(
            Seq::empty().push(member("kind"@, JsonView::Text("rob_cooldown"@))).push(
                member("inferred_from_tx"@, JsonView::Bool(inferred_from_tx)),
            ).push(member("tx_hash"@, JsonView::Text(tx_hash))),
        ),
        EventKindView::IndyStakingReward { amount_lovelace, epoch, tx_hash } => JsonView::Object(
            Seq::empty().push(member("kind"@, JsonView::Text("indy_staking_reward"@))).push(
                member("amount_lovelace"@, JsonView::number(amount_lovelace)),
            ).push(member("epoch"@, JsonView::opt_number(epoch))).push(
                member("tx_hash"@, JsonView::Text(tx_hash)),
            ),
        ),
        EventKindView::IndySpPremium { amount_lovelace, tx_hash, slot } => JsonView::Object(
            Seq::empty().push(member("kind"@, JsonView::Text("indy_sp_premium"@))).push(
                member("amount_lovelace"@, JsonView::number(amount_lovelace)),
            ).push(member("tx_hash"@, JsonView::Text(tx_hash))).push(
                member("slot"@, JsonView::opt_number(slot)),
            ),
        ),
        EventKindView::OtherFlow { description, amount_lovelace, tx_hash } => JsonView::Object(
            Seq::empty().push(member("kind"@, JsonView::Text("other_flow"@))).push(
                member("description"@, JsonView::Text(description)),
            ).push(member("amount_lovelace"@, JsonView::opt_number(amount_lovelace))).push(
                member("tx_hash"@, JsonView::Text(tx_hash)),
            ),
        ),
    }
}

/// An event: its kind, its time in RFC 3339, its slot, its transaction hash
/// and what else it carries.
pub open spec fn event_json(e: EventView) -> JsonView {
    JsonView::Object(
        Seq::empty().push(member("kind"@, kind_json(e.kind))).push(
            member(
                "timestamp"@,
                JsonView::Text(rfc3339_text(e.timestamp.unix_seconds, e.timestamp.nanosecond)->0),
            ),
        ).push(member("slot"@, JsonView::opt_number(e.slot))).push(
            member("tx_hash"@, JsonView::Text(e.tx_hash)),
        ).push(
            member(
                "extra"@,
                match e.extra {
                    Some(v) => v,
                    None => JsonView::Null,
                },
            ),
        ),
    )
}

/// A run of events, as an array.
pub open spec fn events_json(events: Seq<EventView>) -> JsonView {
    JsonView::Array(events.map_values(|e: EventView| event_json(e)))
}

/// Whether the time of every event can be written down.
pub open spec fn all_timestamps_ok(events: Seq<EventView>) -> bool {
    forall|i: int| 0 <= i < events.len() ==> timestamp_ok((#[trigger] events[i]).timestamp)
}

/// The four buckets, each as an array.
pub open spec fn buckets_json(ev: IndigoEventsView) -> JsonView {
    JsonView::Object(
        Seq::empty().push(member("stability_pool"@, events_json(ev.stability_pool))).push(
            member("rob"@, events_json(ev.rob)),
        ).push(member("indy_staking"@, events_json(ev.indy_staking))).push(
            member("other"@, events_json(ev.other)),
        ),
    )
}

/// Whether the time of every event of the four buckets can be written down.
pub open spec fn buckets_ok(ev: IndigoEventsView) -> bool {
    &&& all_timestamps_ok(ev.stability_pool)
    &&& all_timestamps_ok(ev.rob)
    &&& all_timestamps_ok(ev.indy_staking)
    &&& all_timestamps_ok(ev.other)
}

/// The totals of the stability pool.
pub open spec fn pool_metrics_json(m: StabilityPoolMetrics) -> JsonView {
    JsonView::Object(
        Seq::empty().push(
            member("total_deposits_lovelace"@, JsonView::number(m.total_deposits_lovelace)),
        ).push(
            member("total_withdrawals_lovelace"@, JsonView::number(m.total_withdrawals_lovelace)),
        ).push(
            member(
                "total_liquidations_ada_received_lovelace"@,
                JsonView::number(m.total_liquidations_ada_received_lovelace),
            ),
        ).push(
            member(
                "total_realized_premium_lovelace"@,
                JsonView::number(m.total_realized_premium_lovelace),
            ),
        ).push(
            member(
                "net_ada_from_liquidations_lovelace"@,
                JsonView::signed(m.net_ada_from_liquidations_lovelace),
            ),
        ).push(member("liquidation_count"@, JsonView::number(m.liquidation_count))),
    )
}

/// The totals of the order book, the premium samples as an array.
pub open spec fn order_metrics_json(m: RobMetricsView) -> JsonView {
    JsonView::Object(
        Seq::empty().push(
            member("total_placed_lovelace"@, JsonView::number(m.total_placed_lovelace)),
        ).push(member("total_filled_lovelace"@, JsonView::number(m.total_filled_lovelace))).push(
            member(
                "total_premium_received_lovelace"@,
                JsonView::number(m.total_premium_received_lovelace),
            ),
        ).push(
            member(
                "premium_samples"@,
                JsonView::Array(m.premium_samples.map_values(|r: PremiumRate| rate_json(r))),
            ),
        ).push(member("fill_count"@, JsonView::number(m.fill_count))),
    )
}

/// The totals of staking.
pub open spec fn staking_metrics_json(m: IndyStakingMetrics) -> JsonView {
    JsonView::Object(
        Seq::empty().push(
            member("total_rewards_lovelace"@, JsonView::number(m.total_rewards_lovelace)),
        ).push(
            member("total_sp_premium_lovelace"@, JsonView::number(m.total_sp_premium_lovelace)),
        ).push(member("reward_tx_count"@, JsonView::number(m.reward_tx_count))),
    )
}

/// The terms of the annualised return, or `null` where it is not set.
pub open spec fn apr_json(o: Option<AprTerms>) -> JsonView {
    match o {
        Some(t) => JsonView::Object(
            Seq::empty().push(member("gain_lovelace"@, JsonView::number(t.gain_lovelace))).push(
                member("position_lovelace"@, JsonView::number(t.position_lovelace)),
            ).push(member("period_seconds"@, JsonView::number(t.period_seconds))),
        ),
        None => JsonView::Null,
    }
}

/// The totals over all mechanisms.
pub open spec fn combined_metrics_json(m: CombinedMetrics) -> JsonView {
    JsonView::Object(
        Seq::empty().push(
            member("total_ada_in_lovelace"@, JsonView::number(m.total_ada_in_lovelace)),
        ).push(member("total_ada_out_lovelace"@, JsonView::number(m.total_ada_out_lovelace))).push(
            member("net_pnl_lovelace"@, JsonView::signed(m.net_pnl_lovelace)),
        ).push(member("apr_pct"@, apr_json(m.apr_pct))),
    )
}

/// The dilution model, or `null` where there is none.
pub open spec fn dilution_json(o: Option<DilutionView>) -> JsonView {
    match o {
        Some(d) => JsonView::Object(
            Seq::empty().push(
                member("total_iasset_at_risk"@, JsonView::opt_text(d.total_iasset_at_risk)),
            ).push(member("user_share_pct"@, opt_rate_json(d.user_share_pct))).push(
                member("dilution_effect_lovelace"@, JsonView::opt_number(d.dilution_effect_lovelace)),
            ),
        ),
        None => JsonView::Null,
    }
}

/// All metrics: one member for each group.
pub open spec fn metrics_json(m: ComputedMetricsView) -> JsonView {
    JsonView::Object(
        Seq::empty().push(member("stability_pool"@, pool_metrics_json(m.stability_pool))).push(
            member("rob"@, order_metrics_json(m.rob)),
        ).push(member("indy_staking"@, staking_metrics_json(m.indy_staking))).push(
            member("combined"@, combined_metrics_json(m.combined)),
        ).push(member("dilution"@, dilution_json(m.dilution))),
    )
}

/// The document of a premium rate.
pub fn rate_to_json(r: PremiumRate) -> (v: JsonValue)
    ensures
        v@ == rate_json(r),
{
    let mut m: Vec<JsonMember> = no_members();
    put(&mut m, "gain_lovelace", JsonValue::number(r.gain_lovelace));
    put(&mut m, "basis_lovelace", JsonValue::number(r.basis_lovelace));
    JsonValue::object(m)
}

fn opt_rate_to_json(o: Option<PremiumRate>) -> (v: JsonValue)
    ensures
        v@ == opt_rate_json(o),
{
    match o {
        Some(r) => rate_to_json(r),
        None => JsonValue::Null,
    }
}

/// The document of an event kind.
pub fn kind_to_json(kind: &EventKind) -> (v: JsonValue)
    ensures
        v@ == kind_json(kind@),
{
    let mut m: Vec<JsonMember> = no_members();
    match kind {
        EventKind::StabilityPoolDeposit { amount_lovelace, iasset_amount, tx_hash } => {
            put(&mut m, "kind", JsonValue::text("stability_pool_deposit"));
            put(&mut m, "amount_lovelace", JsonValue::number(*amount_lovelace));
            put(&mut m, "iasset_amount", JsonValue::opt_text(iasset_amount));
            put(&mut m, "tx_hash", JsonValue::text(tx_hash.as_str()));
        },
        EventKind::StabilityPoolWithdraw { amount_lovelace, iasset_amount, tx_hash } => {
            put(&mut m, "kind", JsonValue::text("stability_pool_withdraw"));
            put(&mut m, "amount_lovelace", JsonValue::number(*amount_lovelace));
            put(&mut m, "iasset_amount", JsonValue::opt_text(iasset_amount));
            put(&mut m, "tx_hash", JsonValue::text(tx_hash.as_str()));
        },
        EventKind::StabilityPoolLiquidation {
            iasset_burnt,
            ada_received_lovelace,
            realized_premium_lovelace,
            dilution_effect,
            tx_hash,
            slot,
        } => {
            put(&mut m, "kind", JsonValue::text("stability_pool_liquidation"));
            put(&mut m, "iasset_burnt", JsonValue::text(iasset_burnt.as_str()));
            put(&mut m, "ada_received_lovelace", JsonValue::number(*ada_received_lovelace));
            put(&mut m, "realized_premium_lovelace", JsonValue::number(*realized_premium_lovelace));
            put(&mut m, "dilution_effect", JsonValue::opt_text(dilution_effect));
            put(&mut m, "tx_hash", JsonValue::text(tx_hash.as_str()));
            put(&mut m, "slot", JsonValue::opt_number(*slot));
        },
        EventKind::RobOrderPlace { order_id, amount_lovelace, tx_hash, slot } => {
            put(&mut m, "kind", JsonValue::text("rob_order_place"));
            put(&mut m, "order_id", JsonValue::opt_text(order_id));
            put(&mut m, "amount_lovelace", JsonValue::number(*amount_lovelace));
            put(&mut m, "tx_hash", JsonValue::text(tx_hash.as_str()));
            put(&mut m, "slot", JsonValue::opt_number(*slot));
        },
        EventKind::RobOrderFill {
            order_id,
            filled_lovelace,
            premium_pct,
            reimbursement_pct,
            tx_hash,
            slot,
        } => {
            put(&mut m, "kind", JsonValue::text("rob_order_fill"));
            put(&mut m, "order_id", JsonValue::opt_text(order_id));
            put(&mut m, "filled_lovelace", JsonValue::number(*filled_lovelace));
            put(&mut m, "premium_pct", opt_rate_to_json(*premium_pct));
            put(&mut m, "reimbursement_pct", opt_rate_to_json(*reimbursement_pct));
            put(&mut m, "tx_hash", JsonValue::text(tx_hash.as_str()));
            put(&mut m, "slot", JsonValue::opt_number(*slot));
        },
        EventKind::RobCooldown { inferred_from_tx, tx_hash } => {
            put(&mut m, "kind", JsonValue::text("rob_cooldown"));
            put(&mut m, "inferred_from_tx", JsonValue::Bool(*inferred_from_tx));
            put(&mut m, "tx_hash", JsonValue::text(tx_hash.as_str()));
        },
        EventKind::IndyStakingReward { amount_lovelace, epoch, tx_hash } => {
            put(&mut m, "kind", JsonValue::text("indy_staking_reward"));
            put(&mut m, "amount_lovelace", JsonValue::number(*amount_lovelace));
            put(&mut m, "epoch", JsonValue::opt_number(*epoch));
            put(&mut m, "tx_hash", JsonValue::text(tx_hash.as_str()));
        },
        EventKind::IndySpPremium { amount_lovelace, tx_hash, slot } => {
            put(&mut m, "kind", JsonValue::text("indy_sp_premium"));
            put(&mut m, "amount_lovelace", JsonValue::number(*amount_lovelace));
            put(&mut m, "tx_hash", JsonValue::text(tx_hash.as_str()));
            put(&mut m, "slot", JsonValue::opt_number(*slot));
        },
        EventKind::OtherFlow { description, amount_lovelace, tx_hash } => {
            put(&mut m, "kind", JsonValue::text("other_flow"));
            put(&mut m, "description", JsonValue::text(description.as_str()));
            put(&mut m, "amount_lovelace", JsonValue::opt_number(*amount_lovelace));
            put(&mut m, "tx_hash", JsonValue::text(tx_hash.as_str()));
        },
    }
    JsonValue::object(m)
}

/// The document of an event; `None` where its time cannot be written down.
pub fn event_to_json(e: &Event) -> (r: Option<JsonValue>)
    ensures
        r is Some == timestamp_ok(e@.timestamp),
        r matches Some(v) ==> v@ == event_json(e@),
{
    let text = match format_timestamp(e.timestamp) {
        Some(t) => t,
        None => {
            return None;
        },
    };
    let mut m: Vec<JsonMember> = no_members();
    put(&mut m, "kind", kind_to_json(&e.kind));
    put(&mut m, "timestamp", JsonValue::Text(text));
    put(&mut m, "slot", JsonValue::opt_number(e.slot));
    put(&mut m, "tx_hash", JsonValue::text(e.tx_hash.as_str()));
    put(
        &mut m,
        "extra",
        match &e.extra {
            Some(v) => v.clone(),
            None => JsonValue::Null,
        },
    );
    Some(JsonValue::object(m))
}

/// The document of a run of events; `None` where the time of one of them
/// cannot be written down.
pub fn events_to_json(events: &Vec<Event>) -> (r: Option<JsonValue>)
    ensures
        r is Some == all_timestamps_ok(event_views(events@)),
        r matches Some(v) ==> v@ == events_json(event_views(events@)),
{
    let mut items: Vec<JsonValue> = Vec::new();
    let ghost views = event_views(events@);
    let mut i: usize = 0;
    assert(item_views(items@) =~= views.take(0).map_values(|e: EventView| event_json(e)));
    while i < events.len()
        invariant
            i <= events.len(),
            views == event_views(events@),
            all_timestamps_ok(views.take(i as int)),
            item_views(items@) == views.take(i as int).map_values(|e: EventView| event_json(e)),
        decreases events.len() - i,
    {
        match event_to_json(&events[i]) {
            Some(v) => {
                put_item(&mut items, v);
                assert(item_views(items@) =~= views.take(i + 1).map_values(
                    |e: EventView| event_json(e),
                ));
                assert forall|k: int| 0 <= k < i + 1 implies timestamp_ok(
                    (#[trigger] views.take(i + 1)[k]).timestamp,
                ) by {
                    if k < i {
                        assert(views.take(i as int)[k] == views.take(i + 1)[k]);
                    }
                }
            },
            None => {
                assert(!timestamp_ok(views[i as int].timestamp));
                return None;
            },
        }
        i += 1;
    }
    assert(views.take(i as int) =~= views);
    Some(JsonValue::array(items))
}

/// The document of the four buckets; `None` where the time of an event
/// cannot be written down.
pub fn buckets_to_json(ev: &IndigoEvents) -> (r: Option<JsonValue>)
    ensures
        r is Some == buckets_ok(ev@),
        r matches Some(v) ==> v@ == buckets_json(ev@),
{
    let pool = match events_to_json(&ev.stability_pool) {
        Some(v) => v,
        None => {
            return None;
        },
    };
    let rob = match events_to_json(&ev.rob) {
        Some(v) => v,
        None => {
            return None;
        },
    };
    let staking = match events_to_json(&ev.indy_staking) {
        Some(v) => v,
        None => {
            return None;
        },
    };
    let other = match events_to_json(&ev.other) {
        Some(v) => v,
        None => {
            return None;
        },
    };
    let mut m: Vec<JsonMember> = no_members();
    put(&mut m, "stability_pool", pool);
    put(&mut m, "rob", rob);
    put(&mut m, "indy_staking", staking);
    put(&mut m, "other", other);
    Some(JsonValue::object(m))
}

fn pool_metrics_to_json(s: &StabilityPoolMetrics) -> (v: JsonValue)
    ensures
        v@ == pool_metrics_json(*s),
{
    let mut m: Vec<JsonMember> = no_members();
    put(&mut m, "total_deposits_lovelace", JsonValue::number(s.total_deposits_lovelace));
    put(&mut m, "total_withdrawals_lovelace", JsonValue::number(s.total_withdrawals_lovelace));
    put(
        &mut m,
        "total_liquidations_ada_received_lovelace",
        JsonValue::number(s.total_liquidations_ada_received_lovelace),
    );
    put(
        &mut m,
        "total_realized_premium_lovelace",
        JsonValue::number(s.total_realized_premium_lovelace),
    );
    put(
        &mut m,
        "net_ada_from_liquidations_lovelace",
        JsonValue::signed(s.net_ada_from_liquidations_lovelace),
    );
    put(&mut m, "liquidation_count", JsonValue::number(s.liquidation_count));
    JsonValue::object(m)
}

fn order_metrics_to_json(r: &RobMetrics) -> (v: JsonValue)
    ensures
        v@ == order_metrics_json(r@),
{
    let mut samples: Vec<JsonValue> = Vec::new();
    let mut i: usize = 0;
    assert(item_views(samples@) =~= r.premium_samples@.take(0).map_values(
        |x: PremiumRate| rate_json(x),
    ));
    while i < r.premium_samples.len()
        invariant
            i <= r.premium_samples.len(),
            item_views(samples@) == r.premium_samples@.take(i as int).map_values(
                |x: PremiumRate| rate_json(x),
            ),
        decreases r.premium_samples.len() - i,
    {
        put_item(&mut samples, rate_to_json(r.premium_samples[i]));
        assert(item_views(samples@) =~= r.premium_samples@.take(i + 1).map_values(
            |x: PremiumRate| rate_json(x),
        ));
        i += 1;
    }
    assert(r.premium_samples@.take(i as int) =~= r.premium_samples@);
    let mut m: Vec<JsonMember> = no_members();
    put(&mut m, "total_placed_lovelace", JsonValue::number(r.total_placed_lovelace));
    put(&mut m, "total_filled_lovelace", JsonValue::number(r.total_filled_lovelace));
    put(
        &mut m,
        "total_premium_received_lovelace",
        JsonValue::number(r.total_premium_received_lovelace),
    );
    put(&mut m, "premium_samples", JsonValue::array(samples));
    put(&mut m, "fill_count", JsonValue::number(r.fill_count));
    JsonValue::object(m)
}

fn staking_metrics_to_json(s: &IndyStakingMetrics) -> (v: JsonValue)
    ensures
        v@ == staking_metrics_json(*s),
{
    let mut m: Vec<JsonMember> = no_members();
    put(&mut m, "total_rewards_lovelace", JsonValue::number(s.total_rewards_lovelace));
    put(&mut m, "total_sp_premium_lovelace", JsonValue::number(s.total_sp_premium_lovelace));
    put(&mut m, "reward_tx_count", JsonValue::number(s.reward_tx_count));
    JsonValue::object(m)
}

fn apr_to_json(o: Option<AprTerms>) -> (v: JsonValue)
    ensures
        v@ == apr_json(o),
{
    match o {
        Some(t) => {
            let mut m: Vec<JsonMember> = no_members();
            put(&mut m, "gain_lovelace", JsonValue::number(t.gain_lovelace));
            put(&mut m, "position_lovelace", JsonValue::number(t.position_lovelace));
            put(&mut m, "period_seconds", JsonValue::number(t.period_seconds));
            JsonValue::object(m)
        },
        None => JsonValue::Null,
    }
}

fn combined_metrics_to_json(c: &CombinedMetrics) -> (v: JsonValue)
    ensures
        v@ == combined_metrics_json(*c),
{
    let mut m: Vec<JsonMember> = no_members();
    put(&mut m, "total_ada_in_lovelace", JsonValue::number(c.total_ada_in_lovelace));
    put(&mut m, "total_ada_out_lovelace", JsonValue::number(c.total_ada_out_lovelace));
    put(&mut m, "net_pnl_lovelace", JsonValue::signed(c.net_pnl_lovelace));
    put(&mut m, "apr_pct", apr_to_json(c.apr_pct));
    JsonValue::object(m)
}

fn dilution_to_json(o: &Option<DilutionModel>) -> (v: JsonValue)
    ensures
        v@ == dilution_json(
            match *o {
                Some(d) => Some(d@),
                None => None,
            },
        ),
{
    match o {
        Some(d) => {
            let mut m: Vec<JsonMember> = no_members();
            put(&mut m, "total_iasset_at_risk", JsonValue::opt_text(&d.total_iasset_at_risk));
            put(&mut m, "user_share_pct", opt_rate_to_json(d.user_share_pct));
            put(&mut m, "dilution_effect_lovelace", JsonValue::opt_number(d.dilution_effect_lovelace));
            JsonValue::object(m)
        },
        None => JsonValue::Null,
    }
}

/// The document of the metrics.
pub fn metrics_to_json(metrics: &ComputedMetrics) -> (v: JsonValue)
    ensures
        v@ == metrics_json(metrics@),
{
    let mut m: Vec<JsonMember> = no_members();
    put(&mut m, "stability_pool", pool_metrics_to_json(&metrics.stability_pool));
    put(&mut m, "rob", order_metrics_to_json(&metrics.rob));
    put(&mut m, "indy_staking", staking_metrics_to_json(&metrics.indy_staking));
    put(&mut m, "combined", combined_metrics_to_json(&metrics.combined));
    put(&mut m, "dilution", dilution_to_json(&metrics.dilution));
    JsonValue::object(m)
}

} // verus!
