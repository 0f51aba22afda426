//! The evidence bundle and its SHA-256 reproducibility hash.

use vstd::prelude::*;
use vstd::string::*;
use vstd::utf8::encode_utf8;
use crate::chain::cache::{content_key, is_lower_hex, Cache};
use crate::chain::fetch::{tx_views, AccountTxView, KoiosAccountTx};
use crate::order::{
    lemma_sort_commutes_with_map, sort_stable, stable_sort, KeyOrder, SortKey, SortKeyed,
};
use crate::compute::metrics::{
    AprTerms, CombinedMetrics, ComputedMetrics, ComputedMetricsView, IndyStakingMetrics,
    RobMetrics, RobMetricsView, StabilityPoolMetrics, SECONDS_PER_YEAR,
};
use crate::indigo::events::{
    current_time, IndigoEvents, IndigoEventsView, PremiumRate, Timestamp,
};
use crate::json::{
    compact_text, no_members, put, sort_json_keys, sorted_keys, to_compact_text, JsonMember, JsonValue,
    JsonView,
};
use crate::text::{lowercase, str_eq, str_lt, to_lowercase, trim, trimmed};
use crate::verify::document::{
    buckets_json, buckets_ok, buckets_to_json, member, metrics_json, metrics_to_json,
    rfc3339_text, timestamp_ok, timestamp_text,
};

verus! {

/// The version of the bundle layout.
pub const BUNDLE_VERSION: u32 = 1;

/// Why a bundle could not be hashed or read.
#[derive(Clone, Debug)]
pub enum VerifyError {
    Serialize(String),
    Io(String),
}

impl VerifyError {
    /// The error in words.
    pub fn message(&self) -> (r: String)
        ensures
            r@ == match *self {
                VerifyError::Serialize(s) => "serialize: "@ + s@,
                VerifyError::Io(s) => "io: "@ + s@,
            },
    {
        match self {
            VerifyError::Serialize(s) => String::from_str("serialize: ").concat(s.as_str()),
            VerifyError::Io(s) => String::from_str("io: ").concat(s.as_str()),
        }
    }
}

/// The inputs of a run and what was computed from them: the unit that is
/// written down and hashed.
#[derive(Clone, Debug)]
pub struct EvidenceBundle {
    pub version: u32,
    pub address: String,
    pub created_utc_rfc3339: String,
    /// The hashes of the transactions that were read, sorted.
    pub tx_hashes: Vec<String>,
    /// The UTXOs, datums and policies referred to, sorted.
    pub input_refs: Vec<String>,
    /// The content hashes of the API responses, sorted.
    pub api_response_hashes: Vec<String>,
    pub events: IndigoEvents,
    pub metrics: ComputedMetrics,
    /// The slots of the transactions that were read.
    pub fetched_at_slots: Vec<u64>,
}

/// The mathematical value of an [`EvidenceBundle`].
pub struct BundleView {
    pub version: u32,
    pub address: Seq<char>,
    pub created_utc_rfc3339: Seq<char>,
    pub tx_hashes: Seq<Seq<char>>,
    pub input_refs: Seq<Seq<char>>,
    pub api_response_hashes: Seq<Seq<char>>,
    pub events: IndigoEventsView,
    pub metrics: ComputedMetricsView,
    pub fetched_at_slots: Seq<u64>,
}

impl View for EvidenceBundle {
    type V = BundleView;

    open spec fn view(&self) -> BundleView {
        BundleView {
            version: self.version,
            address: self.address@,
            created_utc_rfc3339: self.created_utc_rfc3339@,
            tx_hashes: self.tx_hashes@.map_values(|s: String| s@),
            input_refs: self.input_refs@.map_values(|s: String| s@),
            api_response_hashes: self.api_response_hashes@.map_values(|s: String| s@),
            events: self.events@,
            metrics: self.metrics@,
            fetched_at_slots: self.fetched_at_slots@,
        }
    }
}

/// The document of a bundle: one member for each of its nine fields, none
/// left out.
pub open spec fn bundle_json(b: BundleView) -> JsonView {
    JsonView::Object(
        Seq::empty().push(member("version"@, JsonView::number(b.version as u64))).push(
            member("address"@, JsonView::Text(b.address)),
        ).push(member("created_utc_rfc3339"@, JsonView::Text(b.created_utc_rfc3339))).push(
            member("tx_hashes"@, JsonView::texts(b.tx_hashes)),
        ).push(member("input_refs"@, JsonView::texts(b.input_refs))).push(
            member("api_response_hashes"@, JsonView::texts(b.api_response_hashes)),
        ).push(member("events"@, buckets_json(b.events))).push(
            member("metrics"@, metrics_json(b.metrics)),
        ).push(member("fetched_at_slots"@, JsonView::numbers(b.fetched_at_slots))),
    )
}

/// The canonical text of a document: the members of every object ordered by
/// key, nothing between the tokens.
pub open spec fn canonical_text(v: JsonView) -> Seq<char> {
    compact_text(sorted_keys(v))
}

/// The reproducibility hash of a bundle: the SHA-256 digest of the canonical
/// text of its document, in lower-case hexadecimal.
pub open spec fn bundle_hash(b: BundleView) -> Seq<char> {
    content_key(canonical_text(bundle_json(b)))
}

impl EvidenceBundle {
    /// A bundle of the current layout version, created at the time given.
    pub fn created_at(
        created_utc_rfc3339: String,
        address: String,
        tx_hashes: Vec<String>,
        input_refs: Vec<String>,
        api_response_hashes: Vec<String>,
        events: IndigoEvents,
        metrics: ComputedMetrics,
        fetched_at_slots: Vec<u64>,
    ) -> (r: EvidenceBundle)
        ensures
            r == (EvidenceBundle {
                version: BUNDLE_VERSION,
                address,
                created_utc_rfc3339,
                tx_hashes,
                input_refs,
                api_response_hashes,
                events,
                metrics,
                fetched_at_slots,
            }),
    {
        EvidenceBundle {
            version: BUNDLE_VERSION,
            address,
            created_utc_rfc3339,
            tx_hashes,
            input_refs,
            api_response_hashes,
            events,
            metrics,
            fetched_at_slots,
        }
    }

    /// A bundle of the current layout version, created now: the time of
    /// creation is the current time in RFC 3339, or empty where the clock
    /// shows a time that cannot be written so. Everything else is as given.
    pub fn new(
        address: String,
        tx_hashes: Vec<String>,
        input_refs: Vec<String>,
        api_response_hashes: Vec<String>,
        events: IndigoEvents,
        metrics: ComputedMetrics,
        fetched_at_slots: Vec<u64>,
    ) -> (r: EvidenceBundle)
        ensures
            r == (EvidenceBundle {
                version: BUNDLE_VERSION,
                address,
                created_utc_rfc3339: r.created_utc_rfc3339,
                tx_hashes,
                input_refs,
                api_response_hashes,
                events,
                metrics,
                fetched_at_slots,
            }),
            r.created_utc_rfc3339@.len() == 0 || exists|t: Timestamp|
                timestamp_ok(t) && #[trigger] rfc3339_text(t.unix_seconds, t.nanosecond) == Some(
                    r.created_utc_rfc3339@,
                ),
    {
        let now = current_time();
        let created = match timestamp_text(now) {
            Some(text) => {
                assert(timestamp_ok(now) && rfc3339_text(now.unix_seconds, now.nanosecond)
                    == Some(text@));
                text
            },
            None => String::new(),
        };
        Self::created_at(
            created,
            address,
            tx_hashes,
            input_refs,
            api_response_hashes,
            events,
            metrics,
            fetched_at_slots,
        )
    }

    /// A bundle with made-up figures and a fixed time of creation, for
    /// showing what a report looks like.
    pub fn demo() -> (r: EvidenceBundle)
        ensures
            r@.version == BUNDLE_VERSION,
            r@.address == "addr1_demo (Indigo Proof-of-Yield sample)"@,
            r@.created_utc_rfc3339 == "2026-02-12T10:00:00Z"@,
            r@.tx_hashes == seq!["demo_tx_1"@, "demo_tx_2"@],
            r@.input_refs.len() == 0,
            r@.api_response_hashes.len() == 0,
            r@.events == IndigoEventsView::empty(),
            r@.fetched_at_slots == seq![100_000u64, 100_100u64],
            r@.metrics.stability_pool == (StabilityPoolMetrics {
                total_deposits_lovelace: 50_000_000,
                total_withdrawals_lovelace: 0,
                total_liquidations_ada_received_lovelace: 11_270_000,
                total_realized_premium_lovelace: 1_093_190,
                net_ada_from_liquidations_lovelace: (-38_730_000i64),
                liquidation_count: 23,
            }),
            r@.metrics.rob == (RobMetricsView {
                total_placed_lovelace: 20_000_000,
                total_filled_lovelace: 8_080_000,
                total_premium_received_lovelace: 80_800,
                premium_samples: seq![PremiumRate { gain_lovelace: 1, basis_lovelace: 100 }],
                fill_count: 4,
            }),
            r@.metrics.indy_staking == (IndyStakingMetrics {
                total_rewards_lovelace: 0,
                total_sp_premium_lovelace: 0,
                reward_tx_count: 0,
            }),
            r@.metrics.dilution is None,
            r@.metrics.combined == (CombinedMetrics {
                total_ada_in_lovelace: 70_000_000,
                total_ada_out_lovelace: 19_350_000,
                net_pnl_lovelace: (-50_730_000i64),
                apr_pct: Some(
                    AprTerms {
                        gain_lovelace: 97,
                        position_lovelace: 1000,
                        period_seconds: SECONDS_PER_YEAR,
                    },
                ),
            }),
    {
        let stability_pool = StabilityPoolMetrics {
            total_deposits_lovelace: 50_000_000,
            total_withdrawals_lovelace: 0,
            total_liquidations_ada_received_lovelace: 11_270_000,
            total_realized_premium_lovelace: 1_093_190,
            net_ada_from_liquidations_lovelace: -38_730_000,
            liquidation_count: 23,
        };
        let mut premium_samples: Vec<PremiumRate> = Vec::new();
        premium_samples.push(PremiumRate { gain_lovelace: 1, basis_lovelace: 100 });
        let rob = RobMetrics {
            total_placed_lovelace: 20_000_000,
            total_filled_lovelace: 8_080_000,
            total_premium_received_lovelace: 80_800,
            premium_samples,
            fill_count: 4,
        };
        let combined = CombinedMetrics {
            total_ada_in_lovelace: 50_000_000 + 20_000_000,
            total_ada_out_lovelace: 11_270_000 + 8_080_000,
            net_pnl_lovelace: -50_730_000,
            apr_pct: Some(
                AprTerms {
                    gain_lovelace: 97,
                    position_lovelace: 1000,
                    period_seconds: SECONDS_PER_YEAR,
                },
            ),
        };
        let metrics = ComputedMetrics {
            stability_pool,
            rob,
            indy_staking: IndyStakingMetrics::default(),
            combined,
            dilution: None,
        };
        let mut tx_hashes: Vec<String> = Vec::new();
        tx_hashes.push(String::from_str("demo_tx_1"));
        tx_hashes.push(String::from_str("demo_tx_2"));
        let mut fetched_at_slots: Vec<u64> = Vec::new();
        fetched_at_slots.push(100_000);
        fetched_at_slots.push(100_100);
        let r = EvidenceBundle {
            version: BUNDLE_VERSION,
            address: String::from_str("addr1_demo (Indigo Proof-of-Yield sample)"),
            created_utc_rfc3339: String::from_str("2026-02-12T10:00:00Z"),
            tx_hashes,
            input_refs: Vec::new(),
            api_response_hashes: Vec::new(),
            events: IndigoEvents::default(),
            metrics,
            fetched_at_slots,
        };
        assert(r@.tx_hashes =~= seq!["demo_tx_1"@, "demo_tx_2"@]);
        assert(r@.metrics.rob.premium_samples =~= seq![
            PremiumRate { gain_lovelace: 1, basis_lovelace: 100 },
        ]);
        assert(r@.input_refs =~= Seq::empty());
        assert(r@.api_response_hashes =~= Seq::empty());
        assert(r@.fetched_at_slots =~= seq![100_000u64, 100_100u64]);
        r
    }

    /// The document of the bundle; `None` where the time of an event cannot
    /// be written down.
    pub fn to_json(&self) -> (r: Option<JsonValue>)
        ensures
            r is Some == buckets_ok(self@.events),
            r matches Some(v) ==> v@ == bundle_json(self@),
    {
        let events = match buckets_to_json(&self.events) {
            Some(v) => v,
            None => {
                return None;
            },
        };
        let mut m: Vec<JsonMember> = no_members();
        put(&mut m, "version", JsonValue::number(self.version as u64));
        put(&mut m, "address", JsonValue::text(self.address.as_str()));
        put(&mut m, "created_utc_rfc3339", JsonValue::text(self.created_utc_rfc3339.as_str()));
        put(&mut m, "tx_hashes", JsonValue::texts(&self.tx_hashes));
        put(&mut m, "input_refs", JsonValue::texts(&self.input_refs));
        put(&mut m, "api_response_hashes", JsonValue::texts(&self.api_response_hashes));
        put(&mut m, "events", events);
        put(&mut m, "metrics", metrics_to_json(&self.metrics));
        put(&mut m, "fetched_at_slots", JsonValue::numbers(&self.fetched_at_slots));
        Some(JsonValue::object(m))
    }
}

impl SortKeyed for Seq<char> {
    /// Texts are ordered by their UTF-8 bytes.
    open spec fn sort_key(&self) -> SortKey {
        SortKey { slot: 0, hash: encode_utf8(*self) }
    }
}

impl SortKeyed for String {
    open spec fn sort_key(&self) -> SortKey {
        self@.sort_key()
    }
}

impl KeyOrder for String {
    fn key_before(&self, other: &Self) -> (r: bool) {
        str_lt(self.as_str(), other.as_str())
    }
}

/// The hashes of the transactions, in their order.
pub open spec fn hashes_of(txs: Seq<AccountTxView>) -> Seq<Seq<char>> {
    txs.map_values(|t: AccountTxView| t.tx_hash)
}

/// The slots of the transactions that have one, in their order.
pub open spec fn slots_of(txs: Seq<AccountTxView>) -> Seq<u64>
    decreases txs.len(),
{
    if txs.len() == 0 {
        Seq::empty()
    } else {
        match txs.last().slot_no {
            Some(slot) => slots_of(txs.drop_last()).push(slot),
            None => slots_of(txs.drop_last()),
        }
    }
}

/// The hashes of the transactions in byte order, for the bundle.
pub fn sorted_tx_hashes(txs: &[KoiosAccountTx]) -> (r: Vec<String>)
    ensures
        r@.map_values(|s: String| s@) == stable_sort(hashes_of(tx_views(txs@))),
{
    let mut out: Vec<String> = Vec::new();
    let mut i: usize = 0;
    while i < txs.len()
        invariant
            i <= txs.len(),
            out@.len() == i,
            forall|k: int| 0 <= k < i ==> (#[trigger] out@[k])@ == txs@[k].tx_hash@,
        decreases txs.len() - i,
    {
        out.push(txs[i].tx_hash.clone());
        i += 1;
    }
    assert(out@.map_values(|s: String| s@) =~= hashes_of(tx_views(txs@)));
    proof {
        lemma_sort_commutes_with_map(out@, |s: String| s@);
    }
    sort_stable(&mut out);
    out
}

/// The slots of the transactions that have one, in their order, for the bundle.
pub fn slots_touched(txs: &[KoiosAccountTx]) -> (r: Vec<u64>)
    ensures
        r@ == slots_of(tx_views(txs@)),
{
    let mut out: Vec<u64> = Vec::new();
    let ghost views = tx_views(txs@);
    let mut i: usize = 0;
    assert(views.take(0) =~= Seq::<AccountTxView>::empty());
    while i < txs.len()
        invariant
            i <= txs.len(),
            views == tx_views(txs@),
            out@ == slots_of(views.take(i as int)),
        decreases txs.len() - i,
    {
        assert(views.take(i + 1).drop_last() =~= views.take(i as int));
        assert(views.take(i + 1).last() == txs@[i as int]@);
        match txs[i].slot_no {
            Some(slot) => {
                out.push(slot);
            },
            None => {},
        }
        i += 1;
    }
    assert(views.take(i as int) =~= views);
    out
}

/// The canonical text of a document: keys ordered, no whitespace.
pub fn normalize_for_hash(value: &JsonValue) -> (r: Result<String, VerifyError>)
    ensures
        r is Ok,
        r->Ok_0@ == canonical_text(value@),
{
    let sorted = sort_json_keys(value);
    Ok(to_compact_text(&sorted))
}

/// The reproducibility hash of a bundle: SHA-256 over the canonical text of
/// its document, 64 lower-case hexadecimal characters.
///
/// The hash is a function of the fields of the bundle, the time of creation
/// among them. It fails only where the time of an event cannot be written
/// down.
pub fn reproducibility_hash(bundle: &EvidenceBundle) -> (r: Result<String, VerifyError>)
    ensures
        r is Ok == buckets_ok(bundle@.events),
        r matches Ok(h) ==> h@ == bundle_hash(bundle@) && h@.len() == 64 && forall|i: int|
            0 <= i < 64 ==> is_lower_hex(#[trigger] h@[i]),
        r matches Err(e) ==> e is Serialize,
{
    let json = match bundle.to_json() {
        Some(v) => v,
        None => {
            return Err(VerifyError::Serialize(String::from_str("timestamp out of range")));
        },
    };
    let normalized = match normalize_for_hash(&json) {
        Ok(t) => t,
        Err(e) => {
            return Err(e);
        },
    };
    Ok(Cache::key_for(normalized.as_str()))
}

/// What a verification found.
#[derive(Clone, Debug)]
pub struct VerificationResult {
    pub bundle_hash: String,
    pub expected_hash: Option<String>,
    pub matches: bool,
}

/// What a verification comes to.
#[derive(Clone, Copy, Debug, PartialEq, Eq)]
pub enum VerificationOutcome {
    /// The recomputed hash is the expected one.
    Verified,
    /// There is an expected hash and the recomputed one differs from it.
    Mismatch,
    /// There is no expected hash to hold the recomputed one against. This is
    /// no failure.
    Inconclusive,
}

impl VerificationResult {
    /// What the verification comes to: verified where the hashes match, a
    /// mismatch where an expected hash differs, inconclusive where none is known.
    pub fn outcome(&self) -> (r: VerificationOutcome)
        ensures
            r == if self.matches {
                VerificationOutcome::Verified
            } else if self.expected_hash is Some {
                VerificationOutcome::Mismatch
            } else {
                VerificationOutcome::Inconclusive
            },
    {
        if self.matches {
            VerificationOutcome::Verified
        } else if self.expected_hash.is_some() {
            VerificationOutcome::Mismatch
        } else {
            VerificationOutcome::Inconclusive
        }
    }
}

impl VerificationOutcome {
    /// The exit status that tells the three outcomes apart: 0 for verified,
    /// 1 for a mismatch, 2 for inconclusive.
    pub fn exit_status(&self) -> (r: u8)
        ensures
            r == match *self {
                VerificationOutcome::Verified => 0u8,
                VerificationOutcome::Mismatch => 1u8,
                VerificationOutcome::Inconclusive => 2u8,
            },
    {
        match self {
            VerificationOutcome::Verified => 0,
            VerificationOutcome::Mismatch => 1,
            VerificationOutcome::Inconclusive => 2,
        }
    }
}

/// Holds a computed hash against an expected one. Both come in lower case;
/// they match where they are the same text.
pub fn compare_hashes(bundle_hash: String, computed_lower: &str, expected_lower: String) -> (r:
    VerificationResult)
    ensures
        r.bundle_hash == bundle_hash,
        r.expected_hash == Some(expected_lower),
        r.matches == (computed_lower@ == expected_lower@),
{
    let matches = str_eq(computed_lower, expected_lower.as_str());
    VerificationResult { bundle_hash, expected_hash: Some(expected_lower), matches }
}

/// Recomputes the hash of a bundle and compares it with the expected one,
/// ignoring case and the whitespace around the expected one.
pub fn verify_bundle_hash(bundle: &EvidenceBundle, expected_hex: &str) -> (r: Result<
    VerificationResult,
    VerifyError,
>)
    ensures
        r is Ok == buckets_ok(bundle@.events),
        r matches Ok(v) ==> {
            &&& v.bundle_hash@ == bundle_hash(bundle@)
            &&& v.expected_hash is Some
            &&& v.expected_hash->0@ == lowercase(trimmed(expected_hex@))
            &&& v.matches == (lowercase(bundle_hash(bundle@)) == lowercase(trimmed(expected_hex@)))
        },
{
    let bundle_hash = match reproducibility_hash(bundle) {
        Ok(h) => h,
        Err(e) => {
            return Err(e);
        },
    };
    let expected = to_lowercase(trim(expected_hex));
    let computed = to_lowercase(bundle_hash.as_str());
    Ok(compare_hashes(bundle_hash, computed.as_str(), expected))
}

/// Recomputes the hash of a bundle and holds it against the expected one,
/// if there is one. Without an expected hash nothing matches and the result
/// is inconclusive.
pub fn verify_against(bundle: &EvidenceBundle, expected_hex: Option<&str>) -> (r: Result<
    VerificationResult,
    VerifyError,
>)
    ensures
        r is Ok == buckets_ok(bundle@.events),
        r matches Ok(v) ==> v.bundle_hash@ == bundle_hash(bundle@),
        r matches Ok(v) ==> match expected_hex {
            Some(expected) => {
                &&& v.expected_hash is Some
                &&& v.expected_hash->0@ == lowercase(trimmed(expected@))
                &&& v.matches == (lowercase(bundle_hash(bundle@)) == lowercase(trimmed(expected@)))
            },
            None => v.expected_hash is None && !v.matches,
        },
{
    match expected_hex {
        Some(expected) => verify_bundle_hash(bundle, expected),
        None => match reproducibility_hash(bundle) {
            Ok(bundle_hash) => Ok(
                VerificationResult { bundle_hash, expected_hash: None, matches: false },
            ),
            Err(e) => Err(e),
        },
    }
}

} // verus!
