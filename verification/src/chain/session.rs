//! The course of one request: cache first, then the rate gate, the attempts
//! and the pauses between them, and the storing of what was fetched.
//!
//! Nothing here reads a clock, sleeps or talks to the network. [`step`] takes
//! what has just happened and says what is to be done next; the caller does it
//! and comes back with the outcome.

use vstd::prelude::*;
use vstd::string::*;
use crate::chain::fetch::{FetchConfig, FetchError, FetchErrorView};

verus! {

/// `base` doubled `times` times: `base × 2^times`.
pub open spec fn doubled(base: nat, times: nat) -> nat
    decreases times,
{
    if times == 0 {
        base
    } else {
        2 * doubled(base, (times - 1) as nat)
    }
}

/// The pause after the failed attempt number `attempt` (the first attempt is
/// number 0), in milliseconds: `base_ms × 2^attempt`, held at `u64::MAX`.
pub open spec fn backoff_ms(base_ms: u64, attempt: u32) -> u64 {
    if doubled(base_ms as nat, attempt as nat) > u64::MAX {
        u64::MAX
    } else {
        doubled(base_ms as nat, attempt as nat) as u64
    }
}

proof fn lemma_doubled_monotone(base: nat, i: nat, j: nat)
    requires
        i <= j,
    ensures
        doubled(base, i) <= doubled(base, j),
    decreases j,
{
    if i < j {
        lemma_doubled_monotone(base, i, (j - 1) as nat);
    }
}

proof fn lemma_doubled_zero(times: nat)
    ensures
        doubled(0, times) == 0,
    decreases times,
{
    if times > 0 {
        lemma_doubled_zero((times - 1) as nat);
    }
}

/// The pause after the failed attempt number `attempt`, in milliseconds.
pub fn backoff_delay(base_ms: u64, attempt: u32) -> (r: u64)
    ensures
        r == backoff_ms(base_ms, attempt),
{
    let mut delay: u64 = base_ms;
    let mut i: u32 = 0;
    while i < attempt && delay != 0 && delay != u64::MAX
        invariant
            i <= attempt,
            delay == backoff_ms(base_ms, i),
        decreases attempt - i,
    {
        delay = if delay > u64::MAX / 2 {
            u64::MAX
        } else {
            delay * 2
        };
        i += 1;
    }
    proof {
        if i < attempt {
            lemma_doubled_monotone(base_ms as nat, i as nat, attempt as nat);
            if delay == 0 {
                lemma_doubled_zero(attempt as nat);
                lemma_doubled_zero(i as nat);
                if base_ms != 0 {
                    lemma_doubled_monotone(base_ms as nat, 0, i as nat);
                }
            }
        }
    }
    delay
}

/// How long to wait before the first attempt, in milliseconds, so that at
/// least `rate_limit_ms` lie between two requests of one client.
///
/// `elapsed_ms` is the time since the last request of this client, `None`
/// where there was none. The wait is what is missing to `rate_limit_ms`, held
/// at `u64::MAX`; it is 0 where enough time has passed or nothing was sent yet.
pub open spec fn rate_limit_wait(rate_limit_ms: u64, elapsed_ms: Option<i128>) -> u64 {
    match elapsed_ms {
        Some(e) => if e < rate_limit_ms {
            if rate_limit_ms - e > u64::MAX {
                u64::MAX
            } else {
                (rate_limit_ms - e) as u64
            }
        } else {
            0
        },
        None => 0,
    }
}

/// How long to wait before the first attempt, in milliseconds.
pub fn rate_limit_delay(rate_limit_ms: u64, elapsed_ms: Option<i128>) -> (r: u64)
    ensures
        r == rate_limit_wait(rate_limit_ms, elapsed_ms),
{
    match elapsed_ms {
        Some(e) => {
            if e >= rate_limit_ms as i128 {
                0
            } else if e >= 0 {
                (rate_limit_ms as i128 - e) as u64
            } else if e < -(u64::MAX as i128) {
                u64::MAX
            } else {
                rate_limit_ms.saturating_add((-e) as u64)
            }
        },
        None => 0,
    }
}

/// Where a request stands.
#[derive(Clone, Debug, PartialEq, Eq)]
pub enum FetchState {
    /// Nothing has been done yet.
    Start,
    /// The cache has been asked.
    AwaitingCache,
    /// The clock has been asked how long ago the last request was sent.
    AwaitingClock,
    /// The client waits for the rate gate to open.
    Gated,
    /// The attempt with this number is under way.
    InFlight { attempt: u32 },
    /// The attempt with this number failed; the client pauses.
    BackingOff { attempt: u32 },
    /// This body was fetched and is being put into the cache.
    Storing { body: String },
    /// The request is answered.
    Done,
}

/// The mathematical value of a [`FetchState`].
pub enum FetchStateView {
    Start,
    AwaitingCache,
    AwaitingClock,
    Gated,
    InFlight { attempt: u32 },
    BackingOff { attempt: u32 },
    Storing { body: Seq<char> },
    Done,
}

impl View for FetchState {
    type V = FetchStateView;

    open spec fn view(&self) -> FetchStateView {
        match *self {
            FetchState::Start => FetchStateView::Start,
            FetchState::AwaitingCache => FetchStateView::AwaitingCache,
            FetchState::AwaitingClock => FetchStateView::AwaitingClock,
            FetchState::Gated => FetchStateView::Gated,
            FetchState::InFlight { attempt } => FetchStateView::InFlight { attempt },
            FetchState::BackingOff { attempt } => FetchStateView::BackingOff { attempt },
            FetchState::Storing { body } => FetchStateView::Storing { body: body@ },
            FetchState::Done => FetchStateView::Done,
        }
    }
}

/// What has just happened.
#[derive(Clone, Debug)]
pub enum FetchEvent {
    /// The request comes in.
    Begin,
    /// The cache holds this body under the key of the request.
    CacheHit(String),
    /// The cache holds nothing under the key of the request.
    CacheMiss,
    /// The store behind the cache failed at the lookup.
    CacheFailed(String),
    /// The body is in the cache under the key of the request.
    Stored,
    /// The store behind the cache failed to take the body.
    StoreFailed(String),
    /// The time since the last request of this client, in milliseconds.
    Clock { elapsed_ms: Option<i128> },
    /// The wait is over.
    Slept,
    /// The upstream source answered.
    Response { status: u16, body: String },
    /// The request did not get through.
    TransportFailed(String),
}

/// The mathematical value of a [`FetchEvent`].
pub enum FetchEventView {
    Begin,
    CacheHit(Seq<char>),
    CacheMiss,
    CacheFailed(Seq<char>),
    Stored,
    StoreFailed(Seq<char>),
    Clock { elapsed_ms: Option<i128> },
    Slept,
    Response { status: u16, body: Seq<char> },
    TransportFailed(Seq<char>),
}

impl View for FetchEvent {
    type V = FetchEventView;

    open spec fn view(&self) -> FetchEventView {
        match *self {
            FetchEvent::Begin => FetchEventView::Begin,
            FetchEvent::CacheHit(s) => FetchEventView::CacheHit(s@),
            FetchEvent::CacheMiss => FetchEventView::CacheMiss,
            FetchEvent::CacheFailed(s) => FetchEventView::CacheFailed(s@),
            FetchEvent::Stored => FetchEventView::Stored,
            FetchEvent::StoreFailed(s) => FetchEventView::StoreFailed(s@),
            FetchEvent::Clock { elapsed_ms } => FetchEventView::Clock { elapsed_ms },
            FetchEvent::Slept => FetchEventView::Slept,
            FetchEvent::Response { status, body } => FetchEventView::Response {
                status,
                body: body@,
            },
            FetchEvent::TransportFailed(s) => FetchEventView::TransportFailed(s@),
        }
    }
}

/// What is to be done next.
#[derive(Clone, Debug)]
pub enum FetchAction {
    /// Ask the cache for the key of the request.
    LookupCache,
    /// Ask the clock how long ago the last request of this client was sent.
    ReadClock,
    /// Wait this many milliseconds.
    Sleep { ms: u64 },
    /// Send the request. With attempt 0 the rate-limit clock starts anew.
    Send { attempt: u32 },
    /// Put `body`, which was fetched, into the cache under the key of the
    /// request, and say whether that went well.
    Store { body: String },
    /// Hand `body` to the caller. Where `from_network` is set it was fetched,
    /// and is in the cache where the client has one: count the request.
    Deliver { body: String, from_network: bool },
    /// Hand this error to the caller.
    Fail(FetchError),
}

/// The mathematical value of a [`FetchAction`].
pub enum FetchActionView {
    LookupCache,
    ReadClock,
    Sleep { ms: u64 },
    Send { attempt: u32 },
    Store { body: Seq<char> },
    Deliver { body: Seq<char>, from_network: bool },
    Fail(FetchErrorView),
}

impl View for FetchAction {
    type V = FetchActionView;

    open spec fn view(&self) -> FetchActionView {
        match *self {
            FetchAction::LookupCache => FetchActionView::LookupCache,
            FetchAction::ReadClock => FetchActionView::ReadClock,
            FetchAction::Sleep { ms } => FetchActionView::Sleep { ms },
            FetchAction::Send { attempt } => FetchActionView::Send { attempt },
            FetchAction::Store { body } => FetchActionView::Store { body: body@ },
            FetchAction::Deliver { body, from_network } => FetchActionView::Deliver {
                body: body@,
                from_network,
            },
            FetchAction::Fail(e) => FetchActionView::Fail(e@),
        }
    }
}

/// Whether a status is one of success: 200 to 299.
pub open spec fn is_success(status: u16) -> bool {
    200 <= status < 300
}

/// What follows a cache miss, or a request without a cache: offline the
/// request fails, else the clock is asked.
pub open spec fn after_miss(p: FetchConfig) -> (FetchStateView, FetchActionView) {
    if p.offline {
        (FetchStateView::Done, FetchActionView::Fail(FetchErrorView::OfflineMiss))
    } else {
        (FetchStateView::AwaitingClock, FetchActionView::ReadClock)
    }
}

/// What follows a failed attempt: a pause and another attempt while retries
/// are left, else the error of this attempt.
pub open spec fn after_failure(p: FetchConfig, attempt: u32, error: FetchErrorView) -> (
    FetchStateView,
    FetchActionView,
) {
    if attempt < p.max_retries {
        (
            FetchStateView::BackingOff { attempt },
            FetchActionView::Sleep { ms: backoff_ms(p.retry_backoff_ms, attempt) },
        )
    } else {
        (FetchStateView::Done, FetchActionView::Fail(error))
    }
}

/// What follows an answer of success: with a cache the body is stored first,
/// without one it is handed over at once.
pub open spec fn after_success(has_cache: bool, body: Seq<char>) -> (
    FetchStateView,
    FetchActionView,
) {
    if has_cache {
        (FetchStateView::Storing { body }, FetchActionView::Store { body })
    } else {
        (FetchStateView::Done, FetchActionView::Deliver { body, from_network: true })
    }
}

/// The error for an event that the state does not wait for.
pub open spec fn out_of_turn() -> (FetchStateView, FetchActionView) {
    (FetchStateView::Done, FetchActionView::Fail(FetchErrorView::Api(0, "unknown"@)))
}

/// The next state and what is to be done, for every state and event.
pub open spec fn transition(
    p: FetchConfig,
    has_cache: bool,
    state: FetchStateView,
    event: FetchEventView,
) -> (FetchStateView, FetchActionView) {
    match (state, event) {
        (FetchStateView::Start, FetchEventView::Begin) => if has_cache {
            (FetchStateView::AwaitingCache, FetchActionView::LookupCache)
        } else {
            after_miss(p)
        },
        (FetchStateView::AwaitingCache, FetchEventView::CacheHit(body)) => (
            FetchStateView::Done,
            FetchActionView::Deliver { body, from_network: false },
        ),
        (FetchStateView::AwaitingCache, FetchEventView::CacheMiss) => after_miss(p),
        (FetchStateView::AwaitingCache, FetchEventView::CacheFailed(message)) => (
            FetchStateView::Done,
            FetchActionView::Fail(FetchErrorView::Cache(message)),
        ),
        (FetchStateView::AwaitingClock, FetchEventView::Clock { elapsed_ms }) => if rate_limit_wait(
            p.rate_limit_ms,
            elapsed_ms,
        ) > 0 {
            (
                FetchStateView::Gated,
                FetchActionView::Sleep { ms: rate_limit_wait(p.rate_limit_ms, elapsed_ms) },
            )
        } else {
            (FetchStateView::InFlight { attempt: 0 }, FetchActionView::Send { attempt: 0 })
        },
        (FetchStateView::Gated, FetchEventView::Slept) => (
            FetchStateView::InFlight { attempt: 0 },
            FetchActionView::Send { attempt: 0 },
        ),
        (FetchStateView::InFlight { attempt }, FetchEventView::Response { status, body }) => {
            if is_success(status) {
                after_success(has_cache, body)
            } else {
                after_failure(p, attempt, FetchErrorView::Api(status, body))
            }
        },
        (FetchStateView::InFlight { attempt }, FetchEventView::TransportFailed(message)) => {
            after_failure(p, attempt, FetchErrorView::Request(message))
        },
        (FetchStateView::BackingOff { attempt }, FetchEventView::Slept) => if attempt < u32::MAX {
            (
                FetchStateView::InFlight { attempt: (attempt + 1) as u32 },
                FetchActionView::Send { attempt: (attempt + 1) as u32 },
            )
        } else {
            out_of_turn()
        },
        (FetchStateView::Storing { body }, FetchEventView::Stored) => (
            FetchStateView::Done,
            FetchActionView::Deliver { body, from_network: true },
        ),
        (FetchStateView::Storing { body }, FetchEventView::StoreFailed(message)) => (
            FetchStateView::Done,
            FetchActionView::Fail(FetchErrorView::Cache(message)),
        ),
        _ => out_of_turn(),
    }
}

fn on_miss(p: &FetchConfig) -> (r: (FetchState, FetchAction))
    ensures
        (r.0@, r.1@) == after_miss(*p),
{
    if p.offline {
        (FetchState::Done, FetchAction::Fail(FetchError::OfflineMiss))
    } else {
        (FetchState::AwaitingClock, FetchAction::ReadClock)
    }
}

fn on_failure(p: &FetchConfig, attempt: u32, error: FetchError) -> (r: (FetchState, FetchAction))
    ensures
        (r.0@, r.1@) == after_failure(*p, attempt, error@),
{
    if attempt < p.max_retries {
        (
            FetchState::BackingOff { attempt },
            FetchAction::Sleep { ms: backoff_delay(p.retry_backoff_ms, attempt) },
        )
    } else {
        (FetchState::Done, FetchAction::Fail(error))
    }
}

fn on_out_of_turn() -> (r: (FetchState, FetchAction))
    ensures
        (r.0@, r.1@) == out_of_turn(),
{
    (FetchState::Done, FetchAction::Fail(FetchError::Api(0, String::from_str("unknown"))))
}

/// Decides what is to be done next.
///
/// A request begins with `Start` and `Begin` and is over with `Done`, which
/// comes with `Deliver` or `Fail`. After any other action the caller does
/// what it says and calls again with what happened. `has_cache` says whether
/// the client has a cache at all. With a cache, a fetched body is stored
/// before it is delivered, and a store that fails fails the request.
pub fn step(p: &FetchConfig, has_cache: bool, state: FetchState, event: FetchEvent) -> (r: (
    FetchState,
    FetchAction,
))
    ensures
        (r.0@, r.1@) == transition(*p, has_cache, state@, event@),
{
    match state {
        FetchState::Start => match event {
            FetchEvent::Begin => if has_cache {
                (FetchState::AwaitingCache, FetchAction::LookupCache)
            } else {
                on_miss(p)
            },
            _ => on_out_of_turn(),
        },
        FetchState::AwaitingCache => match event {
            FetchEvent::CacheHit(body) => (
                FetchState::Done,
                FetchAction::Deliver { body, from_network: false },
            ),
            FetchEvent::CacheMiss => on_miss(p),
            FetchEvent::CacheFailed(message) => (
                FetchState::Done,
                FetchAction::Fail(FetchError::Cache(message)),
            ),
            _ => on_out_of_turn(),
        },
        FetchState::AwaitingClock => match event {
            FetchEvent::Clock { elapsed_ms } => {
                let wait = rate_limit_delay(p.rate_limit_ms, elapsed_ms);
                if wait > 0 {
                    (FetchState::Gated, FetchAction::Sleep { ms: wait })
                } else {
                    (FetchState::InFlight { attempt: 0 }, FetchAction::Send { attempt: 0 })
                }
            },
            _ => on_out_of_turn(),
        },
        FetchState::Gated => match event {
            FetchEvent::Slept => (
                FetchState::InFlight { attempt: 0 },
                FetchAction::Send { attempt: 0 },
            ),
            _ => on_out_of_turn(),
        },
        FetchState::InFlight { attempt } => match event {
            FetchEvent::Response { status, body } => {
                if 200 <= status && status < 300 {
                    if has_cache {
                        let stored = body.clone();
                        (FetchState::Storing { body }, FetchAction::Store { body: stored })
                    } else {
                        (FetchState::Done, FetchAction::Deliver { body, from_network: true })
                    }
                } else {
                    on_failure(p, attempt, FetchError::Api(status, body))
                }
            },
            FetchEvent::TransportFailed(message) => on_failure(
                p,
                attempt,
                FetchError::Request(message),
            ),
            _ => on_out_of_turn(),
        },
        FetchState::BackingOff { attempt } => match event {
            FetchEvent::Slept => if attempt < u32::MAX {
                (
                    FetchState::InFlight { attempt: attempt + 1 },
                    FetchAction::Send { attempt: attempt + 1 },
                )
            } else {
                on_out_of_turn()
            },
            _ => on_out_of_turn(),
        },
        FetchState::Storing { body } => match event {
            FetchEvent::Stored => (
                FetchState::Done,
                FetchAction::Deliver { body, from_network: true },
            ),
            FetchEvent::StoreFailed(message) => (
                FetchState::Done,
                FetchAction::Fail(FetchError::Cache(message)),
            ),
            _ => on_out_of_turn(),
        },
        FetchState::Done => on_out_of_turn(),
    }
}

/// Where a request stands after a run of events from the start, and what
/// was to be done after each of them.
pub open spec fn course(p: FetchConfig, has_cache: bool, events: Seq<FetchEventView>) -> (
    FetchStateView,
    Seq<FetchActionView>,
)
    decreases events.len(),
{
    if events.len() == 0 {
        (FetchStateView::Start, Seq::empty())
    } else {
        let before = course(p, has_cache, events.drop_last());
        let next = transition(p, has_cache, before.0, events.last());
        (next.0, before.1.push(next.1))
    }
}

/// How many of the actions are to send the request.
pub open spec fn sends(actions: Seq<FetchActionView>) -> nat
    decreases actions.len(),
{
    if actions.len() == 0 {
        0
    } else {
        sends(actions.drop_last()) + if actions.last() is Send {
            1nat
        } else {
            0nat
        }
    }
}

/// Whether the state fits the number of requests sent so far: none before
/// the first attempt, one more than the number of the attempt under way or
/// just failed, and never more than the retries allow.
pub open spec fn in_step(p: FetchConfig, state: FetchStateView, sent: nat) -> bool {
    match state {
        FetchStateView::InFlight { attempt } => sent == attempt + 1 && attempt <= p.max_retries,
        FetchStateView::BackingOff { attempt } => sent == attempt + 1 && attempt < p.max_retries,
        FetchStateView::Storing { .. } => 1 <= sent <= p.max_retries + 1,
        FetchStateView::Done => sent <= p.max_retries + 1,
        _ => sent == 0,
    }
}

/// A request is sent at most once more than it may be retried, whatever
/// happens.
pub proof fn lemma_sends_are_bounded(p: FetchConfig, has_cache: bool, events: Seq<FetchEventView>)
    ensures
        in_step(p, course(p, has_cache, events).0, sends(course(p, has_cache, events).1)),
        sends(course(p, has_cache, events).1) <= p.max_retries + 1,
    decreases events.len(),
{
    if events.len() > 0 {
        lemma_sends_are_bounded(p, has_cache, events.drop_last());
        let before = course(p, has_cache, events.drop_last());
        let next = transition(p, has_cache, before.0, events.last());
        assert(course(p, has_cache, events).1.drop_last() =~= before.1);
    }
}

/// Offline, a request never reaches the network: whatever happens, no action
/// is to send, to wait or to read the clock, and the request stands at the
/// start, at the cache or at its end.
pub proof fn lemma_offline_never_sends(p: FetchConfig, has_cache: bool, events: Seq<FetchEventView>)
    requires
        p.offline,
    ensures
        course(p, has_cache, events).0 is Start || course(p, has_cache, events).0 is AwaitingCache
            || course(p, has_cache, events).0 is Done,
        forall|i: int|
            0 <= i < course(p, has_cache, events).1.len() ==> {
                let a = #[trigger] course(p, has_cache, events).1[i];
                a is LookupCache || a is Deliver || a is Fail
            },
        forall|i: int|
            0 <= i < course(p, has_cache, events).1.len() ==> (#[trigger] course(
                p,
                has_cache,
                events,
            ).1[i] matches FetchActionView::Deliver { from_network, .. } ==> !from_network),
    decreases events.len(),
{
    if events.len() > 0 {
        lemma_offline_never_sends(p, has_cache, events.drop_last());
        let before = course(p, has_cache, events.drop_last());
        let all = course(p, has_cache, events).1;
        assert forall|i: int| 0 <= i < all.len() implies {
            let a = #[trigger] all[i];
            a is LookupCache || a is Deliver || a is Fail
        } by {
            if i < before.1.len() {
                assert(all[i] == before.1[i]);
            }
        }
        assert forall|i: int| 0 <= i < all.len() implies (#[trigger] all[i] matches FetchActionView::Deliver {
            from_network,
            ..
        } ==> !from_network) by {
            if i < before.1.len() {
                assert(all[i] == before.1[i]);
            }
        }
    }
}

/// Offline with an empty cache, a request fails with the offline miss: at
/// once where the client has no cache, else as soon as the cache has
/// answered that it holds nothing.
pub proof fn lemma_offline_miss(p: FetchConfig, has_cache: bool)
    requires
        p.offline,
    ensures
        !has_cache ==> course(p, has_cache, seq![FetchEventView::Begin]) == (
            FetchStateView::Done,
            seq![FetchActionView::Fail(FetchErrorView::OfflineMiss)],
        ),
        has_cache ==> course(p, has_cache, seq![FetchEventView::Begin, FetchEventView::CacheMiss])
            == (
            FetchStateView::Done,
            seq![FetchActionView::LookupCache, FetchActionView::Fail(FetchErrorView::OfflineMiss)],
        ),
{
    let one = seq![FetchEventView::Begin];
    let two = seq![FetchEventView::Begin, FetchEventView::CacheMiss];
    assert(one.drop_last() =~= Seq::<FetchEventView>::empty());
    assert(two.drop_last() =~= one);
    reveal_with_fuel(course, 3);
    assert(course(p, has_cache, one).1 =~= seq![transition(
        p,
        has_cache,
        FetchStateView::Start,
        FetchEventView::Begin,
    ).1]);
    if has_cache {
        assert(course(p, has_cache, two).1 =~= seq![
            FetchActionView::LookupCache,
            FetchActionView::Fail(FetchErrorView::OfflineMiss),
        ]);
    }
}

/// With a cache, nothing fetched is delivered that was not stored first: the
/// action before the delivery of a fetched body is the storing of that body,
/// and a store that fails ends the request with the failure of the cache.
pub proof fn lemma_fetched_is_stored_first(p: FetchConfig, events: Seq<FetchEventView>)
    ensures
        course(p, true, events).0 matches FetchStateView::Storing { body } ==> course(
            p,
            true,
            events,
        ).1.len() > 0 && course(p, true, events).1.last() == (FetchActionView::Store { body }),
        forall|i: int|
            0 <= i < course(p, true, events).1.len() ==> (#[trigger] course(p, true, events).1[i]
                matches FetchActionView::Deliver { body, from_network } ==> from_network ==> i > 0
                && course(p, true, events).1[i - 1] == (FetchActionView::Store { body })),
    decreases events.len(),
{
    if events.len() > 0 {
        lemma_fetched_is_stored_first(p, events.drop_last());
        let before = course(p, true, events.drop_last());
        let all = course(p, true, events).1;
        assert forall|i: int| 0 <= i < all.len() implies (#[trigger] all[i] matches FetchActionView::Deliver {
            body,
            from_network,
        } ==> from_network ==> i > 0 && all[i - 1] == (FetchActionView::Store { body })) by {
            if i < before.1.len() {
                assert(all[i] == before.1[i]);
                if i > 0 {
                    assert(all[i - 1] == before.1[i - 1]);
                }
            } else if before.1.len() > 0 {
                assert(all[i - 1] == before.1.last());
            }
        }
    }
}

/// A store that fails is surfaced: the request ends with the failure of the
/// cache and the reason that the store gave.
pub proof fn lemma_failed_store_is_surfaced(
    p: FetchConfig,
    has_cache: bool,
    body: Seq<char>,
    reason: Seq<char>,
)
    ensures
        transition(
            p,
            has_cache,
            FetchStateView::Storing { body },
            FetchEventView::StoreFailed(reason),
        ) == (FetchStateView::Done, FetchActionView::Fail(FetchErrorView::Cache(reason))),
{
}

} // verus!
