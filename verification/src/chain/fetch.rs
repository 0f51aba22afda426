//! The client's side of the upstream API: its settings and errors, the
//! records that come back, and the requests that are made.

use vstd::prelude::*;
use vstd::string::*;
use crate::chain::cache::{content_key, Cache};
use crate::chain::normalize::{
    normalize_slot_time, normalized, outcome, NormalizeError, NormalizeErrorView,
};
use crate::json::{
    compact_text, no_members, put, put_item, to_compact_text, JsonMember, JsonMemberView,
    JsonValue, JsonView,
};
use crate::text::{strip_trailing_slashes, without_trailing_slashes};

verus! {

/// The characters of an optional string.
pub open spec fn opt_text(o: Option<String>) -> Option<Seq<char>> {
    match o {
        Some(s) => Some(s@),
        None => None,
    }
}

/// How the client fetches: where from, how fast, how often again.
#[derive(Clone, Debug)]
pub struct FetchConfig {
    pub base_url: String,
    /// The least time between two requests, in milliseconds.
    pub rate_limit_ms: u64,
    /// How many attempts may follow the first one.
    pub max_retries: u32,
    /// The pause after the first failed attempt, in milliseconds; it doubles
    /// with every further one.
    pub retry_backoff_ms: u64,
    /// Offline, nothing is fetched: what the cache lacks is missing.
    pub offline: bool,
}

impl Default for FetchConfig {
    /// The public Koios endpoint, 200 ms between requests, 3 retries with
    /// pauses from 500 ms on, online.
    fn default() -> (r: FetchConfig)
        ensures
            r.base_url@ == "https://api.koios.rest/api/v1"@,
            r.rate_limit_ms == 200,
            r.max_retries == 3,
            r.retry_backoff_ms == 500,
            !r.offline,
    {
        FetchConfig {
            base_url: String::from_str("https://api.koios.rest/api/v1"),
            rate_limit_ms: 200,
            max_retries: 3,
            retry_backoff_ms: 500,
            offline: false,
        }
    }
}

/// Why a request failed.
#[derive(Clone, Debug)]
pub enum FetchError {
    /// The request did not get through.
    Request(String),
    /// The store behind the cache failed.
    Cache(String),
    /// A slot or time of the request was refused.
    Normalize(NormalizeError),
    /// The upstream source answered with this status and body.
    Api(u16, String),
    /// Offline, and the cache holds no answer.
    OfflineMiss,
}

/// The mathematical value of a [`FetchError`].
pub enum FetchErrorView {
    Request(Seq<char>),
    Cache(Seq<char>),
    Normalize(NormalizeErrorView),
    Api(u16, Seq<char>),
    OfflineMiss,
}

impl View for FetchError {
    type V = FetchErrorView;

    open spec fn view(&self) -> FetchErrorView {
        match *self {
            FetchError::Request(s) => FetchErrorView::Request(s@),
            FetchError::Cache(s) => FetchErrorView::Cache(s@),
            FetchError::Normalize(e) => FetchErrorView::Normalize(e@),
            FetchError::Api(status, body) => FetchErrorView::Api(status, body@),
            FetchError::OfflineMiss => FetchErrorView::OfflineMiss,
        }
    }
}

/// One transaction of an account, as the upstream source lists it.
#[derive(Clone, Debug)]
pub struct KoiosAccountTx {
    pub tx_hash: String,
    pub block_height: Option<u64>,
    pub block_time: Option<i64>,
    pub epoch_no: Option<u64>,
    pub slot_no: Option<u64>,
}

/// The mathematical value of a [`KoiosAccountTx`].
pub struct AccountTxView {
    pub tx_hash: Seq<char>,
    pub block_height: Option<u64>,
    pub block_time: Option<i64>,
    pub epoch_no: Option<u64>,
    pub slot_no: Option<u64>,
}

impl View for KoiosAccountTx {
    type V = AccountTxView;

    open spec fn view(&self) -> AccountTxView {
        AccountTxView {
            tx_hash: self.tx_hash@,
            block_height: self.block_height,
            block_time: self.block_time,
            epoch_no: self.epoch_no,
            slot_no: self.slot_no,
        }
    }
}

/// A native asset carried by a UTXO.
#[derive(Clone, Debug)]
pub struct KoiosAsset {
    pub policy_id: String,
    pub asset_name: String,
    pub quantity: String,
}

/// The mathematical value of a [`KoiosAsset`].
pub struct AssetView {
    pub policy_id: Seq<char>,
    pub asset_name: Seq<char>,
    pub quantity: Seq<char>,
}

impl View for KoiosAsset {
    type V = AssetView;

    open spec fn view(&self) -> AssetView {
        AssetView {
            policy_id: self.policy_id@,
            asset_name: self.asset_name@,
            quantity: self.quantity@,
        }
    }
}

/// An unspent transaction output. `value` is the amount in lovelace, in decimal.
#[derive(Clone, Debug)]
pub struct KoiosUtxo {
    pub tx_hash: String,
    pub tx_index: u32,
    pub value: String,
    pub datum_hash: Option<String>,
    pub asset_list: Option<Vec<KoiosAsset>>,
}

/// The mathematical value of a [`KoiosUtxo`].
pub struct UtxoView {
    pub tx_hash: Seq<char>,
    pub tx_index: u32,
    pub value: Seq<char>,
    pub datum_hash: Option<Seq<char>>,
    pub asset_list: Option<Seq<AssetView>>,
}

impl View for KoiosUtxo {
    type V = UtxoView;

    open spec fn view(&self) -> UtxoView {
        UtxoView {
            tx_hash: self.tx_hash@,
            tx_index: self.tx_index,
            value: self.value@,
            datum_hash: opt_text(self.datum_hash),
            asset_list: match self.asset_list {
                Some(a) => Some(a@.map_values(|x: KoiosAsset| x@)),
                None => None,
            },
        }
    }
}

/// The inputs and outputs of one transaction.
#[derive(Clone, Debug)]
pub struct KoiosTxUtxos {
    pub inputs: Option<Vec<KoiosUtxo>>,
    pub outputs: Option<Vec<KoiosUtxo>>,
}

/// The mathematical value of a [`KoiosTxUtxos`]: a missing list is an empty one.
pub struct TxUtxosView {
    pub inputs: Seq<UtxoView>,
    pub outputs: Seq<UtxoView>,
}

/// The views of a list of UTXOs; a missing list counts as empty.
pub open spec fn utxo_views(list: Option<Vec<KoiosUtxo>>) -> Seq<UtxoView> {
    match list {
        Some(v) => v@.map_values(|u: KoiosUtxo| u@),
        None => Seq::empty(),
    }
}

impl View for KoiosTxUtxos {
    type V = TxUtxosView;

    open spec fn view(&self) -> TxUtxosView {
        TxUtxosView { inputs: utxo_views(self.inputs), outputs: utxo_views(self.outputs) }
    }
}

/// The views of a run of transactions.
pub open spec fn tx_views(txs: Seq<KoiosAccountTx>) -> Seq<AccountTxView> {
    txs.map_values(|t: KoiosAccountTx| t@)
}

/// A UTXO set under the hash of its transaction.
#[derive(Clone, Debug)]
pub struct TxUtxoEntry {
    pub tx_hash: String,
    pub utxos: KoiosTxUtxos,
}

/// The UTXO sets that were fetched, by transaction hash. Where a hash stands
/// twice, the later entry counts.
#[derive(Clone, Debug)]
pub struct TxUtxoTable {
    pub entries: Vec<TxUtxoEntry>,
}

/// What `entries` holds under `tx_hash`.
pub open spec fn lookup_utxos(entries: Seq<TxUtxoEntry>, tx_hash: Seq<char>) -> Option<TxUtxosView>
    decreases entries.len(),
{
    if entries.len() == 0 {
        None
    } else if entries.last().tx_hash@ == tx_hash {
        Some(entries.last().utxos@)
    } else {
        lookup_utxos(entries.drop_last(), tx_hash)
    }
}

impl TxUtxoTable {
    /// A table without entries.
    pub fn new() -> (r: TxUtxoTable)
        ensures
            r.entries@.len() == 0,
    {
        TxUtxoTable { entries: Vec::new() }
    }

    /// Puts `utxos` under `tx_hash`, in place of what stood there.
    pub fn insert(&mut self, tx_hash: String, utxos: KoiosTxUtxos)
        ensures
            final(self).entries@ == old(self).entries@.push(TxUtxoEntry { tx_hash, utxos }),
            lookup_utxos(final(self).entries@, tx_hash@) == Some(utxos@),
            forall|h: Seq<char>|
                h != tx_hash@ ==> lookup_utxos(final(self).entries@, h) == lookup_utxos(
                    old(self).entries@,
                    h,
                ),
    {
        let ghost before = self.entries@;
        self.entries.push(TxUtxoEntry { tx_hash, utxos });
        assert(self.entries@.drop_last() =~= before);
    }

    /// The UTXO set under `tx_hash`, if there is one.
    pub fn get(&self, tx_hash: &str) -> (r: Option<&KoiosTxUtxos>)
        ensures
            match r {
                Some(u) => lookup_utxos(self.entries@, tx_hash@) == Some(u@),
                None => lookup_utxos(self.entries@, tx_hash@) is None,
            },
    {
        let mut i: usize = self.entries.len();
        assert(self.entries@.take(i as int) =~= self.entries@);
        while i > 0
            invariant
                i <= self.entries.len(),
                lookup_utxos(self.entries@, tx_hash@) == lookup_utxos(
                    self.entries@.take(i as int),
                    tx_hash@,
                ),
            decreases i,
        {
            let entry = &self.entries[i - 1];
            assert(self.entries@.take(i as int).last() == self.entries@[i - 1]);
            if crate::text::str_eq(entry.tx_hash.as_str(), tx_hash) {
                return Some(&entry.utxos);
            }
            assert(self.entries@.take(i as int).drop_last() =~= self.entries@.take(i - 1));
            i -= 1;
        }
        None
    }
}

/// The bytes that stand for themselves in a URL: letters, digits, `-`, `.`,
/// `_` and `~`.
pub open spec fn is_unreserved(b: u8) -> bool {
    ||| 0x30 <= b <= 0x39
    ||| 0x41 <= b <= 0x5A
    ||| 0x61 <= b <= 0x7A
    ||| b == 0x2D
    ||| b == 0x2E
    ||| b == 0x5F
    ||| b == 0x7E
}

/// The upper-case hexadecimal digit of a value below 16.
pub open spec fn upper_hex_digit(d: nat) -> char {
    if d < 10 {
        crate::text::digit_char(d)
    } else if d == 10 {
        'A'
    } else if d == 11 {
        'B'
    } else if d == 12 {
        'C'
    } else if d == 13 {
        'D'
    } else if d == 14 {
        'E'
    } else {
        'F'
    }
}

/// The bytes percent-encoded: an unreserved byte as its character, any
/// other as `%` and two upper-case hexadecimal digits.
pub open spec fn percent_encoded(bytes: Seq<u8>) -> Seq<char>
    decreases bytes.len(),
{
    if bytes.len() == 0 {
        Seq::empty()
    } else {
        let b = bytes.last();
        percent_encoded(bytes.drop_last()) + if is_unreserved(b) {
            seq![b as char]
        } else {
            seq!['%', upper_hex_digit((b / 16) as nat), upper_hex_digit((b % 16) as nat)]
        }
    }
}

/// Calls `urlencoding::encode`: every byte of the UTF-8 form of `s` is
/// percent-encoded but letters, digits, `-`, `.`, `_` and `~`.
#[verifier::external_body]
fn url_encode(s: &str) -> (r: String)
    ensures
        r@ == percent_encoded(s.spec_bytes()),
{
    urlencoding::encode(s).into_owned()
}

/// What is asked of the upstream source, and the key under which the answer
/// is cached.
#[derive(Clone, Debug)]
pub struct FetchRequest {
    pub cache_key: String,
    /// The path below the base URL, with its query.
    pub path: String,
    /// The JSON body of a POST; a request without one is a GET.
    pub post_body: Option<String>,
}

/// The mathematical value of a [`FetchRequest`].
pub struct FetchRequestView {
    pub cache_key: Seq<char>,
    pub path: Seq<char>,
    pub post_body: Option<Seq<char>>,
}

impl View for FetchRequest {
    type V = FetchRequestView;

    open spec fn view(&self) -> FetchRequestView {
        FetchRequestView {
            cache_key: self.cache_key@,
            path: self.path@,
            post_body: opt_text(self.post_body),
        }
    }
}

/// The document with the single member `key: value`.
pub open spec fn single(key: Seq<char>, value: JsonView) -> JsonView {
    JsonView::Object(Seq::empty().push(JsonMemberView { key, value }))
}

/// What varies the answer to a listing of transactions: the address and the
/// two ends of the slot range.
pub open spec fn account_txs_document(address: Seq<char>, from: Option<u64>, to: Option<u64>) -> JsonView {
    JsonView::Object(
        Seq::empty().push(JsonMemberView { key: "address"@, value: JsonView::Text(address) }).push(
            JsonMemberView { key: "from"@, value: JsonView::opt_number(from) },
        ).push(JsonMemberView { key: "to"@, value: JsonView::opt_number(to) }),
    )
}

/// The request for the transactions of an address in a slot range.
pub open spec fn account_txs_request(address: Seq<char>, from: Option<u64>, to: Option<u64>) -> FetchRequestView {
    FetchRequestView {
        cache_key: content_key(compact_text(account_txs_document(address, from, to))),
        path: "/account_txs"@,
        post_body: Some(
            compact_text(
                single("_addresses"@, JsonView::Array(Seq::empty().push(JsonView::Text(address)))),
            ),
        ),
    }
}

/// The request for the current UTXOs at an address.
pub open spec fn address_utxos_request(address: Seq<char>) -> FetchRequestView {
    FetchRequestView {
        cache_key: content_key(compact_text(single("address"@, JsonView::Text(address)))),
        path: "/address_utxos?_address="@ + percent_encoded(vstd::utf8::encode_utf8(address)),
        post_body: None,
    }
}

/// The request for the inputs and outputs of a transaction.
pub open spec fn tx_utxos_request(tx_hash: Seq<char>) -> FetchRequestView {
    FetchRequestView {
        cache_key: content_key(compact_text(single("tx_hash"@, JsonView::Text(tx_hash)))),
        path: "/tx_utxos?_tx_hash="@ + percent_encoded(vstd::utf8::encode_utf8(tx_hash)),
        post_body: None,
    }
}

/// The slot that one end of a range names: none where the end is left open,
/// blank or given as a time.
pub open spec fn range_end(input: Option<Seq<char>>) -> Result<Option<u64>, NormalizeErrorView> {
    match input {
        Some(s) => match normalized(s) {
            Ok(pair) => Ok(pair.0),
            Err(e) => Err(e),
        },
        None => Ok(None),
    }
}

/// What the planning of a listing gives: the request, or the error of the
/// first end of the range that is refused.
pub open spec fn account_txs_outcome(
    address: Seq<char>,
    from: Option<Seq<char>>,
    to: Option<Seq<char>>,
) -> Result<FetchRequestView, FetchErrorView> {
    match range_end(from) {
        Err(e) => Err(FetchErrorView::Normalize(e)),
        Ok(f) => match range_end(to) {
            Err(e) => Err(FetchErrorView::Normalize(e)),
            Ok(t) => Ok(account_txs_request(address, f, t)),
        },
    }
}

fn slot_of_end(input: Option<&str>) -> (r: Result<Option<u64>, NormalizeError>)
    ensures
        outcome(r) == range_end(
            match input {
                Some(s) => Some(s@),
                None => None,
            },
        ),
{
    match input {
        Some(s) => match normalize_slot_time(s) {
            Ok(pair) => Ok(pair.0),
            Err(e) => Err(e),
        },
        None => Ok(None),
    }
}

fn single_text(key: &str, value: &str) -> (r: JsonValue)
    ensures
        r@ == single(key@, JsonView::Text(value@)),
{
    let mut m: Vec<JsonMember> = no_members();
    put(&mut m, key, JsonValue::text(value));
    JsonValue::object(m)
}

/// Plans the listing of the transactions of an address. Each end of the
/// range is a slot number, a time or nothing; only a slot number narrows the
/// request.
pub fn plan_account_txs(
    address: &str,
    from_slot_or_time: Option<&str>,
    to_slot_or_time: Option<&str>,
) -> (r: Result<FetchRequest, FetchError>)
    ensures
        match r {
            Ok(request) => Ok(request@),
            Err(e) => Err(e@),
        } == account_txs_outcome(
            address@,
            match from_slot_or_time {
                Some(s) => Some(s@),
                None => None,
            },
            match to_slot_or_time {
                Some(s) => Some(s@),
                None => None,
            },
        ),
{
    let from = match slot_of_end(from_slot_or_time) {
        Ok(slot) => slot,
        Err(e) => {
            return Err(FetchError::Normalize(e));
        },
    };
    let to = match slot_of_end(to_slot_or_time) {
        Ok(slot) => slot,
        Err(e) => {
            return Err(FetchError::Normalize(e));
        },
    };
    let mut m: Vec<JsonMember> = no_members();
    put(&mut m, "address", JsonValue::text(address));
    put(&mut m, "from", JsonValue::opt_number(from));
    put(&mut m, "to", JsonValue::opt_number(to));
    let key_text = to_compact_text(&JsonValue::object(m));
    let mut addresses: Vec<JsonValue> = Vec::new();
    assert(crate::json::item_views(addresses@) =~= Seq::<JsonView>::empty());
    put_item(&mut addresses, JsonValue::text(address));
    let mut body: Vec<JsonMember> = no_members();
    put(&mut body, "_addresses", JsonValue::array(addresses));
    Ok(
        FetchRequest {
            cache_key: Cache::key_for(key_text.as_str()),
            path: String::from_str("/account_txs"),
            post_body: Some(to_compact_text(&JsonValue::object(body))),
        },
    )
}

/// Plans the listing of the current UTXOs at an address.
pub fn plan_address_utxos(address: &str) -> (r: FetchRequest)
    ensures
        r@ == address_utxos_request(address@),
{
    let key_text = to_compact_text(&single_text("address", address));
    let path = String::from_str("/address_utxos?_address=").concat(url_encode(address).as_str());
    FetchRequest { cache_key: Cache::key_for(key_text.as_str()), path, post_body: None }
}

/// Plans the fetching of the inputs and outputs of a transaction.
pub fn plan_tx_utxos(tx_hash: &str) -> (r: FetchRequest)
    ensures
        r@ == tx_utxos_request(tx_hash@),
{
    let key_text = to_compact_text(&single_text("tx_hash", tx_hash));
    let path = String::from_str("/tx_utxos?_tx_hash=").concat(url_encode(tx_hash).as_str());
    FetchRequest { cache_key: Cache::key_for(key_text.as_str()), path, post_body: None }
}

/// The URL of a request: the base URL without the slashes at its end, then
/// the path.
pub fn request_url(config: &FetchConfig, path: &str) -> (r: String)
    ensures
        r@ == without_trailing_slashes(config.base_url@) + path@,
{
    String::from_str(strip_trailing_slashes(config.base_url.as_str())).concat(path)
}

/// What a list-shaped answer counts as: the list that was read from it, or
/// the empty list where it could not be read.
pub fn list_or_empty<T>(parsed: Option<Vec<T>>) -> (r: Vec<T>)
    ensures
        match parsed {
            Some(v) => r == v,
            None => r@.len() == 0,
        },
{
    match parsed {
        Some(v) => v,
        None => Vec::new(),
    }
}

/// What an object-shaped answer counts as: the object that was read from it,
/// or a parse error with the reason where it could not be read.
pub fn object_or_parse_error<T>(parsed: Result<T, String>) -> (r: Result<T, FetchError>)
    ensures
        match parsed {
            Ok(v) => r == Ok::<T, FetchError>(v),
            Err(reason) => r is Err && r->Err_0@ == FetchErrorView::Api(
                0,
                "parse tx_utxos: "@ + reason@,
            ),
        },
{
    match parsed {
        Ok(v) => Ok(v),
        Err(reason) => Err(
            FetchError::Api(0, String::from_str("parse tx_utxos: ").concat(reason.as_str())),
        ),
    }
}

impl FetchError {
    /// The error in words.
    pub fn message(&self) -> (r: String)
        ensures
            r@ == match self@ {
                FetchErrorView::Request(s) => "request: "@ + s,
                FetchErrorView::Cache(s) => "cache: "@ + s,
                FetchErrorView::Normalize(NormalizeErrorView::InvalidSlot(s)) => "normalize: "@
                    + ("invalid slot: "@ + s),
                FetchErrorView::Normalize(NormalizeErrorView::InvalidTime(s)) => "normalize: "@
                    + ("invalid time: "@ + s),
                FetchErrorView::Api(status, body) => "api error: status "@
                    + crate::text::decimal_text(status as nat) + " body "@ + body,
                FetchErrorView::OfflineMiss => "offline mode: no cached data for key"@,
            },
    {
        match self {
            FetchError::Request(s) => String::from_str("request: ").concat(s.as_str()),
            FetchError::Cache(s) => String::from_str("cache: ").concat(s.as_str()),
            FetchError::Normalize(e) => String::from_str("normalize: ").concat(
                e.message().as_str(),
            ),
            FetchError::Api(status, body) => {
                let mut out = String::from_str("api error: status ");
                crate::text::push_decimal(&mut out, *status as u64);
                out.append(" body ");
                out.append(body.as_str());
                out
            },
            FetchError::OfflineMiss => String::from_str("offline mode: no cached data for key"),
        }
    }
}

} // verus!
