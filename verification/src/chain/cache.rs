//! The content-addressed cache: responses are kept under a hash of the
//! request that they answer.

use vstd::prelude::*;
use vstd::string::*;
use vstd::utf8::{decode_utf8, encode_utf8, valid_utf8};
use crate::indigo::events::current_time;
use crate::text::{hex_digit, str_eq};

verus! {

/// The SHA-256 digest of a byte string, as the `sha2` crate computes it.
pub uninterp spec fn sha256(data: Seq<u8>) -> Seq<u8>;

/// Calls `sha2::Sha256`: a new hasher, `update` with `data`, `finalize`. The
/// result is the digest of `data`, which has 32 bytes.
#[verifier::external_body]
fn sha256_digest(data: &[u8]) -> (r: Vec<u8>)
    ensures
        r@ == sha256(data@),
        r@.len() == 32,
{
    let mut hasher = <sha2::Sha256 as sha2::Digest>::new();
    sha2::Digest::update(&mut hasher, data);
    sha2::Digest::finalize(hasher).to_vec()
}

/// The bytes written in hexadecimal, two lower-case digits each, the high
/// half first.
pub open spec fn hex_lower(data: Seq<u8>) -> Seq<char>
    decreases data.len(),
{
    if data.len() == 0 {
        Seq::empty()
    } else {
        hex_lower(data.drop_last()) + seq![
            hex_digit((data.last() / 16) as nat),
            hex_digit((data.last() % 16) as nat),
        ]
    }
}

/// Calls `hex::encode`: every byte becomes two lower-case hexadecimal digits.
#[verifier::external_body]
fn hex_encode(data: &[u8]) -> (r: String)
    ensures
        r@ == hex_lower(data@),
{
    hex::encode(data)
}

/// Whether `c` is one of `0` to `9`, `a` to `f`.
pub open spec fn is_lower_hex(c: char) -> bool {
    ('0' <= c <= '9') || ('a' <= c <= 'f')
}

/// Hexadecimal text has two characters for each byte, all of them lower-case
/// hexadecimal digits.
pub proof fn lemma_hex_lower_shape(data: Seq<u8>)
    ensures
        hex_lower(data).len() == 2 * data.len(),
        forall|i: int| 0 <= i < hex_lower(data).len() ==> is_lower_hex(#[trigger] hex_lower(data)[i]),
    decreases data.len(),
{
    if data.len() > 0 {
        lemma_hex_lower_shape(data.drop_last());
        let head = hex_lower(data.drop_last());
        let hi = hex_digit((data.last() / 16) as nat);
        let lo = hex_digit((data.last() % 16) as nat);
        assert(is_lower_hex(hi) && is_lower_hex(lo));
        assert forall|i: int| 0 <= i < hex_lower(data).len() implies is_lower_hex(
            #[trigger] hex_lower(data)[i],
        ) by {
            if i < head.len() {
                assert(hex_lower(data)[i] == head[i]);
            }
        }
    }
}

/// The key of a request: the SHA-256 digest of its UTF-8 bytes, in
/// hexadecimal.
pub open spec fn content_key(content: Seq<char>) -> Seq<char> {
    hex_lower(sha256(encode_utf8(content)))
}

/// The text that a byte string holds, if it is valid UTF-8.
pub open spec fn utf8_text(bytes: Seq<u8>) -> Option<Seq<char>> {
    if valid_utf8(bytes) {
        Some(decode_utf8(bytes))
    } else {
        None
    }
}

/// Calls `String::from_utf8`: the text of the bytes, `None` where they are
/// not valid UTF-8.
#[verifier::external_body]
fn text_of_bytes(bytes: Vec<u8>) -> (r: Option<String>)
    ensures
        r is Some == utf8_text(bytes@) is Some,
        r is Some ==> r->0@ == utf8_text(bytes@)->0,
{
    match String::from_utf8(bytes) {
        Ok(s) => Some(s),
        Err(_) => None,
    }
}

/// Why the store behind a cache failed.
#[derive(Clone, Debug)]
pub enum CacheError {
    Sqlite(String),
    Io(String),
}

impl CacheError {
    /// The error in words.
    pub fn message(&self) -> (r: String)
        ensures
            r@ == match *self {
                CacheError::Sqlite(s) => "sqlite: "@ + s@,
                CacheError::Io(s) => "io: "@ + s@,
            },
    {
        match self {
            CacheError::Sqlite(s) => String::from_str("sqlite: ").concat(s.as_str()),
            CacheError::Io(s) => String::from_str("io: ").concat(s.as_str()),
        }
    }
}

/// One cached value, with the Unix time at which it was written.
#[derive(Clone, Debug)]
pub struct CacheEntry {
    pub key: String,
    pub value: Vec<u8>,
    pub created_utc: i64,
}

/// A cache held in memory: a store from key to bytes in which a later write
/// under a key replaces the earlier one.
#[derive(Clone, Debug)]
pub struct Cache {
    entries: Vec<CacheEntry>,
}

/// The entry that counts under `key`: the last one written.
pub open spec fn last_entry(entries: Seq<CacheEntry>, key: Seq<char>) -> Option<CacheEntry>
    decreases entries.len(),
{
    if entries.len() == 0 {
        None
    } else if entries.last().key@ == key {
        Some(entries.last())
    } else {
        last_entry(entries.drop_last(), key)
    }
}

impl Cache {
    /// What the cache holds: every key that was written, with its last value.
    pub closed spec fn contents(&self) -> Map<Seq<char>, Seq<u8>> {
        Map::new(
            |k: Seq<char>| last_entry(self.entries@, k) is Some,
            |k: Seq<char>| last_entry(self.entries@, k)->0.value@,
        )
    }

    /// When the value under `key` was written, in Unix seconds.
    pub closed spec fn created(&self, key: Seq<char>) -> Option<i64> {
        match last_entry(self.entries@, key) {
            Some(e) => Some(e.created_utc),
            None => None,
        }
    }

    /// An empty cache: it holds no value, and no key has a time of writing.
    pub fn new() -> (r: Cache)
        ensures
            r.contents() == Map::<Seq<char>, Seq<u8>>::empty(),
            forall|key: Seq<char>| (#[trigger] r.created(key)) is None,
    {
        let r = Cache { entries: Vec::new() };
        assert(r.contents() =~= Map::<Seq<char>, Seq<u8>>::empty());
        r
    }

    /// The key of a normalised request: the SHA-256 digest of its UTF-8
    /// bytes in lower-case hexadecimal, 64 characters. Equal requests have
    /// equal keys.
    pub fn key_for(content: &str) -> (key: String)
        ensures
            key@ == content_key(content@),
            key@.len() == 64,
            forall|i: int| 0 <= i < 64 ==> is_lower_hex(#[trigger] key@[i]),
    {
        let digest = sha256_digest(content.as_bytes());
        proof {
            lemma_hex_lower_shape(digest@);
        }
        hex_encode(digest.as_slice())
    }

    /// The value under `key`, if there is one.
    pub fn get(&self, key: &str) -> (r: Result<Option<Vec<u8>>, CacheError>)
        ensures
            r is Ok,
            match r->Ok_0 {
                Some(v) => self.contents().contains_key(key@) && self.contents()[key@] == v@,
                None => !self.contents().contains_key(key@),
            },
    {
        let mut i: usize = self.entries.len();
        assert(self.entries@.take(i as int) =~= self.entries@);
        while i > 0
            invariant
                i <= self.entries.len(),
                last_entry(self.entries@, key@) == last_entry(self.entries@.take(i as int), key@),
            decreases i,
        {
            let entry = &self.entries[i - 1];
            assert(self.entries@.take(i as int).last() == self.entries@[i - 1]);
            if str_eq(entry.key.as_str(), key) {
                return Ok(Some(entry.value.clone()));
            }
            assert(self.entries@.take(i as int).drop_last() =~= self.entries@.take(i - 1));
            i -= 1;
        }
        Ok(None)
    }

    /// Puts `value` under `key` with the time of writing `created_utc`, in
    /// place of what stood there. Other keys keep their values.
    pub fn set_at(&mut self, key: &str, value: &[u8], created_utc: i64) -> (r: Result<
        (),
        CacheError,
    >)
        ensures
            r is Ok,
            final(self).contents() == old(self).contents().insert(key@, value@),
            final(self).created(key@) == Some(created_utc),
    {
        let ghost before = self.entries@;
        let entry = CacheEntry {
            key: String::from_str(key),
            value: vstd::slice::slice_to_vec(value),
            created_utc,
        };
        self.entries.push(entry);
        proof {
            assert(self.entries@.drop_last() =~= before);
            assert forall|k: Seq<char>| #[trigger]
                final(self).contents().contains_key(k) == old(self).contents().insert(
                    key@,
                    value@,
                ).contains_key(k) by {}
            assert(final(self).contents() =~= old(self).contents().insert(key@, value@));
        }
        Ok(())
    }

    /// Puts `value` under `key`, in place of what stood there, and records
    /// the current time as the time of writing: whatever the clock shows,
    /// the key has a time of writing afterwards.
    pub fn set(&mut self, key: &str, value: &[u8]) -> (r: Result<(), CacheError>)
        ensures
            r is Ok,
            final(self).contents() == old(self).contents().insert(key@, value@),
            final(self).created(key@) is Some,
    {
        self.set_at(key, value, current_time().unix_seconds)
    }

    /// The text under `key`: `None` where there is no value or it is not
    /// valid UTF-8.
    pub fn get_json(&self, key: &str) -> (r: Result<Option<String>, CacheError>)
        ensures
            r is Ok,
            match r->Ok_0 {
                Some(s) => self.contents().contains_key(key@) && utf8_text(self.contents()[key@])
                    == Some(s@),
                None => !self.contents().contains_key(key@) || utf8_text(self.contents()[key@])
                    is None,
            },
    {
        match self.get(key) {
            Ok(Some(bytes)) => Ok(text_of_bytes(bytes)),
            Ok(None) => Ok(None),
            Err(e) => Err(e),
        }
    }

    /// Puts the UTF-8 bytes of `json` under `key`, so that `get_json` gives
    /// `json` back.
    pub fn set_json(&mut self, key: &str, json: &str) -> (r: Result<(), CacheError>)
        ensures
            r is Ok,
            final(self).contents() == old(self).contents().insert(key@, encode_utf8(json@)),
            utf8_text(final(self).contents()[key@]) == Some(json@),
            final(self).created(key@) is Some,
    {
        proof {
            vstd::utf8::encode_utf8_valid_utf8(json@);
            vstd::utf8::encode_utf8_decode_utf8(json@);
        }
        self.set(key, json.as_bytes())
    }
}

} // verus!
