//! On-chain identifiers of the protocol: script hashes, datum hashes and
//! asset policy ids.
//!
//! A list that holds identifiers restricts detection to them (strict mode); an
//! empty list accepts anything (heuristic mode).

use vstd::prelude::*;
use vstd::string::*;
use crate::chain::fetch::opt_text;
use crate::text::{
    lowercase, str_eq, strip_hex_prefix, to_lowercase, trim, trimmed, without_hex_prefix,
};

verus! {

/// The characters of each string of a list.
pub open spec fn texts(list: Seq<String>) -> Seq<Seq<char>> {
    Seq::new(list.len(), |i: int| list[i]@)
}

/// The identifiers of the protocol. Hashes and policy ids are hexadecimal.
#[derive(Clone, Debug)]
pub struct IndigoV2Config {
    /// Stability pool: script or validator hashes.
    pub stability_pool_script_hashes: Vec<String>,
    /// Stability pool: datum hashes of its script UTXOs.
    pub stability_pool_datum_hashes: Vec<String>,
    /// Policy ids of the iAssets.
    pub iasset_policy_ids: Vec<String>,
    /// Order book: script or validator hashes.
    pub rob_script_hashes: Vec<String>,
    /// Order book: datum hashes of its script UTXOs.
    pub rob_datum_hashes: Vec<String>,
    /// Policy id of the staking token.
    pub indy_policy_id: Option<String>,
}

/// The mathematical value of an [`IndigoV2Config`].
pub struct ConfigView {
    pub stability_pool_script_hashes: Seq<Seq<char>>,
    pub stability_pool_datum_hashes: Seq<Seq<char>>,
    pub iasset_policy_ids: Seq<Seq<char>>,
    pub rob_script_hashes: Seq<Seq<char>>,
    pub rob_datum_hashes: Seq<Seq<char>>,
    pub indy_policy_id: Option<Seq<char>>,
}

impl ConfigView {
    /// No identifier at all: heuristic mode on every dimension.
    pub open spec fn empty() -> ConfigView {
        ConfigView {
            stability_pool_script_hashes: Seq::empty(),
            stability_pool_datum_hashes: Seq::empty(),
            iasset_policy_ids: Seq::empty(),
            rob_script_hashes: Seq::empty(),
            rob_datum_hashes: Seq::empty(),
            indy_policy_id: None,
        }
    }
}

impl View for IndigoV2Config {
    type V = ConfigView;

    open spec fn view(&self) -> ConfigView {
        ConfigView {
            stability_pool_script_hashes: texts(self.stability_pool_script_hashes@),
            stability_pool_datum_hashes: texts(self.stability_pool_datum_hashes@),
            iasset_policy_ids: texts(self.iasset_policy_ids@),
            rob_script_hashes: texts(self.rob_script_hashes@),
            rob_datum_hashes: texts(self.rob_datum_hashes@),
            indy_policy_id: opt_text(self.indy_policy_id),
        }
    }
}

/// An identifier as it is compared: trimmed, in lower case, without any `0x`
/// in front. The prefix goes whatever its case was.
pub open spec fn normal_hex(s: Seq<char>) -> Seq<char> {
    without_hex_prefix(lowercase(trimmed(s)))
}

/// Whether `list` admits `id`: it is empty, or one of its entries is `id`
/// once both are normalised.
pub open spec fn admits(list: Seq<Seq<char>>, id: Seq<char>) -> bool {
    list.len() == 0 || exists|i: int| 0 <= i < list.len() && normal_hex(#[trigger] list[i])
        == normal_hex(id)
}

/// Whether `list` admits an optional datum hash: a UTXO without one passes
/// only where nothing is listed.
pub open spec fn admits_datum(list: Seq<Seq<char>>, datum_hash: Option<Seq<char>>) -> bool {
    match datum_hash {
        Some(d) => admits(list, d),
        None => list.len() == 0,
    }
}

/// Whether one of `candidates` is exactly `needle`.
pub fn contains_text(candidates: &Vec<String>, needle: &str) -> (r: bool)
    ensures
        r == exists|i: int| 0 <= i < candidates@.len() && (#[trigger] candidates@[i])@ == needle@,
{
    let mut i: usize = 0;
    while i < candidates.len()
        invariant
            i <= candidates.len(),
            forall|k: int| 0 <= k < i ==> (#[trigger] candidates@[k])@ != needle@,
        decreases candidates.len() - i,
    {
        if str_eq(candidates[i].as_str(), needle) {
            return true;
        }
        i += 1;
    }
    false
}

impl Default for IndigoV2Config {
    /// No identifier at all: heuristic mode on every dimension.
    fn default() -> (r: IndigoV2Config)
        ensures
            r@ == ConfigView::empty(),
    {
        let r = IndigoV2Config {
            stability_pool_script_hashes: Vec::new(),
            stability_pool_datum_hashes: Vec::new(),
            iasset_policy_ids: Vec::new(),
            rob_script_hashes: Vec::new(),
            rob_datum_hashes: Vec::new(),
            indy_policy_id: None,
        };
        assert(texts(r.stability_pool_script_hashes@) =~= Seq::empty());
        assert(texts(r.stability_pool_datum_hashes@) =~= Seq::empty());
        assert(texts(r.iasset_policy_ids@) =~= Seq::empty());
        assert(texts(r.rob_script_hashes@) =~= Seq::empty());
        assert(texts(r.rob_datum_hashes@) =~= Seq::empty());
        r
    }
}

impl IndigoV2Config {
    /// Whether iAsset policy ids are listed, so that the pool filter is strict.
    pub fn has_iasset_policy_ids(&self) -> (r: bool)
        ensures
            r == (self@.iasset_policy_ids.len() > 0),
    {
        !self.iasset_policy_ids.is_empty()
    }

    /// Whether pool datum hashes are listed.
    pub fn has_stability_pool_datum_hashes(&self) -> (r: bool)
        ensures
            r == (self@.stability_pool_datum_hashes.len() > 0),
    {
        !self.stability_pool_datum_hashes.is_empty()
    }

    /// Whether order-book datum hashes are listed.
    pub fn has_rob_datum_hashes(&self) -> (r: bool)
        ensures
            r == (self@.rob_datum_hashes.len() > 0),
    {
        !self.rob_datum_hashes.is_empty()
    }

    /// Normalises an identifier for comparison: trimmed, in lower case,
    /// without any `0x` in front, whatever the case of the prefix was.
    pub fn norm_hex(s: &str) -> (r: String)
        ensures
            r@ == normal_hex(s@),
    {
        let lowered = to_lowercase(trim(s));
        String::from_str(strip_hex_prefix(lowered.as_str()))
    }

    /// The entries of `list`, each normalised.
    pub fn norm_hex_all(list: &Vec<String>) -> (r: Vec<String>)
        ensures
            r@.len() == list@.len(),
            forall|i: int| 0 <= i < r@.len() ==> (#[trigger] r@[i])@ == normal_hex(list@[i]@),
    {
        let mut out: Vec<String> = Vec::new();
        let mut i: usize = 0;
        while i < list.len()
            invariant
                i <= list.len(),
                out@.len() == i,
                forall|k: int| 0 <= k < i ==> (#[trigger] out@[k])@ == normal_hex(list@[k]@),
            decreases list.len() - i,
        {
            out.push(Self::norm_hex(list[i].as_str()));
            i += 1;
        }
        out
    }

    /// Whether `list` admits `id`.
    pub fn list_admits(list: &Vec<String>, id: &str) -> (r: bool)
        ensures
            r == admits(texts(list@), id@),
    {
        if list.is_empty() {
            return true;
        }
        let normalized = Self::norm_hex_all(list);
        let needle = Self::norm_hex(id);
        let r = contains_text(&normalized, needle.as_str());
        proof {
            let names = texts(list@);
            if r {
                let i = choose|i: int| 0 <= i < normalized@.len() && (#[trigger] normalized@[i])@
                    == needle@;
                assert(normal_hex(names[i]) == normal_hex(id@));
            } else {
                assert forall|i: int| 0 <= i < names.len() implies normal_hex(#[trigger] names[i])
                    != normal_hex(id@) by {
                    assert(normalized@[i]@ == normal_hex(list@[i]@));
                }
            }
        }
        r
    }

    /// Whether `policy_id` is the policy of a known iAsset.
    pub fn is_known_iasset_policy(&self, policy_id: &str) -> (r: bool)
        ensures
            r == admits(self@.iasset_policy_ids, policy_id@),
    {
        Self::list_admits(&self.iasset_policy_ids, policy_id)
    }

    /// Whether `datum_hash` is that of a stability pool UTXO.
    pub fn is_stability_pool_datum(&self, datum_hash: Option<&str>) -> (r: bool)
        ensures
            r == admits_datum(
                self@.stability_pool_datum_hashes,
                match datum_hash {
                    Some(d) => Some(d@),
                    None => None,
                },
            ),
    {
        match datum_hash {
            Some(d) => Self::list_admits(&self.stability_pool_datum_hashes, d),
            None => self.stability_pool_datum_hashes.is_empty(),
        }
    }

    /// Whether `datum_hash` is that of an order-book UTXO.
    pub fn is_rob_datum(&self, datum_hash: Option<&str>) -> (r: bool)
        ensures
            r == admits_datum(
                self@.rob_datum_hashes,
                match datum_hash {
                    Some(d) => Some(d@),
                    None => None,
                },
            ),
    {
        match datum_hash {
            Some(d) => Self::list_admits(&self.rob_datum_hashes, d),
            None => self.rob_datum_hashes.is_empty(),
        }
    }
}

} // verus!
