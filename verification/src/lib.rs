//! Local-first proof of yield: typed events, metrics and a content-hashed
//! evidence bundle, derived from public transaction history.
//!
//! Read-only: no seeds, no transaction signing.

pub mod chain;
pub mod compute;
pub mod indigo;
pub mod json;
pub mod order;
pub mod report;
pub mod text;
pub mod verify;

pub use chain::fetch::{KoiosAccountTx, KoiosAsset, KoiosTxUtxos, KoiosUtxo, TxUtxoTable};
pub use chain::{Cache, FetchConfig};
pub use compute::{compute_metrics, ComputeInput, ComputedMetrics};
pub use indigo::{Event, EventKind, IndigoEvents};
pub use report::ReportData;
pub use verify::{reproducibility_hash, EvidenceBundle, VerificationResult};
