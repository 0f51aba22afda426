//! The evidence bundle, its canonical document and its reproducibility hash.

pub mod bundle;
pub mod document;

pub use bundle::{
    normalize_for_hash, reproducibility_hash, verify_against, verify_bundle_hash, EvidenceBundle,
    VerificationOutcome, VerificationResult, VerifyError,
};
