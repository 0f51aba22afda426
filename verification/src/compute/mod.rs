//! Profit and loss, annualised return and premium totals.

pub mod invariance;
pub mod metrics;

pub use metrics::{
    compute_metrics, AprTerms, CombinedMetrics, ComputeInput, ComputedMetrics, DilutionModel,
    IndyStakingMetrics, RobMetrics, StabilityPoolMetrics,
};
