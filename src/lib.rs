//! Formal assurance kernel: content-addressed proof bundles over governance
//! snapshots, with an invariant description language and an independent
//! verifier.

pub mod artifacts;
pub mod audit;
pub mod digest;
pub mod dsl;
pub mod engine;
pub mod error;
pub mod json;
pub mod text;
pub mod types;

pub use artifacts::ArtifactManager;
pub use audit::{BundleResult, Verifier, WitnessResult};
pub use digest::compute_content_hash;
pub use dsl::{InvariantDSL, TemporalProperty};
pub use engine::{EngineConfig, ProofEngine};
pub use error::{FakError, FakResult};
pub use json::JsonValue;
pub use types::{
    CapabilityManifest, CostFigure, CostLedger, CounterExample, ExecutionTrace, InvariantSpec,
    PolicyIR, ProofBundle, ProofType, ProofWitness, VerificationContext,
};
