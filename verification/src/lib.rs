//! Native verification driver: request admission, typed Horn-clause lowering,
//! bounded unrolling and proof-evidence bookkeeping, with machine-checked contracts.
pub mod admission;
pub mod admission_laws;
pub mod bridge;
pub mod bridge_laws;
pub mod bundle;
pub mod bundle_laws;
pub mod candidates;
pub mod chc;
pub mod copies;
pub mod document_laws;
pub mod documents;
pub mod error;
pub mod evidence;
pub mod facade;
pub mod facade_laws;
pub mod grade;
pub mod graph;
pub mod grounding;
pub mod grounding_laws;
pub mod identity;
pub mod identity_laws;
pub mod json;
pub mod ladder;
pub mod ladder_laws;
pub mod lane_laws;
pub mod lanes;
pub mod lowering;
pub mod lowering_laws;
pub mod overflow;
pub mod replay;
pub mod replay_laws;
pub mod rewrite;
pub mod rewrite_laws;
pub mod rule_laws;
pub mod runner;
pub mod runner_laws;
pub mod seal;
pub mod seal_laws;
pub mod semantics;
mod shared;
pub mod solve;
pub mod solve_laws;
pub mod term_laws;
pub mod terms;
pub mod text;
pub mod text_laws;
pub mod transport;
pub mod transport_laws;
pub mod unroll;
pub mod unroll_laws;
pub mod vc;
pub mod vc_semantics;
pub mod verdicts;
