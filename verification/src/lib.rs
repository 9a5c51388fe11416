//! Rivora engineering reasoning core: deterministic, explainable derivations
//! over Engineering Objects (observations, evaluations, proposals, outcomes,
//! workflows and execution attempts).

pub mod text;
pub mod error;
pub mod ids;
pub mod ingest;
pub mod json;
pub mod vocab;
pub mod keymap;
pub mod model;
pub mod graph;
pub mod relationships;
pub mod embedding;
pub mod requests;
pub mod proposal;
pub mod proposal_rules;
pub mod proposal_content;
pub mod proposal_gen;
pub mod outcome;
pub mod assess;
pub mod evaluate;
pub mod evaluation;
pub mod context;
pub mod search;
pub mod workflow;
pub mod execution;
pub mod execution_gate;
pub mod execution_run;
pub mod execution_verify;
pub mod readiness;
pub mod refresh;
pub mod linking;
pub mod forecast;
pub mod hypotheses;
pub mod similarity;
pub mod patterns;
pub mod trend;
pub mod pipeline;
pub mod recall;
pub mod suggestions;
pub mod prior;
pub mod guidance;
pub mod priority;
pub mod lifecycle;
pub mod report;
pub mod query;
pub mod measured;
pub mod learning;
