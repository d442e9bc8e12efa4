//! Classification of foreign aggregate types for safe by-value binding.
//!
//! The pipeline decides, for every declared struct, whether it may be held
//! as flat, destructor-free data or must always sit behind an indirection,
//! and records the dependency edges that later emission stages order by.
//!
//! - `names`: qualified names and namespaces.
//! - `api`: declarations, type references and the per-phase analysis data.
//! - `config`, `directives`: the directive set and how directives build it.
//! - `checker`: the closed-world by-value oracle over one batch.
//! - `converter`: conversion of one type reference, discovering instantiations.
//! - `pod`: the struct and enum classifiers.
//! - `pipeline`: the two-pass analysis over a batch.
//! - `laws`: properties that relate the stages.
//! - `usage`: which generated name a path of consumer code refers to.
pub mod names;
pub mod api;
pub mod config;
pub mod directives;
pub mod checker;
pub mod converter;
pub mod pod;
pub mod pipeline;
pub mod laws;
pub mod usage;
