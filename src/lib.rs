//! A code-improvement companion's core: cached summaries keyed by content
//! fingerprint, a suggestion store ordered by version-control context,
//! transactional multi-file edits with rollback, and the per-suggestion
//! workflow from preview to shipping.
use vstd::prelude::*;

pub mod build_info;
pub mod cache;
pub mod change;
pub mod diff;
pub mod grouping;
pub mod index;
pub mod llm;
pub mod refactor;
pub mod schedule;
pub mod suggest;
pub mod text;
pub mod theme;
pub mod ui;
pub mod update;
pub mod util;
pub mod workflow;
pub mod workspace;

verus! {

} // verus!
