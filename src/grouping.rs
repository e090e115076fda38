//! Architectural layers and confidence levels of file groupings.
use crate::text::{chars_of, is_text, lower_of, to_lowercase};
use vstd::prelude::*;

verus! {

/// The smallest number of ambiguous files that makes a model pass worth it.
pub const MIN_MISC_FOR_LLM: usize = 5;

/// The architectural layer a file belongs to.
#[derive(Debug, Clone, Copy, PartialEq, Eq, Hash, Structural)]
pub enum Layer {
    Frontend,
    Backend,
    API,
    Database,
    Shared,
    Config,
    Tests,
    Infra,
    Unknown,
}

/// How sure a layer assignment is.
#[derive(Debug, Clone, Copy, PartialEq, Eq, Structural)]
pub enum Confidence {
    High,
    Medium,
    Low,
}

/// The layer a lowercase name stands for.
pub open spec fn layer_of(s: Seq<char>) -> Layer {
    if s == "frontend"@ {
        Layer::Frontend
    } else if s == "backend"@ {
        Layer::Backend
    } else if s == "api"@ {
        Layer::API
    } else if s == "database"@ {
        Layer::Database
    } else if s == "shared"@ {
        Layer::Shared
    } else if s == "config"@ {
        Layer::Config
    } else if s == "tests"@ || s == "test"@ {
        Layer::Tests
    } else if s == "infra"@ || s == "infrastructure"@ {
        Layer::Infra
    } else {
        Layer::Unknown
    }
}

/// The confidence a lowercase name stands for.
pub open spec fn confidence_of(s: Seq<char>) -> Confidence {
    if s == "high"@ {
        Confidence::High
    } else if s == "medium"@ || s == "med"@ {
        Confidence::Medium
    } else {
        Confidence::Low
    }
}

/// The layer named by `s`, without regard to case; unknown names give
/// [`Layer::Unknown`].
pub fn parse_layer(s: &str) -> (r: Layer)
    ensures
        r == layer_of(lower_of(s@)),
{
    let lowered = to_lowercase(s);
    parse_layer_lowered(lowered.as_str())
}

/// The layer named by an already lowercase `s`.
pub fn parse_layer_lowered(s: &str) -> (r: Layer)
    ensures
        r == layer_of(s@),
{
    let c = chars_of(s);
    if is_text(&c, "frontend") {
        Layer::Frontend
    } else if is_text(&c, "backend") {
        Layer::Backend
    } else if is_text(&c, "api") {
        Layer::API
    } else if is_text(&c, "database") {
        Layer::Database
    } else if is_text(&c, "shared") {
        Layer::Shared
    } else if is_text(&c, "config") {
        Layer::Config
    } else if is_text(&c, "tests") || is_text(&c, "test") {
        Layer::Tests
    } else if is_text(&c, "infra") || is_text(&c, "infrastructure") {
        Layer::Infra
    } else {
        Layer::Unknown
    }
}

/// The confidence named by `s`, without regard to case; unknown names give
/// [`Confidence::Low`].
pub fn parse_confidence(s: &str) -> (r: Confidence)
    ensures
        r == confidence_of(lower_of(s@)),
{
    let lowered = to_lowercase(s);
    parse_confidence_lowered(lowered.as_str())
}

/// The confidence named by an already lowercase `s`.
pub fn parse_confidence_lowered(s: &str) -> (r: Confidence)
    ensures
        r == confidence_of(s@),
{
    let c = chars_of(s);
    if is_text(&c, "high") {
        Confidence::High
    } else if is_text(&c, "medium") || is_text(&c, "med") {
        Confidence::Medium
    } else {
        Confidence::Low
    }
}

/// Whether a model pass over the grouping is worth making: a model is
/// available and there are enough low-confidence or unsorted files.
pub fn should_enhance(available: bool, low_confidence_count: usize, misc_count: usize) -> (r: bool)
    ensures
        r == (available && (low_confidence_count >= MIN_MISC_FOR_LLM || misc_count
            >= MIN_MISC_FOR_LLM)),
{
    available && (low_confidence_count >= MIN_MISC_FOR_LLM || misc_count >= MIN_MISC_FOR_LLM)
}

} // verus!
