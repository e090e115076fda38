//! Model choices, and what the pipeline makes of model output.
use crate::suggest::{Priority, Suggestion, SuggestionKind, SuggestionSource};
use crate::text::{chars_of, is_text, push_str, slice_range, string_of};
use vstd::prelude::*;
use vstd::string::StringExecFns;

verus! {

/// Models available for suggestions.
#[derive(Debug, Clone, Copy, PartialEq, Eq, Structural)]
pub enum Model {
    /// A fast model, for quick categorisation.
    GrokFast,
    /// A strong model, for deep analysis and fixes.
    Opus,
}

impl Model {
    /// The gateway's identifier for the model.
    pub fn id(&self) -> (r: &'static str)
        ensures
            r@ == match self {
                Model::GrokFast => "x-ai/grok-3-fast"@,
                Model::Opus => "x-ai/grok-3"@,
            },
    {
        match self {
            Model::GrokFast => "x-ai/grok-3-fast",
            Model::Opus => "x-ai/grok-3",
        }
    }

    /// The most tokens to ask the model for.
    pub fn max_tokens(&self) -> (r: u32)
        ensures
            r == match self {
                Model::GrokFast => 1024u32,
                Model::Opus => 4096u32,
            },
    {
        match self {
            Model::GrokFast => 1024,
            Model::Opus => 4096,
        }
    }
}

/// The last position of `c` in `s`.
pub open spec fn last_index_of(s: Seq<char>, c: char) -> Option<int>
    decreases s.len(),
{
    if s.len() == 0 {
        None
    } else if s.last() == c {
        Some(s.len() - 1)
    } else {
        last_index_of(s.drop_last(), c)
    }
}

proof fn lemma_last_index_bounds(s: Seq<char>, c: char)
    ensures
        last_index_of(s, c) matches Some(k) ==> 0 <= k < s.len(),
    decreases s.len(),
{
    if s.len() > 0 && s.last() != c {
        lemma_last_index_bounds(s.drop_last(), c);
    }
}

/// `content` cut to at most `max_chars` characters for a request: at the
/// last line break within the limit when there is one, and marked as cut.
pub open spec fn content_cut(content: Seq<char>, max_chars: nat) -> Seq<char> {
    if content.len() <= max_chars {
        content
    } else {
        let t = content.take(max_chars as int);
        match last_index_of(t, '\n') {
            Some(k) => content.take(k) + "\n... (truncated)"@,
            None => t + "... (truncated)"@,
        }
    }
}

/// Cuts content for a request, preferring a line boundary.
pub fn truncate_content(content: &str, max_chars: usize) -> (r: String)
    ensures
        r@ == content_cut(content@, max_chars as nat),
{
    let cs = chars_of(content);
    if cs.len() <= max_chars {
        return String::from_str(content);
    }
    let t = slice_range(&cs, 0, max_chars);
    let ghost tv = t@;
    assert(tv =~= content@.take(max_chars as int));
    let mut k: usize = t.len();
    assert(tv.take(tv.len() as int) =~= tv);
    while k > 0 && t[k - 1] != '\n'
        invariant
            t@ == tv,
            k <= t@.len(),
            last_index_of(tv, '\n') == last_index_of(tv.take(k as int), '\n'),
        decreases k,
    {
        assert(tv.take(k as int).drop_last() =~= tv.take(k - 1));
        k = k - 1;
    }
    if k > 0 {
        assert(tv.take(k as int).last() == '\n');
        let head = slice_range(&cs, 0, k - 1);
        assert(head@ =~= content@.take(k - 1));
        let mut r = string_of(&head);
        push_str(&mut r, "\n... (truncated)");
        r
    } else {
        assert(tv.take(0) =~= Seq::<char>::empty());
        let mut r = string_of(&t);
        push_str(&mut r, "... (truncated)");
        r
    }
}

/// The kind a model names in its response; unknown names mean an improvement.
pub open spec fn kind_named(s: Seq<char>) -> SuggestionKind {
    if s == "bugfix"@ {
        SuggestionKind::BugFix
    } else if s == "feature"@ {
        SuggestionKind::Feature
    } else if s == "optimization"@ {
        SuggestionKind::Optimization
    } else if s == "quality"@ {
        SuggestionKind::Quality
    } else if s == "documentation"@ {
        SuggestionKind::Documentation
    } else if s == "testing"@ {
        SuggestionKind::Testing
    } else {
        SuggestionKind::Improvement
    }
}

/// The priority a model names in its response; unknown names mean medium.
pub open spec fn priority_named(s: Seq<char>) -> Priority {
    if s == "high"@ {
        Priority::High
    } else if s == "low"@ {
        Priority::Low
    } else {
        Priority::Medium
    }
}

/// The kind named by `s`.
pub fn kind_from_name(s: &str) -> (r: SuggestionKind)
    ensures
        r == kind_named(s@),
{
    let c = chars_of(s);
    if is_text(&c, "bugfix") {
        SuggestionKind::BugFix
    } else if is_text(&c, "feature") {
        SuggestionKind::Feature
    } else if is_text(&c, "optimization") {
        SuggestionKind::Optimization
    } else if is_text(&c, "quality") {
        SuggestionKind::Quality
    } else if is_text(&c, "documentation") {
        SuggestionKind::Documentation
    } else if is_text(&c, "testing") {
        SuggestionKind::Testing
    } else {
        SuggestionKind::Improvement
    }
}

/// The priority named by `s`.
pub fn priority_from_name(s: &str) -> (r: Priority)
    ensures
        r == priority_named(s@),
{
    let c = chars_of(s);
    if is_text(&c, "high") {
        Priority::High
    } else if is_text(&c, "low") {
        Priority::Low
    } else {
        Priority::Medium
    }
}

/// A suggestion for `path` from one entry of a deep-analysis response.
pub fn suggestion_from_response(
    path: String,
    kind: &str,
    priority: &str,
    summary: String,
    detail: String,
    line: Option<usize>,
) -> (r: Suggestion)
    ensures
        r.kind == kind_named(kind@),
        r.priority == priority_named(priority@),
        r.file == path,
        r.summary == summary,
        r.detail == Some(detail),
        r.line == line,
        r.source == SuggestionSource::LlmDeep,
        r.additional_files@.len() == 0,
        !r.dismissed,
        !r.applied,
{
    let s = Suggestion::new(
        kind_from_name(kind),
        priority_from_name(priority),
        path,
        summary,
        SuggestionSource::LlmDeep,
    ).with_detail(detail);
    match line {
        Some(l) => s.with_line(l),
        None => s,
    }
}

} // verus!
