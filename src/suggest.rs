//! Suggestions: records with lifecycle flags, and the store that keeps them
//! ordered by how relevant they are to the work in progress.
use crate::index::{Pattern, PatternKind, PatternSeverity};
use crate::text::{decimal_digits, push_char, push_decimal, push_str};
use vstd::prelude::*;
use vstd::string::StringExecFns;

verus! {

/// Where a suggestion came from.
#[derive(Debug, Clone, Copy, PartialEq, Eq, Structural)]
pub enum SuggestionSource {
    /// Pattern matching, free of model cost.
    Static,
    /// Generated earlier, loaded from the cache.
    Cached,
    /// A fast model, for quick categorisation.
    LlmFast,
    /// A model asked for detailed analysis.
    LlmDeep,
}

impl SuggestionSource {
    /// A short marker shown beside the suggestion.
    pub fn icon(&self) -> (r: &'static str)
        ensures
            r@ == match self {
                SuggestionSource::Static => "  "@,
                _ => " "@,
            },
    {
        match self {
            SuggestionSource::Static => "  ",
            SuggestionSource::Cached => " ",
            SuggestionSource::LlmFast => " ",
            SuggestionSource::LlmDeep => " ",
        }
    }
}

/// What kind of change a suggestion proposes.
#[derive(Debug, Clone, Copy, PartialEq, Eq, Structural)]
pub enum SuggestionKind {
    Improvement,
    BugFix,
    Feature,
    Optimization,
    Quality,
    Documentation,
    Testing,
    Refactoring,
}

pub open spec fn kind_icon(k: SuggestionKind) -> char {
    match k {
        SuggestionKind::Improvement => '\u{2728}',
        SuggestionKind::BugFix => '\u{1F41B}',
        SuggestionKind::Feature => '\u{2795}',
        SuggestionKind::Optimization => '\u{26A1}',
        SuggestionKind::Quality => '\u{2726}',
        SuggestionKind::Documentation => '\u{1F4DD}',
        SuggestionKind::Testing => '\u{1F9EA}',
        SuggestionKind::Refactoring => '\u{1F527}',
    }
}

pub open spec fn kind_label(k: SuggestionKind) -> Seq<char> {
    match k {
        SuggestionKind::Improvement => "Improve"@,
        SuggestionKind::BugFix => "Fix"@,
        SuggestionKind::Feature => "Feature"@,
        SuggestionKind::Optimization => "Optimize"@,
        SuggestionKind::Quality => "Quality"@,
        SuggestionKind::Documentation => "Docs"@,
        SuggestionKind::Testing => "Test"@,
        SuggestionKind::Refactoring => "Refactor"@,
    }
}

/// The weight that breaks ties between kinds of equal priority: correctness
/// first, style last.
pub open spec fn kind_weight(k: SuggestionKind) -> u8 {
    match k {
        SuggestionKind::BugFix => 40,
        SuggestionKind::Refactoring => 30,
        SuggestionKind::Optimization => 25,
        SuggestionKind::Testing => 20,
        SuggestionKind::Quality => 15,
        SuggestionKind::Documentation => 10,
        SuggestionKind::Improvement => 10,
        SuggestionKind::Feature => 0,
    }
}

impl SuggestionKind {
    /// An emoji for the kind.
    pub fn icon(&self) -> (r: char)
        ensures
            r == kind_icon(*self),
    {
        match self {
            SuggestionKind::Improvement => '\u{2728}',
            SuggestionKind::BugFix => '\u{1F41B}',
            SuggestionKind::Feature => '\u{2795}',
            SuggestionKind::Optimization => '\u{26A1}',
            SuggestionKind::Quality => '\u{2726}',
            SuggestionKind::Documentation => '\u{1F4DD}',
            SuggestionKind::Testing => '\u{1F9EA}',
            SuggestionKind::Refactoring => '\u{1F527}',
        }
    }

    /// A short label for the kind.
    pub fn label(&self) -> (r: &'static str)
        ensures
            r@ == kind_label(*self),
    {
        match self {
            SuggestionKind::Improvement => "Improve",
            SuggestionKind::BugFix => "Fix",
            SuggestionKind::Feature => "Feature",
            SuggestionKind::Optimization => "Optimize",
            SuggestionKind::Quality => "Quality",
            SuggestionKind::Documentation => "Docs",
            SuggestionKind::Testing => "Test",
            SuggestionKind::Refactoring => "Refactor",
        }
    }

    /// The tie-breaking weight of the kind.
    pub fn weight(&self) -> (r: u8)
        ensures
            r == kind_weight(*self),
    {
        match self {
            SuggestionKind::BugFix => 40,
            SuggestionKind::Refactoring => 30,
            SuggestionKind::Optimization => 25,
            SuggestionKind::Testing => 20,
            SuggestionKind::Quality => 15,
            SuggestionKind::Documentation => 10,
            SuggestionKind::Improvement => 10,
            SuggestionKind::Feature => 0,
        }
    }
}

/// Priority level, lowest first.
#[derive(Debug, Clone, Copy, PartialEq, Eq, PartialOrd, Ord, Structural)]
pub enum Priority {
    Low,
    Medium,
    High,
}

pub open spec fn priority_rank(p: Priority) -> u8 {
    match p {
        Priority::Low => 0,
        Priority::Medium => 1,
        Priority::High => 2,
    }
}

pub open spec fn priority_of_severity(s: PatternSeverity) -> Priority {
    match s {
        PatternSeverity::High => Priority::High,
        PatternSeverity::Medium => Priority::Medium,
        PatternSeverity::Low | PatternSeverity::Info => Priority::Low,
    }
}

impl Priority {
    /// A filled, half or empty circle.
    pub fn icon(&self) -> (r: char)
        ensures
            r == match self {
                Priority::High => '\u{25CF}',
                Priority::Medium => '\u{25D0}',
                Priority::Low => '\u{25CB}',
            },
    {
        match self {
            Priority::High => '\u{25CF}',
            Priority::Medium => '\u{25D0}',
            Priority::Low => '\u{25CB}',
        }
    }

    /// The priority of a pattern of the given severity.
    pub fn from_severity(severity: PatternSeverity) -> (r: Priority)
        ensures
            r == priority_of_severity(severity),
    {
        match severity {
            PatternSeverity::High => Priority::High,
            PatternSeverity::Medium => Priority::Medium,
            PatternSeverity::Low | PatternSeverity::Info => Priority::Low,
        }
    }

    /// 0 for low, 1 for medium, 2 for high.
    pub fn rank(&self) -> (r: u8)
        ensures
            r == priority_rank(*self),
    {
        match self {
            Priority::Low => 0,
            Priority::Medium => 1,
            Priority::High => 2,
        }
    }
}

/// Relies on `uuid::Uuid::new_v4` and `Uuid::as_u128`: a random identifier
/// drawn from the operating system's generator (which panics only when that
/// generator fails, whatever the caller does). Nothing is promised of it.
#[verifier::external_body]
fn new_id() -> (r: u128) {
    uuid::Uuid::new_v4().as_u128()
}

/// Relies on `chrono::Utc::now` and `DateTime::timestamp_millis`: the
/// current time, in milliseconds since the Unix epoch (`now` panics only on
/// a system clock set before 1970). Nothing is promised of it.
#[verifier::external_body]
fn now_millis() -> (r: i64) {
    chrono::Utc::now().timestamp_millis()
}

/// A recommended change to the code.
#[derive(Debug, Clone)]
pub struct Suggestion {
    /// Unique identifier.
    pub id: u128,
    pub kind: SuggestionKind,
    pub priority: Priority,
    /// Primary file, used for display and grouping.
    pub file: String,
    /// Further files affected, for multi-file changes.
    pub additional_files: Vec<String>,
    pub line: Option<usize>,
    pub summary: String,
    pub detail: Option<String>,
    pub source: SuggestionSource,
    /// Creation time, in milliseconds since the Unix epoch.
    pub created_at: i64,
    /// Whether the user dismissed it.
    pub dismissed: bool,
    /// Whether it has been applied.
    pub applied: bool,
}

fn copy_strings(v: &Vec<String>) -> (r: Vec<String>)
    ensures
        r.deep_view() == v.deep_view(),
{
    let mut r: Vec<String> = Vec::new();
    let mut i: usize = 0;
    while i < v.len()
        invariant
            i <= v@.len(),
            r.deep_view() == v.deep_view().take(i as int),
        decreases v@.len() - i,
    {
        let ghost before = r.deep_view();
        r.push(v[i].clone());
        assert(r.deep_view() =~= before.push(v.deep_view()[i as int]));
        assert(r.deep_view() =~= v.deep_view().take(i + 1));
        i = i + 1;
    }
    assert(v.deep_view().take(v@.len() as int) =~= v.deep_view());
    r
}

fn copy_opt(o: &Option<String>) -> (r: Option<String>)
    ensures
        r == *o,
{
    match o {
        Some(s) => Some(s.clone()),
        None => None,
    }
}

/// Whether two suggestions hold the same values.
pub open spec fn same_suggestion(a: Suggestion, b: Suggestion) -> bool {
    &&& a.id == b.id
    &&& a.kind == b.kind
    &&& a.priority == b.priority
    &&& a.file@ == b.file@
    &&& a.additional_files.deep_view() == b.additional_files.deep_view()
    &&& a.line == b.line
    &&& a.summary@ == b.summary@
    &&& a.detail == b.detail
    &&& a.source == b.source
    &&& a.created_at == b.created_at
    &&& a.dismissed == b.dismissed
    &&& a.applied == b.applied
}

pub open spec fn opt_text(o: Option<String>) -> Option<Seq<char>> {
    match o {
        Some(s) => Some(s@),
        None => None,
    }
}

impl Suggestion {
    /// A new, active suggestion with a fresh identifier and the current time.
    pub fn new(
        kind: SuggestionKind,
        priority: Priority,
        file: String,
        summary: String,
        source: SuggestionSource,
    ) -> (r: Suggestion)
        ensures
            r.kind == kind,
            r.priority == priority,
            r.file == file,
            r.additional_files@.len() == 0,
            r.line is None,
            r.summary == summary,
            r.detail is None,
            r.source == source,
            !r.dismissed,
            !r.applied,
    {
        Suggestion {
            id: new_id(),
            kind,
            priority,
            file,
            additional_files: Vec::new(),
            line: None,
            summary,
            detail: None,
            source,
            created_at: now_millis(),
            dismissed: false,
            applied: false,
        }
    }

    /// A field-by-field copy.
    pub fn copy(&self) -> (r: Suggestion)
        ensures
            same_suggestion(r, *self),
    {
        Suggestion {
            id: self.id,
            kind: self.kind,
            priority: self.priority,
            file: self.file.clone(),
            additional_files: copy_strings(&self.additional_files),
            line: self.line,
            summary: self.summary.clone(),
            detail: copy_opt(&self.detail),
            source: self.source,
            created_at: self.created_at,
            dismissed: self.dismissed,
            applied: self.applied,
        }
    }

    /// The same suggestion, pointing at a line.
    pub fn with_line(self, line: usize) -> (r: Suggestion)
        ensures
            r == (Suggestion { line: Some(line), ..self }),
    {
        Suggestion { line: Some(line), ..self }
    }

    /// The same suggestion, with a long-form explanation.
    pub fn with_detail(self, detail: String) -> (r: Suggestion)
        ensures
            r == (Suggestion { detail: Some(detail), ..self }),
    {
        Suggestion { detail: Some(detail), ..self }
    }

    /// The same suggestion, affecting further files.
    pub fn with_additional_files(self, files: Vec<String>) -> (r: Suggestion)
        ensures
            r == (Suggestion { additional_files: files, ..self }),
    {
        Suggestion { additional_files: files, ..self }
    }

    /// Every file affected: the primary one, then the others in order.
    pub fn affected_files(&self) -> (r: Vec<String>)
        ensures
            r.deep_view() == seq![self.file@] + self.additional_files.deep_view(),
    {
        let mut r: Vec<String> = Vec::new();
        r.push(self.file.clone());
        let rest = copy_strings(&self.additional_files);
        let mut i: usize = 0;
        assert(r.deep_view() =~= seq![self.file@]);
        while i < rest.len()
            invariant
                i <= rest@.len(),
                rest.deep_view() == self.additional_files.deep_view(),
                r.deep_view() == seq![self.file@] + rest.deep_view().take(i as int),
            decreases rest@.len() - i,
        {
            let ghost before = r.deep_view();
            r.push(rest[i].clone());
            assert(r.deep_view() =~= before.push(rest.deep_view()[i as int]));
            assert(r.deep_view() =~= seq![self.file@] + rest.deep_view().take(i + 1));
            i = i + 1;
        }
        assert(rest.deep_view().take(rest@.len() as int) =~= rest.deep_view());
        r
    }

    /// Whether more than one file is affected.
    pub fn is_multi_file(&self) -> (r: bool)
        ensures
            r == (self.additional_files@.len() > 0),
    {
        self.additional_files.len() > 0
    }

    /// How many files are affected.
    pub fn file_count(&self) -> (r: usize)
        requires
            self.additional_files@.len() < usize::MAX,
        ensures
            r == 1 + self.additional_files@.len(),
    {
        1 + self.additional_files.len()
    }

    /// One line for the suggestion list: `file[:line][ [count]] - summary`.
    pub fn display_summary(&self) -> (r: String)
        requires
            self.additional_files@.len() < usize::MAX,
        ensures
            r@ == self.file@ + match self.line {
                Some(l) => seq![':'] + decimal_digits(l as nat),
                None => seq![],
            } + if self.additional_files@.len() > 0 {
                " ["@ + decimal_digits((1 + self.additional_files@.len()) as nat) + "]"@
            } else {
                seq![]
            } + " - "@ + self.summary@,
    {
        let mut r = self.file.clone();
        if let Some(l) = self.line {
            push_char(&mut r, ':');
            push_decimal(&mut r, l as u64);
        }
        if self.is_multi_file() {
            push_str(&mut r, " [");
            push_decimal(&mut r, self.file_count() as u64);
            push_str(&mut r, "]");
        }
        push_str(&mut r, " - ");
        push_str(&mut r, self.summary.as_str());
        proof {
            let l = match self.line {
                Some(l) => seq![':'] + decimal_digits(l as nat),
                None => seq![],
            };
            let m = if self.additional_files@.len() > 0 {
                " ["@ + decimal_digits((1 + self.additional_files@.len()) as nat) + "]"@
            } else {
                seq![]
            };
            assert(r@ =~= self.file@ + l + m + " - "@ + self.summary@);
        }
        r
    }
}

// ---------------------------------------------------------------------------
// Ordering
// ---------------------------------------------------------------------------

/// What ordering looks at: whether the suggestion's file has uncommitted
/// changes, whether it lies in their blast radius, its priority rank, its
/// kind weight and its creation time.
#[derive(Debug, Clone, Copy, PartialEq, Eq, Structural)]
pub struct SortKey {
    pub changed: bool,
    pub blast: bool,
    pub priority: u8,
    pub weight: u8,
    pub created: i64,
}

/// Whether a suggestion with key `a` goes strictly before one with key `b`:
/// changed files first, then files in the blast radius, then higher
/// priority, then heavier kind, then newer.
pub open spec fn key_before(a: SortKey, b: SortKey) -> bool {
    if a.changed != b.changed {
        a.changed
    } else if a.blast != b.blast {
        a.blast
    } else if a.priority != b.priority {
        a.priority > b.priority
    } else if a.weight != b.weight {
        a.weight > b.weight
    } else {
        a.created > b.created
    }
}

/// Whether no key of `ks` goes strictly before an earlier one.
pub open spec fn keys_sorted(ks: Seq<SortKey>) -> bool {
    forall|i: int, j: int| 0 <= i < j < ks.len() ==> !key_before(#[trigger] ks[j], #[trigger] ks[i])
}

/// Where a new entry with key `k` goes among `ks`: before the first entry
/// that it goes strictly before, searching from position `j`.
pub open spec fn insert_pos(ks: Seq<SortKey>, k: SortKey, j: int) -> int
    decreases ks.len() - j,
{
    if j < 0 || j >= ks.len() {
        ks.len() as int
    } else if key_before(k, ks[j]) {
        j
    } else {
        insert_pos(ks, k, j + 1)
    }
}

/// Insertion sort of the first `n` items by their keys: each item goes after
/// every earlier item that it does not go strictly before, which keeps
/// items with equal keys in their original order.
pub open spec fn sorted_state<A>(xs: Seq<A>, ks: Seq<SortKey>, n: nat) -> (Seq<A>, Seq<SortKey>)
    decreases n,
{
    if n == 0 || n > xs.len() || n > ks.len() {
        (seq![], seq![])
    } else {
        let (rs, rk) = sorted_state(xs, ks, (n - 1) as nat);
        let p = insert_pos(rk, ks[n - 1], 0);
        (rs.insert(p, xs[n - 1]), rk.insert(p, ks[n - 1]))
    }
}

/// `xs` stably sorted by the keys `ks`.
pub open spec fn sort_by_keys<A>(xs: Seq<A>, ks: Seq<SortKey>) -> Seq<A> {
    sorted_state(xs, ks, xs.len()).0
}

proof fn lemma_insert_pos_bounds(ks: Seq<SortKey>, k: SortKey, j: int)
    requires
        0 <= j <= ks.len(),
    ensures
        j <= insert_pos(ks, k, j) <= ks.len(),
        forall|i: int| j <= i < insert_pos(ks, k, j) ==> !key_before(k, #[trigger] ks[i]),
        insert_pos(ks, k, j) < ks.len() ==> key_before(k, ks[insert_pos(ks, k, j)]),
    decreases ks.len() - j,
{
    if j < ks.len() && !key_before(k, ks[j]) {
        lemma_insert_pos_bounds(ks, k, j + 1);
    }
}

proof fn lemma_sorted_state_len<A>(xs: Seq<A>, ks: Seq<SortKey>, n: nat)
    requires
        n <= xs.len(),
        n <= ks.len(),
    ensures
        sorted_state(xs, ks, n).0.len() == n,
        sorted_state(xs, ks, n).1.len() == n,
    decreases n,
{
    if n > 0 {
        lemma_sorted_state_len(xs, ks, (n - 1) as nat);
        let rk = sorted_state(xs, ks, (n - 1) as nat).1;
        lemma_insert_pos_bounds(rk, ks[n - 1], 0);
    }
}

/// Sorting keeps the list sorted: the insertion of each item leaves no key
/// before an earlier one that it should follow.
proof fn lemma_sorted_state_sorted<A>(xs: Seq<A>, ks: Seq<SortKey>, n: nat)
    requires
        n <= xs.len(),
        n <= ks.len(),
    ensures
        keys_sorted(sorted_state(xs, ks, n).1),
    decreases n,
{
    if n > 0 {
        lemma_sorted_state_sorted(xs, ks, (n - 1) as nat);
        lemma_sorted_state_len(xs, ks, (n - 1) as nat);
        let rk = sorted_state(xs, ks, (n - 1) as nat).1;
        let k = ks[n - 1];
        lemma_insert_pos_bounds(rk, k, 0);
        let p = insert_pos(rk, k, 0);
        let nk = rk.insert(p, k);
        assert forall|i: int, j: int| 0 <= i < j < nk.len() implies !key_before(#[trigger] nk[j], #[trigger] nk[i]) by {
            if j < p {
                assert(nk[i] == rk[i] && nk[j] == rk[j]);
            } else if j == p {
                assert(nk[i] == rk[i]);
            } else if i < p {
                assert(nk[i] == rk[i] && nk[j] == rk[j - 1]);
                assert(!key_before(rk[j - 1], rk[i]));
            } else if i == p {
                assert(nk[j] == rk[j - 1]);
                assert(!key_before(rk[j - 1], rk[p]));
            } else {
                assert(nk[i] == rk[i - 1] && nk[j] == rk[j - 1]);
            }
        }
    }
}

/// On already sorted keys, sorting changes nothing.
proof fn lemma_sorted_state_identity<A>(xs: Seq<A>, ks: Seq<SortKey>, n: nat)
    requires
        n <= xs.len(),
        n <= ks.len(),
        keys_sorted(ks),
    ensures
        sorted_state(xs, ks, n).0 == xs.take(n as int),
        sorted_state(xs, ks, n).1 == ks.take(n as int),
    decreases n,
{
    if n > 0 {
        lemma_sorted_state_identity(xs, ks, (n - 1) as nat);
        let rk = ks.take(n - 1);
        let k = ks[n - 1];
        lemma_insert_pos_bounds(rk, k, 0);
        let p = insert_pos(rk, k, 0);
        if p < rk.len() {
            assert(key_before(k, rk[p]));
            assert(!key_before(ks[n - 1], ks[p]));
        }
        assert(xs.take(n - 1).insert(p, xs[n - 1]) =~= xs.take(n as int));
        assert(rk.insert(p, k) =~= ks.take(n as int));
    }
}

/// Sorting is idempotent: items whose keys are already in order stay
/// exactly where they are, so sorting a sorted list again, with the same
/// inputs, gives the same order.
pub proof fn lemma_sort_idempotent<A>(xs: Seq<A>, ks: Seq<SortKey>)
    requires
        xs.len() == ks.len(),
    ensures
        keys_sorted(sorted_state(xs, ks, xs.len()).1),
        sort_by_keys(sort_by_keys(xs, ks), sorted_state(xs, ks, xs.len()).1) == sort_by_keys(xs, ks),
{
    lemma_sorted_state_sorted(xs, ks, xs.len());
    lemma_sorted_state_len(xs, ks, xs.len());
    let (rs, rk) = sorted_state(xs, ks, xs.len());
    lemma_sorted_state_identity(rs, rk, rs.len());
    assert(rs.take(rs.len() as int) =~= rs);
}

proof fn lemma_insert_multiset<A>(s: Seq<A>, p: int, x: A)
    requires
        0 <= p <= s.len(),
    ensures
        s.insert(p, x).to_multiset() == s.to_multiset().insert(x),
{
    broadcast use vstd::seq_lib::group_to_multiset_ensures;

    let a = s.take(p);
    let b = s.skip(p);
    assert(s.insert(p, x) =~= a + (seq![x] + b));
    assert(s =~= a + b);
    vstd::seq_lib::lemma_multiset_commutative(a, seq![x] + b);
    vstd::seq_lib::lemma_multiset_commutative(seq![x], b);
    vstd::seq_lib::lemma_multiset_commutative(a, b);
    assert(seq![x] =~= Seq::<A>::empty().push(x));
    assert(s.insert(p, x).to_multiset() =~= s.to_multiset().insert(x));
}

proof fn lemma_sorted_state_permutes<A>(xs: Seq<A>, ks: Seq<SortKey>, n: nat)
    requires
        n <= xs.len(),
        n <= ks.len(),
    ensures
        sorted_state(xs, ks, n).0.to_multiset() == xs.take(n as int).to_multiset(),
    decreases n,
{
    broadcast use vstd::seq_lib::group_to_multiset_ensures;

    if n == 0 {
        assert(xs.take(0) =~= Seq::<A>::empty());
    } else {
        lemma_sorted_state_permutes(xs, ks, (n - 1) as nat);
        lemma_sorted_state_len(xs, ks, (n - 1) as nat);
        let rk = sorted_state(xs, ks, (n - 1) as nat).1;
        lemma_insert_pos_bounds(rk, ks[n - 1], 0);
        let p = insert_pos(rk, ks[n - 1], 0);
        lemma_insert_multiset(sorted_state(xs, ks, (n - 1) as nat).0, p, xs[n - 1]);
        assert(xs.take(n as int) =~= xs.take(n - 1).push(xs[n - 1]));
    }
}

/// Sorting loses and duplicates nothing: the result holds exactly the
/// items it was given.
pub proof fn lemma_sort_permutes<A>(xs: Seq<A>, ks: Seq<SortKey>)
    requires
        xs.len() == ks.len(),
    ensures
        sort_by_keys(xs, ks).to_multiset() == xs.to_multiset(),
{
    lemma_sorted_state_permutes(xs, ks, xs.len());
    assert(xs.take(xs.len() as int) =~= xs);
}

/// Items paired with their keys.
pub open spec fn zip_keys<A>(xs: Seq<A>, ks: Seq<SortKey>) -> Seq<(A, SortKey)> {
    Seq::new(xs.len(), |i: int| (xs[i], ks[i]))
}

/// The items of `ps` whose key is `k`, in order.
pub open spec fn with_key<A>(ps: Seq<(A, SortKey)>, k: SortKey) -> Seq<A>
    decreases ps.len(),
{
    if ps.len() == 0 {
        seq![]
    } else if ps.last().1 == k {
        with_key(ps.drop_last(), k).push(ps.last().0)
    } else {
        with_key(ps.drop_last(), k)
    }
}

proof fn lemma_with_key_append<A>(a: Seq<(A, SortKey)>, b: Seq<(A, SortKey)>, k: SortKey)
    ensures
        with_key(a + b, k) == with_key(a, k) + with_key(b, k),
    decreases b.len(),
{
    if b.len() == 0 {
        assert(a + b =~= a);
        assert(with_key(a, k) + with_key(b, k) =~= with_key(a, k));
    } else {
        lemma_with_key_append(a, b.drop_last(), k);
        assert((a + b).drop_last() =~= a + b.drop_last());
        assert((a + b).last() == b.last());
        if b.last().1 == k {
            assert(with_key(a, k) + with_key(b.drop_last(), k).push(b.last().0) =~= (with_key(a, k)
                + with_key(b.drop_last(), k)).push(b.last().0));
        }
    }
}

proof fn lemma_with_key_none<A>(b: Seq<(A, SortKey)>, k: SortKey)
    requires
        forall|j: int| 0 <= j < b.len() ==> (#[trigger] b[j]).1 != k,
    ensures
        with_key(b, k) == Seq::<A>::empty(),
    decreases b.len(),
{
    if b.len() > 0 {
        assert forall|j: int| 0 <= j < b.drop_last().len() implies (#[trigger] b.drop_last()[j]).1 != k by {
            assert(b.drop_last()[j] == b[j]);
        }
        lemma_with_key_none(b.drop_last(), k);
        assert(b.last() == b[b.len() - 1]);
    }
}

proof fn lemma_sorted_state_stable<A>(xs: Seq<A>, ks: Seq<SortKey>, n: nat, k: SortKey)
    requires
        n <= xs.len(),
        n <= ks.len(),
    ensures
        with_key(zip_keys(sorted_state(xs, ks, n).0, sorted_state(xs, ks, n).1), k) == with_key(
            zip_keys(xs.take(n as int), ks.take(n as int)),
            k,
        ),
    decreases n,
{
    if n == 0 {
        assert(zip_keys(Seq::<A>::empty(), Seq::<SortKey>::empty()) =~= zip_keys(xs.take(0), ks.take(0)));
    } else {
        lemma_sorted_state_stable(xs, ks, (n - 1) as nat, k);
        lemma_sorted_state_len(xs, ks, (n - 1) as nat);
        lemma_sorted_state_sorted(xs, ks, (n - 1) as nat);
        let (rs, rk) = sorted_state(xs, ks, (n - 1) as nat);
        let x = xs[n - 1];
        let kx = ks[n - 1];
        lemma_insert_pos_bounds(rk, kx, 0);
        let p = insert_pos(rk, kx, 0);
        let z = zip_keys(rs, rk);
        let front = z.take(p);
        let back = z.skip(p);
        assert(zip_keys(rs.insert(p, x), rk.insert(p, kx)) =~= front + (seq![(x, kx)] + back));
        assert(z =~= front + back);
        lemma_with_key_append(front, seq![(x, kx)] + back, k);
        lemma_with_key_append(seq![(x, kx)], back, k);
        lemma_with_key_append(front, back, k);
        assert(seq![(x, kx)].drop_last() =~= Seq::<(A, SortKey)>::empty());
        assert(with_key(Seq::<(A, SortKey)>::empty(), k) =~= Seq::<A>::empty());
        assert(with_key(seq![(x, kx)].drop_last(), k) =~= Seq::<A>::empty());
        assert(seq![(x, kx)].last() == (x, kx));
        assert(zip_keys(xs.take(n as int), ks.take(n as int)) =~= zip_keys(xs.take(n - 1), ks.take(n - 1)).push((x, kx)));
        let inz = zip_keys(xs.take(n - 1), ks.take(n - 1));
        assert(inz.push((x, kx)).drop_last() =~= inz);
        assert(inz.push((x, kx)).last() == (x, kx));
        assert(sorted_state(xs, ks, n).0 == rs.insert(p, x));
        assert(sorted_state(xs, ks, n).1 == rk.insert(p, kx));
        assert(with_key(z, k) == with_key(inz, k));
        if k == kx {
            assert forall|j: int| 0 <= j < back.len() implies (#[trigger] back[j]).1 != k by {
                assert(back[j].1 == rk[p + j]);
                if j > 0 {
                    assert(!key_before(rk[p + j], rk[p]));
                }
            }
            lemma_with_key_none(back, k);
            assert(with_key(seq![(x, kx)], k) =~= seq![x]);
            assert(with_key(front, k) + (seq![x] + Seq::<A>::empty()) =~= (with_key(front, k) + Seq::<A>::empty()).push(x));
        } else {
            assert(with_key(seq![(x, kx)], k) =~= Seq::<A>::empty());
            assert(with_key(front, k) + (Seq::<A>::empty() + with_key(back, k)) =~= with_key(front, k) + with_key(back, k));
        }
    }
}

/// Sorting is stable: for every key, the items that carry it come out in
/// the order they went in.
pub proof fn lemma_sort_stable<A>(xs: Seq<A>, ks: Seq<SortKey>, k: SortKey)
    requires
        xs.len() == ks.len(),
    ensures
        with_key(zip_keys(sorted_state(xs, ks, xs.len()).0, sorted_state(xs, ks, xs.len()).1), k)
            == with_key(zip_keys(xs, ks), k),
{
    lemma_sorted_state_stable(xs, ks, xs.len(), k);
    assert(xs.take(xs.len() as int) =~= xs);
    assert(ks.take(ks.len() as int) =~= ks);
}

/// Sorts `items` stably by `keys`, item `i` having key `i`.
pub fn sort_with_keys(items: Vec<Suggestion>, keys: Vec<SortKey>) -> (r: (Vec<Suggestion>, Vec<SortKey>))
    requires
        items@.len() == keys@.len(),
    ensures
        (r.0@, r.1@) == sorted_state(items@, keys@, items@.len()),
{
    let ghost xs = items@;
    let ghost ks = keys@;
    let mut rest = items;
    let mut rs: Vec<Suggestion> = Vec::new();
    let mut rk: Vec<SortKey> = Vec::new();
    let mut n: usize = 0;
    let total = keys.len();
    assert(rest@ =~= xs.skip(0));
    while n < total
        invariant
            total == xs.len() == ks.len(),
            n <= total,
            keys@ == ks,
            rest@ == xs.skip(n as int),
            (rs@, rk@) == sorted_state(xs, ks, n as nat),
        decreases total - n,
    {
        proof {
            lemma_sorted_state_len(xs, ks, n as nat);
            lemma_insert_pos_bounds(rk@, ks[n as int], 0);
        }
        let k = keys[n];
        let mut p: usize = 0;
        while p < rk.len() && !key_goes_before(&k, &rk[p])
            invariant
                p <= rk@.len(),
                insert_pos(rk@, k, 0) == insert_pos(rk@, k, p as int),
            decreases rk@.len() - p,
        {
            p = p + 1;
        }
        let x = rest.remove(0);
        assert(x == xs[n as int]);
        assert(rest@ =~= xs.skip(n + 1));
        rs.insert(p, x);
        rk.insert(p, k);
        n = n + 1;
    }
    (rs, rk)
}

/// Whether key `a` goes strictly before key `b`.
pub fn key_goes_before(a: &SortKey, b: &SortKey) -> (r: bool)
    ensures
        r == key_before(*a, *b),
{
    if a.changed != b.changed {
        a.changed
    } else if a.blast != b.blast {
        a.blast
    } else if a.priority != b.priority {
        a.priority > b.priority
    } else if a.weight != b.weight {
        a.weight > b.weight
    } else {
        a.created > b.created
    }
}

/// Whether `paths` holds `p`.
pub fn contains_path(paths: &Vec<String>, p: &String) -> (r: bool)
    ensures
        r == paths.deep_view().contains(p@),
{
    let mut i: usize = 0;
    while i < paths.len()
        invariant
            i <= paths@.len(),
            forall|j: int| 0 <= j < i ==> paths.deep_view()[j] != p@,
        decreases paths@.len() - i,
    {
        if paths[i] == *p {
            assert(paths.deep_view()[i as int] == p@);
            return true;
        }
        i = i + 1;
    }
    false
}

/// The version-control context that ordering uses: files with uncommitted
/// changes, and the files one dependency hop away from them.
#[derive(Debug, Clone)]
pub struct SortContext {
    pub changed: Vec<String>,
    pub blast: Vec<String>,
}

/// The dependency edges of one file, as the indexer reports them.
#[derive(Debug, Clone)]
pub struct FileDeps {
    pub path: String,
    /// Files that import this one.
    pub used_by: Vec<String>,
    /// Files this one imports.
    pub depends_on: Vec<String>,
}

/// Whether `q` is one dependency hop, either way, from a changed file.
pub open spec fn one_hop(changed: Seq<Seq<char>>, deps: Seq<FileDeps>, q: Seq<char>) -> bool {
    exists|i: int|
        0 <= i < deps.len() && changed.contains(#[trigger] deps[i].path@) && (
        deps[i].used_by.deep_view().contains(q) || deps[i].depends_on.deep_view().contains(q))
}

proof fn lemma_push_contains(s: Seq<Seq<char>>, x: Seq<char>, q: Seq<char>)
    ensures
        s.push(x).contains(q) <==> (s.contains(q) || q == x),
{
    if s.contains(q) {
        let m = choose|m: int| 0 <= m < s.len() && s[m] == q;
        assert(s.push(x)[m] == q);
    }
    if q == x {
        assert(s.push(x)[s.len() as int] == q);
    }
    if s.push(x).contains(q) && q != x {
        let m = choose|m: int| 0 <= m < s.push(x).len() && s.push(x)[m] == q;
        assert(s[m] == q);
    }
}

/// Adds to `r` every path of `candidates` that `changed` does not hold.
fn add_unchanged(r: &mut Vec<String>, candidates: &Vec<String>, changed: &Vec<String>)
    ensures
        forall|q: Seq<char>| final(r).deep_view().contains(q) <==> (old(r).deep_view().contains(q) || (
            candidates.deep_view().contains(q) && !changed.deep_view().contains(q))),
{
    let ghost r0 = r.deep_view();
    let mut k: usize = 0;
    while k < candidates.len()
        invariant
            k <= candidates@.len(),
            forall|q: Seq<char>| r.deep_view().contains(q) <==> (r0.contains(q) || (
                candidates.deep_view().take(k as int).contains(q) && !changed.deep_view().contains(q))),
        decreases candidates@.len() - k,
    {
        let e = &candidates[k];
        let ghost rb = r.deep_view();
        let ghost ck = candidates.deep_view().take(k as int);
        let ghost ck1 = candidates.deep_view().take(k + 1);
        assert(ck1 =~= ck.push(e@));
        if !contains_path(changed, e) {
            r.push(e.clone());
            assert(r.deep_view() =~= rb.push(e@));
        }
        let ghost pushed = !changed.deep_view().contains(e@);
        assert(r.deep_view() == if pushed { rb.push(e@) } else { rb });
        assert forall|q: Seq<char>| r.deep_view().contains(q) <==> (r0.contains(q) || (
            ck1.contains(q) && !changed.deep_view().contains(q))) by {
            lemma_push_contains(ck, e@, q);
            lemma_push_contains(rb, e@, q);
            assert(rb.contains(q) <==> (r0.contains(q) || (ck.contains(q) && !changed.deep_view().contains(q))));
            assert(ck1.contains(q) <==> (ck.contains(q) || q == e@));
            if pushed {
                assert(r.deep_view().contains(q) <==> (rb.contains(q) || q == e@));
            } else {
                assert(r.deep_view().contains(q) <==> rb.contains(q));
            }
        }
        k = k + 1;
    }
    assert(candidates.deep_view().take(candidates@.len() as int) =~= candidates.deep_view());
}

/// The blast radius of the changed files: every file one dependency hop
/// away from one of them, in either direction, that is not itself changed.
pub fn blast_radius(changed: &Vec<String>, deps: &Vec<FileDeps>) -> (r: Vec<String>)
    ensures
        forall|q: Seq<char>| r.deep_view().contains(q) <==> (one_hop(changed.deep_view(), deps@, q)
            && !changed.deep_view().contains(q)),
{
    let mut r: Vec<String> = Vec::new();
    let mut i: usize = 0;
    while i < deps.len()
        invariant
            i <= deps@.len(),
            forall|q: Seq<char>| r.deep_view().contains(q) <==> (one_hop(changed.deep_view(), deps@.take(i as int), q)
                && !changed.deep_view().contains(q)),
        decreases deps@.len() - i,
    {
        let d = &deps[i];
        let ghost cv = changed.deep_view();
        let ghost dv = deps@.take(i + 1);
        let ghost dp = deps@.take(i as int);
        assert(dv[i as int] == *d);
        assert forall|q: Seq<char>| one_hop(cv, dv, q) <==> (one_hop(cv, dp, q) || (cv.contains(d.path@) && (
            d.used_by.deep_view().contains(q) || d.depends_on.deep_view().contains(q)))) by {
            if one_hop(cv, dv, q) {
                let j = choose|j: int| 0 <= j < dv.len() && cv.contains(#[trigger] dv[j].path@) && (
                    dv[j].used_by.deep_view().contains(q) || dv[j].depends_on.deep_view().contains(q));
                if j < i {
                    assert(dp[j] == dv[j]);
                }
            }
            if one_hop(cv, dp, q) {
                let j = choose|j: int| 0 <= j < dp.len() && cv.contains(#[trigger] dp[j].path@) && (
                    dp[j].used_by.deep_view().contains(q) || dp[j].depends_on.deep_view().contains(q));
                assert(dv[j] == dp[j]);
            }
        }
        if contains_path(changed, &d.path) {
            add_unchanged(&mut r, &d.used_by, changed);
            add_unchanged(&mut r, &d.depends_on, changed);
        }
        i = i + 1;
    }
    assert(deps@.take(deps@.len() as int) =~= deps@);
    r
}

impl SortContext {
    /// The context for the given changed files and dependency edges.
    pub fn new(changed: Vec<String>, deps: &Vec<FileDeps>) -> (r: SortContext)
        ensures
            r.changed == changed,
            forall|q: Seq<char>| r.blast.deep_view().contains(q) <==> (one_hop(changed.deep_view(), deps@, q)
                && !changed.deep_view().contains(q)),
    {
        let blast = blast_radius(&changed, deps);
        SortContext { changed, blast }
    }
}

/// The ordering key of a suggestion in a context.
pub open spec fn key_of(s: Suggestion, changed: Seq<Seq<char>>, blast: Seq<Seq<char>>) -> SortKey {
    SortKey {
        changed: changed.contains(s.file@),
        blast: blast.contains(s.file@),
        priority: priority_rank(s.priority),
        weight: kind_weight(s.kind),
        created: s.created_at,
    }
}

/// The ordering keys of a list of suggestions in a context.
pub open spec fn keys_of(s: Seq<Suggestion>, changed: Seq<Seq<char>>, blast: Seq<Seq<char>>) -> Seq<SortKey> {
    Seq::new(s.len(), |i: int| key_of(s[i], changed, blast))
}

proof fn lemma_sorted_keyed(xs: Seq<Suggestion>, ks: Seq<SortKey>, c: Seq<Seq<char>>, b: Seq<Seq<char>>, n: nat)
    requires
        n <= xs.len(),
        xs.len() == ks.len(),
        forall|i: int| 0 <= i < xs.len() ==> #[trigger] ks[i] == key_of(xs[i], c, b),
    ensures
        forall|j: int| 0 <= j < n ==> #[trigger] sorted_state(xs, ks, n).1[j] == key_of(sorted_state(xs, ks, n).0[j], c, b),
    decreases n,
{
    if n > 0 {
        lemma_sorted_keyed(xs, ks, c, b, (n - 1) as nat);
        lemma_sorted_state_len(xs, ks, (n - 1) as nat);
        let (rs, rk) = sorted_state(xs, ks, (n - 1) as nat);
        lemma_insert_pos_bounds(rk, ks[n - 1], 0);
        let p = insert_pos(rk, ks[n - 1], 0);
        assert(ks[n - 1] == key_of(xs[n - 1], c, b));
        assert forall|j: int| 0 <= j < n implies #[trigger] rk.insert(p, ks[n - 1])[j] == key_of(rs.insert(p, xs[n - 1])[j], c, b) by {
            if j < p {
                assert(rk.insert(p, ks[n - 1])[j] == rk[j]);
            } else if j > p {
                assert(rk.insert(p, ks[n - 1])[j] == rk[j - 1]);
            }
        }
    }
}

/// Ordering the store twice with the same context gives the same order as
/// ordering it once: the sort is stable and idempotent.
pub proof fn lemma_context_sort_idempotent(s: Seq<Suggestion>, changed: Seq<Seq<char>>, blast: Seq<Seq<char>>)
    ensures
        sort_by_keys(
            sort_by_keys(s, keys_of(s, changed, blast)),
            keys_of(sort_by_keys(s, keys_of(s, changed, blast)), changed, blast),
        ) == sort_by_keys(s, keys_of(s, changed, blast)),
{
    let ks = keys_of(s, changed, blast);
    lemma_sort_idempotent(s, ks);
    lemma_sorted_state_len(s, ks, s.len());
    lemma_sorted_keyed(s, ks, changed, blast, s.len());
    let (rs, rk) = sorted_state(s, ks, s.len());
    assert(rk =~= keys_of(rs, changed, blast));
}

/// The suggestions that are neither dismissed nor applied, in order.
pub open spec fn active_of(s: Seq<Suggestion>) -> Seq<Suggestion>
    decreases s.len(),
{
    if s.len() == 0 {
        seq![]
    } else if !s.last().dismissed && !s.last().applied {
        active_of(s.drop_last()).push(s.last())
    } else {
        active_of(s.drop_last())
    }
}

/// No active suggestion is dismissed or applied.
pub proof fn lemma_active_excludes_flagged(s: Seq<Suggestion>)
    ensures
        forall|i: int| 0 <= i < active_of(s).len() ==> !(#[trigger] active_of(s)[i]).dismissed && !active_of(s)[i].applied,
    decreases s.len(),
{
    if s.len() > 0 {
        lemma_active_excludes_flagged(s.drop_last());
    }
}

/// The first position at or after `j` of a suggestion with identifier `id`.
pub open spec fn position_of(s: Seq<Suggestion>, id: u128, j: int) -> Option<int>
    decreases s.len() - j,
{
    if j < 0 || j >= s.len() {
        None
    } else if s[j].id == id {
        Some(j)
    } else {
        position_of(s, id, j + 1)
    }
}

pub proof fn lemma_position_facts(s: Seq<Suggestion>, id: u128, j: int)
    requires
        0 <= j,
    ensures
        position_of(s, id, j) matches Some(p) ==> j <= p < s.len() && s[p].id == id,
    decreases s.len() - j,
{
    if j < s.len() && s[j].id != id {
        lemma_position_facts(s, id, j + 1);
    }
}

/// The list after setting one flag of the first suggestion with `id`;
/// unchanged when there is none.
pub open spec fn flagged(s: Seq<Suggestion>, id: u128, which: nat, value: bool) -> Seq<Suggestion> {
    match position_of(s, id, 0) {
        None => s,
        Some(p) => s.update(
            p,
            if which == 0 {
                Suggestion { dismissed: value, ..s[p] }
            } else {
                Suggestion { applied: value, ..s[p] }
            },
        ),
    }
}

/// How many active suggestions there are, in all and at each priority.
#[derive(Debug, Clone, Copy, Default, PartialEq, Eq, Structural)]
pub struct SuggestionCounts {
    pub total: usize,
    pub high: usize,
    pub medium: usize,
    pub low: usize,
}

pub open spec fn count_priority(s: Seq<Suggestion>, p: Priority) -> nat
    decreases s.len(),
{
    if s.len() == 0 {
        0
    } else {
        count_priority(s.drop_last(), p) + if s.last().priority == p {
            1nat
        } else {
            0nat
        }
    }
}

/// The suggestions of `s` with priority `p`, in order.
pub open spec fn with_priority(s: Seq<Suggestion>, p: Priority) -> Seq<Suggestion>
    decreases s.len(),
{
    if s.len() == 0 {
        seq![]
    } else if s.last().priority == p {
        with_priority(s.drop_last(), p).push(s.last())
    } else {
        with_priority(s.drop_last(), p)
    }
}

/// The summary, detail and priority of the refactoring suggestion for a
/// pattern; `None` for patterns that call for no refactoring.
pub open spec fn refactoring_advice(kind: PatternKind, description: Seq<char>) -> Option<(Seq<char>, Seq<char>, Priority)> {
    match kind {
        PatternKind::LongFunction => Some((
            "This function is "@ + description + " - consider breaking it into smaller, focused functions"@,
            "Long functions are harder to test, understand, and maintain. Look for logical sections that could become separate functions with clear names."@,
            Priority::Medium,
        )),
        PatternKind::DeepNesting => Some((
            "Deeply nested code makes logic hard to follow - consider early returns or extracting helpers"@,
            "Deep nesting often indicates complex conditional logic. Try using early returns (guard clauses) to reduce nesting, or extract nested blocks into well-named helper functions."@,
            Priority::Medium,
        )),
        PatternKind::ManyParameters => Some((
            description + " - consider grouping related parameters into a struct"@,
            "Functions with many parameters are hard to call correctly and suggest the function may be doing too much. Group related parameters into a configuration struct or builder pattern."@,
            Priority::Low,
        )),
        PatternKind::GodModule => Some((
            description + " - consider splitting into focused modules"@,
            "Large files are hard to navigate and often contain multiple responsibilities. Look for natural groupings of functions and types that could become separate modules."@,
            Priority::High,
        )),
        PatternKind::DuplicatePattern => Some((
            "Duplicate code pattern detected - consider extracting into a shared utility"@,
            "Repeated code makes maintenance harder and increases bug risk. Extract the common pattern into a reusable function or module."@,
            Priority::Medium,
        )),
        _ => None,
    }
}

/// Whether `s` is the refactoring suggestion for pattern `p`.
pub open spec fn suggests_for(s: Suggestion, p: Pattern) -> bool {
    refactoring_advice(p.kind, p.description@) matches Some((summary, detail, priority)) && s.kind
        == SuggestionKind::Refactoring && s.priority == priority && s.file@ == p.file@ && s.line == Some(
        p.line,
    ) && s.summary@ == summary && opt_text(s.detail) == Some(detail) && s.source
        == SuggestionSource::Static && !s.dismissed && !s.applied && s.additional_files@.len() == 0
}

/// Whether `added` holds one suggestion for each pattern of `ps` that calls
/// for refactoring, in order.
pub open spec fn static_batch(ps: Seq<Pattern>, added: Seq<Suggestion>) -> bool
    decreases ps.len(),
{
    if ps.len() == 0 {
        added.len() == 0
    } else if refactoring_advice(ps.last().kind, ps.last().description@) is Some {
        added.len() > 0 && suggests_for(added.last(), ps.last()) && static_batch(ps.drop_last(), added.drop_last())
    } else {
        static_batch(ps.drop_last(), added)
    }
}

/// The refactoring suggestion for a detected pattern, if it calls for one.
pub fn pattern_to_refactoring_suggestion(pattern: &Pattern) -> (r: Option<Suggestion>)
    ensures
        r is Some <==> refactoring_advice(pattern.kind, pattern.description@) is Some,
        r matches Some(s) ==> suggests_for(s, *pattern),
{
    let (summary, detail, priority) = match pattern.kind {
        PatternKind::LongFunction => {
            let mut summary = String::from_str("This function is ");
            push_str(&mut summary, pattern.description.as_str());
            push_str(&mut summary, " - consider breaking it into smaller, focused functions");
            (
                summary,
                "Long functions are harder to test, understand, and maintain. Look for logical sections that could become separate functions with clear names.",
                Priority::Medium,
            )
        },
        PatternKind::DeepNesting => (
            String::from_str("Deeply nested code makes logic hard to follow - consider early returns or extracting helpers"),
            "Deep nesting often indicates complex conditional logic. Try using early returns (guard clauses) to reduce nesting, or extract nested blocks into well-named helper functions.",
            Priority::Medium,
        ),
        PatternKind::ManyParameters => {
            let mut summary = pattern.description.clone();
            push_str(&mut summary, " - consider grouping related parameters into a struct");
            (
                summary,
                "Functions with many parameters are hard to call correctly and suggest the function may be doing too much. Group related parameters into a configuration struct or builder pattern.",
                Priority::Low,
            )
        },
        PatternKind::GodModule => {
            let mut summary = pattern.description.clone();
            push_str(&mut summary, " - consider splitting into focused modules");
            (
                summary,
                "Large files are hard to navigate and often contain multiple responsibilities. Look for natural groupings of functions and types that could become separate modules.",
                Priority::High,
            )
        },
        PatternKind::DuplicatePattern => (
            String::from_str("Duplicate code pattern detected - consider extracting into a shared utility"),
            "Repeated code makes maintenance harder and increases bug risk. Extract the common pattern into a reusable function or module.",
            Priority::Medium,
        ),
        _ => return None,
    };
    Some(
        Suggestion::new(
            SuggestionKind::Refactoring,
            priority,
            pattern.file.clone(),
            summary,
            SuggestionSource::Static,
        ).with_line(pattern.line).with_detail(String::from_str(detail)),
    )
}

/// The suggestion store, with the version-control context it was last
/// ordered for.
#[derive(Debug)]
pub struct SuggestionEngine {
    pub suggestions: Vec<Suggestion>,
    pub context: SortContext,
}

/// `s` in the order that `ctx` gives.
pub open spec fn ordered(s: Seq<Suggestion>, ctx: SortContext) -> Seq<Suggestion> {
    sort_by_keys(s, keys_of(s, ctx.changed.deep_view(), ctx.blast.deep_view()))
}

impl SuggestionEngine {
    /// An empty store.
    pub fn new() -> (r: SuggestionEngine)
        ensures
            r.suggestions@.len() == 0,
            r.context.changed@.len() == 0,
            r.context.blast@.len() == 0,
    {
        SuggestionEngine {
            suggestions: Vec::new(),
            context: SortContext { changed: Vec::new(), blast: Vec::new() },
        }
    }

    /// Every suggestion that is neither dismissed nor applied, in the
    /// current order.
    pub fn active_suggestions(&self) -> (r: Vec<&Suggestion>)
        ensures
            Seq::new(r@.len(), |i: int| *r@[i]) == active_of(self.suggestions@),
            forall|i: int| 0 <= i < r@.len() ==> !(#[trigger] r@[i]).dismissed && !r@[i].applied,
    {
        let mut r: Vec<&Suggestion> = Vec::new();
        let mut i: usize = 0;
        while i < self.suggestions.len()
            invariant
                i <= self.suggestions@.len(),
                Seq::new(r@.len(), |k: int| *r@[k]) == active_of(self.suggestions@.take(i as int)),
            decreases self.suggestions@.len() - i,
        {
            let s = &self.suggestions[i];
            assert(self.suggestions@.take(i + 1).drop_last() =~= self.suggestions@.take(i as int));
            if !s.dismissed && !s.applied {
                let ghost before = Seq::new(r@.len(), |k: int| *r@[k]);
                r.push(s);
                assert(Seq::new(r@.len(), |k: int| *r@[k]) =~= before.push(*s));
            } else {
                assert(Seq::new(r@.len(), |k: int| *r@[k]) =~= active_of(self.suggestions@.take(i + 1)));
            }
            i = i + 1;
        }
        assert(self.suggestions@.take(self.suggestions@.len() as int) =~= self.suggestions@);
        proof {
            lemma_active_excludes_flagged(self.suggestions@);
            assert forall|i: int| 0 <= i < r@.len() implies !(#[trigger] r@[i]).dismissed && !r@[i].applied by {
                assert(*r@[i] == active_of(self.suggestions@)[i]);
            }
        }
        r
    }

    /// The active suggestions of high priority, in order.
    pub fn high_priority_suggestions(&self) -> (r: Vec<&Suggestion>)
        ensures
            Seq::new(r@.len(), |i: int| *r@[i]) == with_priority(active_of(self.suggestions@), Priority::High),
    {
        let active = self.active_suggestions();
        let ghost av = Seq::new(active@.len(), |k: int| *active@[k]);
        let mut r: Vec<&Suggestion> = Vec::new();
        let mut i: usize = 0;
        while i < active.len()
            invariant
                i <= active@.len(),
                av == Seq::new(active@.len(), |k: int| *active@[k]),
                Seq::new(r@.len(), |k: int| *r@[k]) == with_priority(av.take(i as int), Priority::High),
            decreases active@.len() - i,
        {
            let s = active[i];
            assert(av.take(i + 1).drop_last() =~= av.take(i as int));
            assert(av.take(i + 1).last() == *s);
            let ghost before = Seq::new(r@.len(), |k: int| *r@[k]);
            if s.priority == Priority::High {
                r.push(s);
                assert(Seq::new(r@.len(), |k: int| *r@[k]) =~= before.push(*s));
            }
            i = i + 1;
        }
        assert(av.take(active@.len() as int) =~= av);
        r
    }

    fn set_flag(&mut self, id: u128, which: u8, value: bool)
        requires
            which <= 1,
        ensures
            final(self).suggestions@ == flagged(old(self).suggestions@, id, which as nat, value),
    {
        let mut i: usize = 0;
        while i < self.suggestions.len()
            invariant
                i <= self.suggestions@.len(),
                self.suggestions@ == old(self).suggestions@,
                position_of(self.suggestions@, id, 0) == position_of(self.suggestions@, id, i as int),
            decreases self.suggestions@.len() - i,
        {
            if self.suggestions[i].id == id {
                if which == 0 {
                    self.suggestions[i].dismissed = value;
                } else {
                    self.suggestions[i].applied = value;
                }
                return;
            }
            i = i + 1;
        }
    }

    /// Marks the first suggestion with `id` as dismissed; nothing happens
    /// when there is none.
    pub fn dismiss(&mut self, id: u128)
        ensures
            final(self).suggestions@ == flagged(old(self).suggestions@, id, 0, true),
    {
        self.set_flag(id, 0, true);
    }

    /// Marks the first suggestion with `id` as applied; nothing happens when
    /// there is none.
    pub fn mark_applied(&mut self, id: u128)
        ensures
            final(self).suggestions@ == flagged(old(self).suggestions@, id, 1, true),
    {
        self.set_flag(id, 1, true);
    }

    /// Clears the applied flag of the first suggestion with `id` (an undo);
    /// nothing happens when there is none.
    pub fn unmark_applied(&mut self, id: u128)
        ensures
            final(self).suggestions@ == flagged(old(self).suggestions@, id, 1, false),
    {
        self.set_flag(id, 1, false);
    }

    /// Adds a refactoring suggestion for each detected pattern that calls for
    /// one, then re-sorts by priority.
    pub fn generate_static_suggestions(&mut self, patterns: &Vec<Pattern>)
        ensures
            exists|added: Seq<Suggestion>| static_batch(patterns@, added) && final(self).suggestions@
                == ordered(old(self).suggestions@ + added, old(self).context),
            final(self).context == old(self).context,
    {
        let ghost start = self.suggestions@;
        let ghost mut added: Seq<Suggestion> = seq![];
        let mut i: usize = 0;
        while i < patterns.len()
            invariant
                i <= patterns@.len(),
                static_batch(patterns@.take(i as int), added),
                self.suggestions@ == start + added,
                self.context == old(self).context,
            decreases patterns@.len() - i,
        {
            assert(patterns@.take(i + 1).drop_last() =~= patterns@.take(i as int));
            assert(patterns@.take(i + 1).last() == patterns@[i as int]);
            match pattern_to_refactoring_suggestion(&patterns[i]) {
                Some(s) => {
                    proof {
                        assert(added.push(s).drop_last() =~= added);
                        added = added.push(s);
                    }
                    self.suggestions.push(s);
                    assert(self.suggestions@ =~= start + added);
                },
                None => {},
            }
            i = i + 1;
        }
        assert(patterns@.take(patterns@.len() as int) =~= patterns@);
        self.resort();
    }

    /// Adds a generated suggestion, then re-sorts for the current context.
    pub fn add_llm_suggestion(&mut self, suggestion: Suggestion)
        ensures
            final(self).suggestions@ == ordered(old(self).suggestions@.push(suggestion), old(self).context),
            final(self).context == old(self).context,
    {
        self.suggestions.push(suggestion);
        self.resort();
    }

    /// Orders the suggestions for the given context, which the store keeps
    /// for later additions: files with uncommitted changes first, then files
    /// in their blast radius, then by priority, kind weight and recency. The
    /// sort is stable.
    pub fn sort_with_context(&mut self, context: &SortContext)
        ensures
            final(self).suggestions@ == ordered(old(self).suggestions@, *context),
            final(self).context.changed.deep_view() == context.changed.deep_view(),
            final(self).context.blast.deep_view() == context.blast.deep_view(),
    {
        self.context = SortContext { changed: copy_strings(&context.changed), blast: copy_strings(&context.blast) };
        self.resort();
    }

    /// Re-sorts the suggestions for the stored context.
    fn resort(&mut self)
        ensures
            final(self).suggestions@ == ordered(old(self).suggestions@, old(self).context),
            final(self).context == old(self).context,
    {
        let mut items: Vec<Suggestion> = Vec::new();
        core::mem::swap(&mut items, &mut self.suggestions);
        let ghost cv = self.context.changed.deep_view();
        let ghost bv = self.context.blast.deep_view();
        let mut keys: Vec<SortKey> = Vec::new();
        let mut i: usize = 0;
        while i < items.len()
            invariant
                i <= items@.len(),
                cv == self.context.changed.deep_view(),
                bv == self.context.blast.deep_view(),
                keys@ == keys_of(items@, cv, bv).take(i as int),
            decreases items@.len() - i,
        {
            let s = &items[i];
            let k = SortKey {
                changed: contains_path(&self.context.changed, &s.file),
                blast: contains_path(&self.context.blast, &s.file),
                priority: s.priority.rank(),
                weight: s.kind.weight(),
                created: s.created_at,
            };
            keys.push(k);
            assert(keys@ =~= keys_of(items@, cv, bv).take(i + 1));
            i = i + 1;
        }
        assert(keys_of(items@, cv, bv).take(items@.len() as int) =~= keys_of(items@, cv, bv));
        let (sorted, _) = sort_with_keys(items, keys);
        self.suggestions = sorted;
    }

    /// How many active suggestions there are, in all and per priority.
    pub fn counts(&self) -> (r: SuggestionCounts)
        ensures
            r.total == active_of(self.suggestions@).len(),
            r.high == count_priority(active_of(self.suggestions@), Priority::High),
            r.medium == count_priority(active_of(self.suggestions@), Priority::Medium),
            r.low == count_priority(active_of(self.suggestions@), Priority::Low),
    {
        let active = self.active_suggestions();
        let ghost av = Seq::new(active@.len(), |k: int| *active@[k]);
        let mut c = SuggestionCounts { total: active.len(), high: 0, medium: 0, low: 0 };
        let mut i: usize = 0;
        while i < active.len()
            invariant
                i <= active@.len(),
                av == Seq::new(active@.len(), |k: int| *active@[k]),
                c.total == active@.len(),
                c.high == count_priority(av.take(i as int), Priority::High),
                c.medium == count_priority(av.take(i as int), Priority::Medium),
                c.low == count_priority(av.take(i as int), Priority::Low),
                c.high + c.medium + c.low == i,
            decreases active@.len() - i,
        {
            let s = active[i];
            assert(av.take(i + 1).drop_last() =~= av.take(i as int));
            assert(av.take(i + 1).last() == *s);
            match s.priority {
                Priority::High => c.high = c.high + 1,
                Priority::Medium => c.medium = c.medium + 1,
                Priority::Low => c.low = c.low + 1,
            }
            i = i + 1;
        }
        assert(av.take(active@.len() as int) =~= av);
        c
    }
}

} // verus!
