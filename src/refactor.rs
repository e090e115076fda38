//! Multi-file refactoring plans: their text format, and their transactional
//! application to a workspace of files.
use crate::diff::{apply_diff_to_content, diff_of, parse_unified_diff, patched, HunkView, UnifiedDiff};
use crate::text::{
    chars_of, ends_with, find, find_from, has_suffix, join_lines, join_with, lines, lines_of,
    push_str, slice_range, starts_with, string_of, trim_end_all, trim_end_matches, trim_start_all,
    trim_start_matches,
};
use vstd::prelude::*;
use crate::workspace::Workspace;
use crate::text::{decimal_digits, push_char, push_decimal};
use crate::diff::{DiffLine, DiffLineView};
use vstd::string::StringExecFns;

verus! {

/// A single file operation in a refactoring plan.
#[derive(Debug, Clone)]
pub enum FileOperation {
    /// Create a file with the given content (replacing any file there).
    Create { path: String, content: String },
    /// Modify an existing file with a unified diff.
    Modify { path: String, diff: UnifiedDiff },
    /// Delete a file, if present.
    Delete { path: String },
    /// Move a file to a new path.
    Rename { from: String, to: String },
}

/// A file operation as a value.
pub enum FileOperationView {
    Create { path: Seq<char>, content: Seq<char> },
    Modify { path: Seq<char>, diff: Seq<HunkView> },
    Delete { path: Seq<char> },
    Rename { from: Seq<char>, to: Seq<char> },
}

impl View for FileOperation {
    type V = FileOperationView;

    open spec fn view(&self) -> FileOperationView {
        match self {
            FileOperation::Create { path, content } => FileOperationView::Create {
                path: path@,
                content: content@,
            },
            FileOperation::Modify { path, diff } => FileOperationView::Modify {
                path: path@,
                diff: diff@,
            },
            FileOperation::Delete { path } => FileOperationView::Delete { path: path@ },
            FileOperation::Rename { from, to } => FileOperationView::Rename { from: from@, to: to@ },
        }
    }
}

pub open spec fn ops_view(v: Seq<FileOperation>) -> Seq<FileOperationView> {
    Seq::new(v.len(), |i: int| v[i]@)
}

/// A complete refactoring plan: a description and operations applied in order.
#[derive(Debug, Clone)]
pub struct RefactorPlan {
    pub description: String,
    pub operations: Vec<FileOperation>,
}

impl View for RefactorPlan {
    type V = Seq<FileOperationView>;

    open spec fn view(&self) -> Seq<FileOperationView> {
        ops_view(self.operations@)
    }
}

// ---------------------------------------------------------------------------
// The plan text format
// ---------------------------------------------------------------------------

/// The path named by a header line `<open>path ===`.
pub open spec fn header_path(l: Seq<char>, open: Seq<char>) -> Option<Seq<char>> {
    if starts_with(l, open) && ends_with(l, " ==="@) {
        Some(trim_end_all(trim_start_all(l, open), " ==="@))
    } else {
        None
    }
}

/// An operation whose body lines are still being read.
pub enum PendingView {
    Create(Seq<char>),
    Modify(Seq<char>),
}

/// Operations read so far, the one in progress and its body lines.
pub struct PlanParse {
    pub ops: Seq<FileOperationView>,
    pub current: Option<PendingView>,
    pub content: Seq<Seq<char>>,
}

/// The operation that a pending header and its body lines make; `None`
/// when a modify body is not a valid diff.
pub open spec fn finalize_view(p: PendingView, content: Seq<Seq<char>>) -> Option<FileOperationView> {
    match p {
        PendingView::Create(path) => Some(
            FileOperationView::Create { path, content: join_with(content, '\n') },
        ),
        PendingView::Modify(path) => match diff_of(join_with(content, '\n')) {
            Ok(d) => Some(FileOperationView::Modify { path, diff: d }),
            Err(_) => None,
        },
    }
}

/// The operations once the one in progress, if any, is finished.
pub open spec fn flush(st: PlanParse) -> Option<Seq<FileOperationView>> {
    match st.current {
        None => Some(st.ops),
        Some(p) => match finalize_view(p, st.content) {
            Some(op) => Some(st.ops.push(op)),
            None => None,
        },
    }
}

/// The operations after a `RENAME` header naming `part`; a header without
/// ` -> ` adds nothing.
pub open spec fn with_rename(ops: Seq<FileOperationView>, part: Seq<char>) -> Seq<FileOperationView> {
    match find_from(part, " -> "@, 0) {
        Some(k) => ops.push(
            FileOperationView::Rename { from: part.take(k), to: part.skip(k + " -> "@.len()) },
        ),
        None => ops,
    }
}

/// Reading one line of plan text. `None`: an operation could not be finished.
pub open spec fn plan_step(st: PlanParse, l: Seq<char>) -> Option<PlanParse> {
    if header_path(l, "=== CREATE "@) is Some {
        match flush(st) {
            None => None,
            Some(ops) => Some(
                PlanParse {
                    ops,
                    current: Some(PendingView::Create(header_path(l, "=== CREATE "@)->0)),
                    content: seq![],
                },
            ),
        }
    } else if header_path(l, "=== MODIFY "@) is Some {
        match flush(st) {
            None => None,
            Some(ops) => Some(
                PlanParse {
                    ops,
                    current: Some(PendingView::Modify(header_path(l, "=== MODIFY "@)->0)),
                    content: seq![],
                },
            ),
        }
    } else if header_path(l, "=== DELETE "@) is Some {
        match flush(st) {
            None => None,
            Some(ops) => Some(
                PlanParse {
                    ops: ops.push(
                        FileOperationView::Delete { path: header_path(l, "=== DELETE "@)->0 },
                    ),
                    current: None,
                    content: seq![],
                },
            ),
        }
    } else if header_path(l, "=== RENAME "@) is Some {
        match flush(st) {
            None => None,
            Some(ops) => Some(
                PlanParse {
                    ops: with_rename(ops, header_path(l, "=== RENAME "@)->0),
                    current: None,
                    content: seq![],
                },
            ),
        }
    } else if st.current is Some {
        Some(PlanParse { content: st.content.push(l), ..st })
    } else {
        Some(st)
    }
}

/// The parse after the first `n` lines.
pub open spec fn plan_state(ls: Seq<Seq<char>>, n: nat) -> Option<PlanParse>
    decreases n,
{
    if n == 0 || n > ls.len() {
        Some(PlanParse { ops: seq![], current: None, content: seq![] })
    } else {
        match plan_state(ls, (n - 1) as nat) {
            None => None,
            Some(st) => plan_step(st, ls[n - 1]),
        }
    }
}

/// The operations of a plan text; `None` when an operation is malformed or
/// the text holds none.
pub open spec fn plan_of(text: Seq<char>) -> Option<Seq<FileOperationView>> {
    let ls = lines_of(text);
    match plan_state(ls, ls.len()) {
        None => None,
        Some(st) => match flush(st) {
            None => None,
            Some(ops) => if ops.len() == 0 {
                None
            } else {
                Some(ops)
            },
        },
    }
}

proof fn lemma_plan_fail_sticks(ls: Seq<Seq<char>>, n: nat, m: nat)
    requires
        n <= m <= ls.len(),
        plan_state(ls, n) is None,
    ensures
        plan_state(ls, m) is None,
    decreases m - n,
{
    if n < m {
        lemma_plan_fail_sticks(ls, n, (m - 1) as nat);
    }
}

/// An operation whose body lines are still being read.
#[derive(Debug)]
enum PendingOp {
    Create { path: String },
    Modify { path: String },
}

impl View for PendingOp {
    type V = PendingView;

    closed spec fn view(&self) -> PendingView {
        match self {
            PendingOp::Create { path } => PendingView::Create(path@),
            PendingOp::Modify { path } => PendingView::Modify(path@),
        }
    }
}

spec fn opt_pending_view(o: Option<PendingOp>) -> Option<PendingView> {
    match o {
        Some(p) => Some(p@),
        None => None,
    }
}

/// Finishes a pending operation with its body lines.
fn finalize_op(op: PendingOp, lines: &Vec<String>) -> (r: Result<FileOperation, String>)
    ensures
        r matches Ok(o) ==> finalize_view(op@, lines.deep_view()) == Some(o@),
        r is Err ==> finalize_view(op@, lines.deep_view()) is None,
{
    match op {
        PendingOp::Create { path } => {
            let content = join_lines(lines);
            Ok(FileOperation::Create { path, content })
        },
        PendingOp::Modify { path } => {
            let diff_text = join_lines(lines);
            match parse_unified_diff(diff_text.as_str()) {
                Ok(diff) => Ok(FileOperation::Modify { path, diff }),
                Err(e) => Err(e),
            }
        },
    }
}

/// The path of a header line `<open>path ===`, if `l` is one.
fn header_path_exec(l: &[char], open: &str) -> (r: Option<String>)
    ensures
        r matches Some(p) ==> header_path(l@, open@) == Some(p@),
        r is None ==> header_path(l@, open@) is None,
{
    if crate::text::has_prefix(l, open) && has_suffix(l, " ===") {
        let a = trim_start_matches(l, open);
        let b = trim_end_matches(&a, " ===");
        Some(string_of(&b))
    } else {
        None
    }
}

/// Parses plan text into a [`RefactorPlan`].
///
/// The text is a series of sections, each opened by a header line:
/// `=== CREATE path ===` followed by the new file's lines,
/// `=== MODIFY path ===` followed by a unified diff,
/// `=== DELETE path ===`, or `=== RENAME old -> new ===`.
/// Lines outside a create or modify section are ignored.
#[verifier::loop_isolation(false)]
pub fn parse_multi_file_diff(input: &str) -> (r: Result<RefactorPlan, String>)
    ensures
        r matches Ok(p) ==> plan_of(input@) == Some(p@),
        r is Err ==> plan_of(input@) is None,
{
    let mut plan = RefactorPlan::new("AI-generated refactoring plan");
    let mut current: Option<PendingOp> = None;
    let mut content_lines: Vec<String> = Vec::new();
    let ls = lines(input);
    let ghost lsv = ls.deep_view();
    assert(plan@ =~= seq![]);
    assert(content_lines.deep_view() =~= seq![]);
    let mut i: usize = 0;
    while i < ls.len()
        invariant
            i <= ls@.len(),
            plan_state(lsv, i as nat) == Some(
                PlanParse {
                    ops: plan@,
                    current: opt_pending_view(current),
                    content: content_lines.deep_view(),
                },
            ),
        decreases ls@.len() - i,
    {
        let line = &ls[i];
        let l = chars_of(line.as_str());
        assert(l@ == lsv[i as int]);
        let ghost st = PlanParse {
            ops: plan@,
            current: opt_pending_view(current),
            content: content_lines.deep_view(),
        };
        let create = header_path_exec(&l, "=== CREATE ");
        let modify = if create.is_none() {
            header_path_exec(&l, "=== MODIFY ")
        } else {
            None
        };
        let delete = if create.is_none() && modify.is_none() {
            header_path_exec(&l, "=== DELETE ")
        } else {
            None
        };
        let rename = if create.is_none() && modify.is_none() && delete.is_none() {
            header_path_exec(&l, "=== RENAME ")
        } else {
            None
        };
        if create.is_some() || modify.is_some() || delete.is_some() || rename.is_some() {
            // Finish the operation in progress.
            if let Some(op) = current {
                match finalize_op(op, &content_lines) {
                    Ok(o) => {
                        let ghost before = plan@;
                        plan.operations.push(o);
                        assert(plan@ =~= before.push(o@));
                    },
                    Err(e) => {
                        proof {
                            lemma_plan_fail_sticks(lsv, (i + 1) as nat, lsv.len());
                        }
                        return Err(e);
                    },
                }
            }
            assert(Some(plan@) == flush(st));
            content_lines = Vec::new();
            assert(content_lines.deep_view() =~= seq![]);
            current = None;
            if let Some(path) = create {
                current = Some(PendingOp::Create { path });
            } else if let Some(path) = modify {
                current = Some(PendingOp::Modify { path });
            } else if let Some(path) = delete {
                let ghost before = plan@;
                let o = FileOperation::Delete { path };
                plan.operations.push(o);
                assert(plan@ =~= before.push(o@));
            } else if let Some(part) = rename {
                let pv = chars_of(part.as_str());
                let arrow = chars_of(" -> ");
                let pl = pv.len();
                match find(&pv, &arrow) {
                    Some(k) => {
                        let from = string_of(&slice_range(&pv, 0, k));
                        let to = string_of(&slice_range(&pv, k + arrow.len(), pv.len()));
                        assert(from@ =~= pv@.take(k as int));
                        assert(to@ =~= pv@.skip(k + " -> "@.len()));
                        let ghost before = plan@;
                        let o = FileOperation::Rename { from, to };
                        plan.operations.push(o);
                        assert(plan@ =~= before.push(o@));
                    },
                    None => {},
                }
            }
        } else if current.is_some() {
            let ghost before = content_lines.deep_view();
            content_lines.push(line.clone());
            assert(content_lines.deep_view() =~= before.push(l@));
        }
        i = i + 1;
    }
    if let Some(op) = current {
        let ghost st = PlanParse {
            ops: plan@,
            current: Some(op@),
            content: content_lines.deep_view(),
        };
        match finalize_op(op, &content_lines) {
            Ok(o) => {
                let ghost before = plan@;
                plan.operations.push(o);
                assert(plan@ =~= before.push(o@));
            },
            Err(e) => {
                return Err(e);
            },
        }
    }
    if plan.operations.len() == 0 {
        return Err(String::from_str("No operations found in refactoring plan"));
    }
    Ok(plan)
}

/// How many operations of each kind a plan holds.
#[derive(Debug, Clone, Copy, Default, PartialEq, Eq, Structural)]
pub struct RefactorStats {
    pub creates: usize,
    pub modifies: usize,
    pub deletes: usize,
    pub renames: usize,
}

/// Which kind an operation is: 0 create, 1 modify, 2 delete, 3 rename.
pub open spec fn op_kind(op: FileOperationView) -> nat {
    match op {
        FileOperationView::Create { .. } => 0,
        FileOperationView::Modify { .. } => 1,
        FileOperationView::Delete { .. } => 2,
        FileOperationView::Rename { .. } => 3,
    }
}

/// How many of `ops` are of kind `kind`.
pub open spec fn count_kind(ops: Seq<FileOperationView>, kind: nat) -> nat
    decreases ops.len(),
{
    if ops.len() == 0 {
        0
    } else {
        count_kind(ops.drop_last(), kind) + if op_kind(ops.last()) == kind {
            1nat
        } else {
            0nat
        }
    }
}

proof fn lemma_count_le(ops: Seq<FileOperationView>, kind: nat)
    ensures
        count_kind(ops, kind) <= ops.len(),
    decreases ops.len(),
{
    if ops.len() > 0 {
        lemma_count_le(ops.drop_last(), kind);
    }
}

/// The path an operation is about (for a rename, its source).
pub open spec fn op_path(op: FileOperationView) -> Seq<char> {
    match op {
        FileOperationView::Create { path, .. } => path,
        FileOperationView::Modify { path, .. } => path,
        FileOperationView::Delete { path } => path,
        FileOperationView::Rename { from, .. } => from,
    }
}

/// The name of an operation's kind.
pub open spec fn op_type_name(op: FileOperationView) -> Seq<char> {
    match op {
        FileOperationView::Create { .. } => "CREATE"@,
        FileOperationView::Modify { .. } => "MODIFY"@,
        FileOperationView::Delete { .. } => "DELETE"@,
        FileOperationView::Rename { .. } => "RENAME"@,
    }
}

/// The display lines of one hunk: its header, then each line behind its marker.
pub open spec fn hunk_preview(h: HunkView) -> Seq<Seq<char>> {
    seq![
        "@@ -"@ + decimal_digits(h.old_start) + seq![','] + decimal_digits(h.old_count) + " +"@
            + decimal_digits(h.new_start) + seq![','] + decimal_digits(h.new_count) + " @@"@,
    ] + Seq::new(h.lines.len(), |i: int| marked_line(h.lines[i]))
}

pub open spec fn marked_line(d: DiffLineView) -> Seq<char> {
    match d {
        DiffLineView::Add(s) => seq!['+'] + s,
        DiffLineView::Remove(s) => seq!['-'] + s,
        DiffLineView::Context(s) => seq![' '] + s,
    }
}

/// The display lines of every hunk, in order.
pub open spec fn hunks_preview(hs: Seq<HunkView>) -> Seq<Seq<char>>
    decreases hs.len(),
{
    if hs.len() == 0 {
        seq![]
    } else {
        hunks_preview(hs.drop_last()) + hunk_preview(hs.last())
    }
}

pub open spec fn first_n(ls: Seq<Seq<char>>, n: nat) -> Seq<Seq<char>> {
    if ls.len() <= n {
        ls
    } else {
        ls.take(n as int)
    }
}

/// At most twenty display lines describing an operation.
pub open spec fn preview_view(op: FileOperationView) -> Seq<Seq<char>> {
    match op {
        FileOperationView::Create { content, .. } => {
            let ls = first_n(lines_of(content), 20);
            Seq::new(ls.len(), |i: int| seq!['+'] + ls[i])
        },
        FileOperationView::Modify { diff, .. } => first_n(hunks_preview(diff), 20),
        FileOperationView::Delete { path } => seq!["Delete file: "@ + path],
        FileOperationView::Rename { from, to } => seq![from + " -> "@ + to],
    }
}

impl FileOperation {
    /// The path this operation is about (for a rename, its source).
    pub fn path(&self) -> (r: &str)
        ensures
            r@ == op_path(self@),
    {
        match self {
            FileOperation::Create { path, .. } => path.as_str(),
            FileOperation::Modify { path, .. } => path.as_str(),
            FileOperation::Delete { path } => path.as_str(),
            FileOperation::Rename { from, .. } => from.as_str(),
        }
    }

    /// `CREATE`, `MODIFY`, `DELETE` or `RENAME`.
    pub fn operation_type(&self) -> (r: &'static str)
        ensures
            r@ == op_type_name(self@),
    {
        match self {
            FileOperation::Create { .. } => "CREATE",
            FileOperation::Modify { .. } => "MODIFY",
            FileOperation::Delete { .. } => "DELETE",
            FileOperation::Rename { .. } => "RENAME",
        }
    }

    /// Up to twenty lines showing what the operation does: the new file's
    /// lines marked `+`, the hunks of a diff, or one line for a delete or
    /// rename.
    pub fn preview_lines(&self) -> (r: Vec<String>)
        ensures
            r.deep_view() == preview_view(self@),
    {
        match self {
            FileOperation::Create { content, .. } => {
                let ls = lines(content.as_str());
                let ghost lv = first_n(ls.deep_view(), 20);
                let mut r: Vec<String> = Vec::new();
                let mut i: usize = 0;
                while i < ls.len() && i < 20
                    invariant
                        i <= ls@.len(),
                        i <= 20,
                        lv == first_n(ls.deep_view(), 20),
                        r.deep_view() == Seq::new(i as nat, |k: int| seq!['+'] + ls.deep_view()[k]),
                    decreases ls@.len() - i,
                {
                    let mut line = String::new();
                    push_char(&mut line, '+');
                    push_str(&mut line, ls[i].as_str());
                    let ghost before = r.deep_view();
                    r.push(line);
                    assert(r.deep_view() =~= before.push(line@));
                    assert(r.deep_view() =~= Seq::new((i + 1) as nat, |k: int| seq!['+'] + ls.deep_view()[k]));
                    i = i + 1;
                }
                assert(r.deep_view() =~= preview_view(self@));
                r
            },
            FileOperation::Modify { diff, .. } => {
                let mut all: Vec<String> = Vec::new();
                let mut h: usize = 0;
                assert(all.deep_view() =~= hunks_preview(diff@.take(0)));
                while h < diff.hunks.len()
                    invariant
                        h <= diff.hunks@.len(),
                        all.deep_view() == hunks_preview(diff@.take(h as int)),
                    decreases diff.hunks@.len() - h,
                {
                    let hk = &diff.hunks[h];
                    let ghost start = all.deep_view();
                    let mut head = String::from_str("@@ -");
                    push_decimal(&mut head, hk.old_start as u64);
                    push_char(&mut head, ',');
                    push_decimal(&mut head, hk.old_count as u64);
                    push_str(&mut head, " +");
                    push_decimal(&mut head, hk.new_start as u64);
                    push_char(&mut head, ',');
                    push_decimal(&mut head, hk.new_count as u64);
                    push_str(&mut head, " @@");
                    all.push(head);
                    assert(all.deep_view() =~= start.push(head@));
                    assert(hunk_preview(hk@)[0] =~= head@);
                    assert(hunk_preview(hk@).take(1) =~= seq![head@]);
                    let mut k: usize = 0;
                    while k < hk.lines.len()
                        invariant
                            k <= hk.lines@.len(),
                            all.deep_view() == start + hunk_preview(hk@).take(k + 1),
                        decreases hk.lines@.len() - k,
                    {
                        let mut line = String::new();
                        match &hk.lines[k] {
                            DiffLine::Add(s) => {
                                push_char(&mut line, '+');
                                push_str(&mut line, s.as_str());
                            },
                            DiffLine::Remove(s) => {
                                push_char(&mut line, '-');
                                push_str(&mut line, s.as_str());
                            },
                            DiffLine::Context(s) => {
                                push_char(&mut line, ' ');
                                push_str(&mut line, s.as_str());
                            },
                        }
                        assert(line@ == marked_line(hk.lines@[k as int]@));
                        let ghost before = all.deep_view();
                        all.push(line);
                        assert(all.deep_view() =~= before.push(line@));
                        assert(hunk_preview(hk@)[k + 1] == line@);
                        assert(hunk_preview(hk@).take(k + 2) =~= hunk_preview(hk@).take(k + 1).push(line@));
                        assert(all.deep_view() =~= start + hunk_preview(hk@).take(k + 2));
                        k = k + 1;
                    }
                    assert(hunk_preview(hk@).take((hk.lines@.len() + 1) as int) =~= hunk_preview(hk@));
                    assert(diff@.take(h + 1).drop_last() =~= diff@.take(h as int));
                    h = h + 1;
                }
                assert(diff@.take(diff.hunks@.len() as int) =~= diff@);
                let mut r: Vec<String> = Vec::new();
                let mut i: usize = 0;
                while i < all.len() && i < 20
                    invariant
                        i <= all@.len(),
                        i <= 20,
                        r.deep_view() == all.deep_view().take(i as int),
                    decreases all@.len() - i,
                {
                    let ghost before = r.deep_view();
                    r.push(all[i].clone());
                    assert(r.deep_view() =~= before.push(all.deep_view()[i as int]));
                    assert(r.deep_view() =~= all.deep_view().take(i + 1));
                    i = i + 1;
                }
                assert(r.deep_view() =~= preview_view(self@));
                r
            },
            FileOperation::Delete { path } => {
                let mut line = String::from_str("Delete file: ");
                push_str(&mut line, path.as_str());
                let r = vec![line];
                assert(r.deep_view() =~= preview_view(self@));
                r
            },
            FileOperation::Rename { from, to } => {
                let mut line = from.clone();
                push_str(&mut line, " -> ");
                push_str(&mut line, to.as_str());
                let r = vec![line];
                assert(r.deep_view() =~= preview_view(self@));
                r
            },
        }
    }
}

impl RefactorPlan {
    /// How many operations of each kind the plan holds.
    pub fn stats(&self) -> (r: RefactorStats)
        ensures
            r.creates == count_kind(self@, 0),
            r.modifies == count_kind(self@, 1),
            r.deletes == count_kind(self@, 2),
            r.renames == count_kind(self@, 3),
    {
        let mut stats = RefactorStats { creates: 0, modifies: 0, deletes: 0, renames: 0 };
        let mut i: usize = 0;
        while i < self.operations.len()
            invariant
                i <= self.operations@.len(),
                stats.creates == count_kind(self@.take(i as int), 0),
                stats.modifies == count_kind(self@.take(i as int), 1),
                stats.deletes == count_kind(self@.take(i as int), 2),
                stats.renames == count_kind(self@.take(i as int), 3),
            decreases self.operations@.len() - i,
        {
            proof {
                assert(self@.take(i + 1).drop_last() =~= self@.take(i as int));
                lemma_count_le(self@.take(i as int), 0);
                lemma_count_le(self@.take(i as int), 1);
                lemma_count_le(self@.take(i as int), 2);
                lemma_count_le(self@.take(i as int), 3);
            }
            match &self.operations[i] {
                FileOperation::Create { .. } => stats.creates = stats.creates + 1,
                FileOperation::Modify { .. } => stats.modifies = stats.modifies + 1,
                FileOperation::Delete { .. } => stats.deletes = stats.deletes + 1,
                FileOperation::Rename { .. } => stats.renames = stats.renames + 1,
            }
            i = i + 1;
        }
        assert(self@.take(self.operations@.len() as int) =~= self@);
        stats
    }
}

/// Each line followed by a newline.
pub open spec fn lines_block(ls: Seq<Seq<char>>) -> Seq<char>
    decreases ls.len(),
{
    if ls.len() == 0 {
        seq![]
    } else {
        lines_block(ls.drop_last()) + ls.last() + "\n"@
    }
}

/// The preview section of the operation numbered `i` (from zero).
pub open spec fn op_section(i: nat, op: FileOperationView) -> Seq<char> {
    "## "@ + decimal_digits(i + 1) + ". "@ + op_type_name(op) + " "@ + op_path(op) + "\n"@
        + lines_block(preview_view(op)) + "\n"@
}

/// The sections of the first `n` operations.
pub open spec fn sections(ops: Seq<FileOperationView>, n: nat) -> Seq<char>
    decreases n,
{
    if n == 0 || n > ops.len() {
        seq![]
    } else {
        sections(ops, (n - 1) as nat) + op_section((n - 1) as nat, ops[n - 1])
    }
}

/// A readable preview of a plan: its description, how many operations of
/// each kind it holds, then one section per operation.
pub open spec fn preview_text(description: Seq<char>, ops: Seq<FileOperationView>) -> Seq<char> {
    "# "@ + description + "\n\nSummary: "@ + decimal_digits(count_kind(ops, 0)) + " creates, "@
        + decimal_digits(count_kind(ops, 1)) + " modifies, "@ + decimal_digits(count_kind(ops, 2))
        + " deletes, "@ + decimal_digits(count_kind(ops, 3)) + " renames\n\n"@ + sections(
        ops,
        ops.len(),
    )
}

/// Appends the preview section of operation number `i` (from zero).
fn push_section(preview: &mut String, i: usize, op: &FileOperation)
    requires
        i < usize::MAX,
    ensures
        final(preview)@ == old(preview)@ + op_section(i as nat, op@),
{
    let ghost before = preview@;
    push_str(preview, "## ");
    push_decimal(preview, (i + 1) as u64);
    push_str(preview, ". ");
    push_str(preview, op.operation_type());
    push_str(preview, " ");
    push_str(preview, op.path());
    push_str(preview, "\n");
    let ls = op.preview_lines();
    let ghost mid = preview@;
    let mut k: usize = 0;
    while k < ls.len()
        invariant
            k <= ls@.len(),
            preview@ == mid + lines_block(ls.deep_view().take(k as int)),
        decreases ls@.len() - k,
    {
        push_str(preview, ls[k].as_str());
        push_str(preview, "\n");
        assert(ls.deep_view().take(k + 1).drop_last() =~= ls.deep_view().take(k as int));
        assert(preview@ =~= mid + lines_block(ls.deep_view().take(k + 1)));
        k = k + 1;
    }
    assert(ls.deep_view().take(ls@.len() as int) =~= ls.deep_view());
    push_str(preview, "\n");
    assert(preview@ =~= before + op_section(i as nat, op@));
}

/// Renders a preview of the plan: its description, a count of each kind of
/// operation, and for each operation its number, kind, path and preview lines.
pub fn preview_refactor(plan: &RefactorPlan) -> (r: String)
    ensures
        r@ == preview_text(plan.description@, plan@),
{
    let mut preview = String::from_str("# ");
    let stats = plan.stats();
    push_str(&mut preview, plan.description.as_str());
    push_str(&mut preview, "\n\nSummary: ");
    push_decimal(&mut preview, stats.creates as u64);
    push_str(&mut preview, " creates, ");
    push_decimal(&mut preview, stats.modifies as u64);
    push_str(&mut preview, " modifies, ");
    push_decimal(&mut preview, stats.deletes as u64);
    push_str(&mut preview, " deletes, ");
    push_decimal(&mut preview, stats.renames as u64);
    push_str(&mut preview, " renames\n\n");
    let ghost head = preview@;
    let mut i: usize = 0;
    while i < plan.operations.len()
        invariant
            i <= plan.operations@.len(),
            preview@ == head + sections(plan@, i as nat),
        decreases plan.operations@.len() - i,
    {
        let op = &plan.operations[i];
        assert(plan@[i as int] == op@);
        push_section(&mut preview, i, op);
        i = i + 1;
    }
    preview
}

impl RefactorPlan {
    /// An empty plan with the given description.
    pub fn new(description: &str) -> (r: RefactorPlan)
        ensures
            r.description@ == description@,
            r.operations@.len() == 0,
    {
        RefactorPlan { description: String::from_str(description), operations: Vec::new() }
    }
}

// ---------------------------------------------------------------------------
// Applying a plan
// ---------------------------------------------------------------------------

pub type Files = Map<Seq<char>, Seq<char>>;

/// The paths an operation may change.
pub open spec fn touched(op: FileOperationView) -> Seq<Seq<char>> {
    match op {
        FileOperationView::Create { path, .. } => seq![path],
        FileOperationView::Modify { path, .. } => seq![path],
        FileOperationView::Delete { path } => seq![path],
        FileOperationView::Rename { from, to } => seq![from, to],
    }
}

/// The files after one operation; `None` when it fails: a modify of a
/// missing file or with a diff that does not match, a rename of a missing
/// file.
pub open spec fn op_effect(fs: Files, op: FileOperationView) -> Option<Files> {
    match op {
        FileOperationView::Create { path, content } => Some(fs.insert(path, content)),
        FileOperationView::Modify { path, diff } => if fs.contains_key(path) {
            match patched(fs[path], diff) {
                Ok(t) => Some(fs.insert(path, t)),
                Err(_) => None,
            }
        } else {
            None
        },
        FileOperationView::Delete { path } => Some(fs.remove(path)),
        FileOperationView::Rename { from, to } => if fs.contains_key(from) {
            Some(fs.remove(from).insert(to, fs[from]))
        } else {
            None
        },
    }
}

/// The files after the first `n` operations, `None` if one of them fails.
pub open spec fn run_ops(fs: Files, ops: Seq<FileOperationView>, n: nat) -> Option<Files>
    decreases n,
{
    if n == 0 || n > ops.len() {
        Some(fs)
    } else {
        match run_ops(fs, ops, (n - 1) as nat) {
            None => None,
            Some(m) => op_effect(m, ops[n - 1]),
        }
    }
}

/// The files after every operation of a plan, `None` if one fails.
pub open spec fn plan_outcome(fs: Files, ops: Seq<FileOperationView>) -> Option<Files> {
    run_ops(fs, ops, ops.len())
}

/// Whether `path` is touched by one of the first `n` operations.
pub open spec fn touched_by(ops: Seq<FileOperationView>, n: nat, path: Seq<char>) -> bool {
    exists|j: int, k: int| 0 <= j < n && 0 <= k < touched(ops[j]).len() && #[trigger] touched(ops[j])[k] == path
}

/// `a` and `b` hold the same file, or both none, at `path`.
pub open spec fn same_at(a: Files, b: Files, path: Seq<char>) -> bool {
    a.contains_key(path) == b.contains_key(path) && (a.contains_key(path) ==> a[path] == b[path])
}

proof fn lemma_effect_local(fs: Files, op: FileOperationView, q: Seq<char>)
    requires
        op_effect(fs, op) is Some,
        forall|k: int| 0 <= k < touched(op).len() ==> touched(op)[k] != q,
    ensures
        same_at(op_effect(fs, op)->0, fs, q),
{
    match op {
        FileOperationView::Rename { from, to } => {
            assert(touched(op)[0] == from);
            assert(touched(op)[1] == to);
        },
        _ => {
            assert(touched(op)[0] != q);
        },
    }
}

/// Operations change no path but the ones they touch.
proof fn lemma_run_local(fs: Files, ops: Seq<FileOperationView>, n: nat, q: Seq<char>)
    requires
        n <= ops.len(),
        run_ops(fs, ops, n) is Some,
        !touched_by(ops, n, q),
    ensures
        same_at(run_ops(fs, ops, n)->0, fs, q),
    decreases n,
{
    if n > 0 {
        let m = run_ops(fs, ops, (n - 1) as nat);
        assert(m is Some);
        assert(!touched_by(ops, (n - 1) as nat, q)) by {
            if touched_by(ops, (n - 1) as nat, q) {
                let (j, k) = choose|j: int, k: int| 0 <= j < n - 1 && 0 <= k < touched(ops[j]).len() && #[trigger] touched(ops[j])[k] == q;
                assert(touched(ops[j])[k] == q);
            }
        }
        lemma_run_local(fs, ops, (n - 1) as nat, q);
        assert forall|k: int| 0 <= k < touched(ops[n - 1]).len() implies #[trigger] touched(ops[n - 1])[k] != q by {
            if touched(ops[n - 1])[k] == q {
                assert(touched_by(ops, n, q));
            }
        }
        lemma_effect_local(m->0, ops[n - 1], q);
    }
}

proof fn lemma_run_fail_sticks(fs: Files, ops: Seq<FileOperationView>, n: nat, m: nat)
    requires
        n <= m <= ops.len(),
        run_ops(fs, ops, n) is None,
    ensures
        run_ops(fs, ops, m) is None,
    decreases m - n,
{
    if n < m {
        lemma_run_fail_sticks(fs, ops, n, (m - 1) as nat);
    }
}

/// The state of one path before a plan ran: its content, or `None` when no
/// file was there.
#[derive(Debug)]
pub struct BackupEntry {
    pub path: String,
    pub original_content: Option<String>,
}

/// Whether `b` records the state of its path in `fs`.
pub open spec fn records(b: BackupEntry, fs: Files) -> bool {
    match b.original_content {
        Some(c) => fs.contains_key(b.path@) && c@ == fs[b.path@],
        None => !fs.contains_key(b.path@),
    }
}

/// Whether some entry of `backups` is for `q`.
pub open spec fn backed_up(backups: Seq<BackupEntry>, q: Seq<char>) -> bool {
    exists|k: int| 0 <= k < backups.len() && #[trigger] backups[k].path@ == q
}

/// The paths that one operation touches.
fn op_paths(op: &FileOperation) -> (r: Vec<String>)
    ensures
        r.deep_view() == touched(op@),
{
    let mut r: Vec<String> = Vec::new();
    match op {
        FileOperation::Create { path, .. } => r.push(path.clone()),
        FileOperation::Modify { path, .. } => r.push(path.clone()),
        FileOperation::Delete { path } => r.push(path.clone()),
        FileOperation::Rename { from, to } => {
            r.push(from.clone());
            r.push(to.clone());
        },
    }
    assert(r.deep_view() =~= touched(op@));
    r
}

/// Applies one operation to `ws`, leaving it unchanged when it fails.
fn apply_operation(ws: &mut Workspace, op: &FileOperation) -> (r: Result<(), String>)
    ensures
        r is Ok ==> op_effect(old(ws)@, op@) == Some(final(ws)@),
        r is Err ==> op_effect(old(ws)@, op@) is None && final(ws)@ == old(ws)@,
{
    match op {
        FileOperation::Create { path, content } => {
            ws.write(path.as_str(), content.as_str());
            Ok(())
        },
        FileOperation::Modify { path, diff } => {
            match ws.read(path.as_str()) {
                None => {
                    let mut msg = String::from_str("Failed to read ");
                    push_str(&mut msg, path.as_str());
                    push_str(&mut msg, ": no such file");
                    Err(msg)
                },
                Some(current) => match apply_diff_to_content(current.as_str(), diff) {
                    Ok(t) => {
                        ws.write(path.as_str(), t.as_str());
                        Ok(())
                    },
                    Err(h) => {
                        let mut msg = String::from_str("Hunk ");
                        let shown: u64 = if (h as u64) < u64::MAX {
                            h as u64 + 1
                        } else {
                            h as u64
                        };
                        push_decimal(&mut msg, shown);
                        push_str(&mut msg, " does not apply to ");
                        push_str(&mut msg, path.as_str());
                        Err(msg)
                    },
                },
            }
        },
        FileOperation::Delete { path } => {
            ws.remove(path.as_str());
            Ok(())
        },
        FileOperation::Rename { from, to } => {
            match ws.read(from.as_str()) {
                None => {
                    let mut msg = String::from_str("Failed to rename ");
                    push_str(&mut msg, from.as_str());
                    push_str(&mut msg, " to ");
                    push_str(&mut msg, to.as_str());
                    push_str(&mut msg, ": no such file");
                    Err(msg)
                },
                Some(c) => {
                    ws.remove(from.as_str());
                    ws.write(to.as_str(), c.as_str());
                    Ok(())
                },
            }
        },
    }
}

/// Restores every backed-up path, last entry first.
#[verifier::loop_isolation(false)]
fn rollback(ws: &mut Workspace, backups: &Vec<BackupEntry>, Ghost(orig): Ghost<Files>, Ghost(t): Ghost<spec_fn(Seq<char>) -> bool>)
    requires
        forall|k: int| 0 <= k < backups@.len() ==> records(#[trigger] backups@[k], orig),
        forall|q: Seq<char>| !t(q) ==> same_at(old(ws)@, orig, q),
        forall|q: Seq<char>| #[trigger] t(q) ==> backed_up(backups@, q),
    ensures
        final(ws)@ == orig,
{
    let mut i: usize = backups.len();
    while i > 0
        invariant
            i <= backups@.len(),
            forall|q: Seq<char>| (!t(q) || exists|k: int| i <= k < backups@.len() && #[trigger] backups@[k].path@ == q) ==> same_at(ws@, orig, q),
        decreases i,
    {
        i = i - 1;
        let b = &backups[i];
        let ghost before = ws@;
        match &b.original_content {
            Some(c) => ws.write(b.path.as_str(), c.as_str()),
            None => ws.remove(b.path.as_str()),
        }
        assert(records(backups@[i as int], orig));
        assert forall|q: Seq<char>| (!t(q) || exists|k: int| i <= k < backups@.len() && #[trigger] backups@[k].path@ == q) implies same_at(ws@, orig, q) by {
            if q != b.path@ {
                assert(same_at(before, orig, q) || !(!t(q) || exists|k: int| i + 1 <= k < backups@.len() && #[trigger] backups@[k].path@ == q));
                if t(q) {
                    let k = choose|k: int| i <= k < backups@.len() && #[trigger] backups@[k].path@ == q;
                    assert(k != i);
                    assert(exists|k: int| i + 1 <= k < backups@.len() && #[trigger] backups@[k].path@ == q);
                }
            }
        }
    }
    assert forall|q: Seq<char>| #[trigger] same_at(ws@, orig, q) by {
        if t(q) {
            assert(backed_up(backups@, q));
            let k = choose|k: int| 0 <= k < backups@.len() && #[trigger] backups@[k].path@ == q;
            assert(exists|k: int| 0 <= k < backups@.len() && #[trigger] backups@[k].path@ == q);
        }
    }
    assert forall|q: Seq<char>| #[trigger] ws@.contains_key(q) == orig.contains_key(q) by {
        assert(same_at(ws@, orig, q));
    }
    assert forall|q: Seq<char>| ws@.contains_key(q) implies #[trigger] ws@[q] == orig[q] by {
        assert(same_at(ws@, orig, q));
    }
    assert(ws@ =~= orig);
}

/// The state of every path that an operation of `plan` touches, as `ws`
/// holds it.
fn snapshot(ws: &Workspace, plan: &RefactorPlan) -> (backups: Vec<BackupEntry>)
    ensures
        forall|k: int| 0 <= k < backups@.len() ==> records(#[trigger] backups@[k], ws@),
        forall|q: Seq<char>| #[trigger] touched_by(plan@, plan@.len(), q) ==> backed_up(backups@, q),
{
    let ghost orig = ws@;
    let ghost ops = plan@;
    let mut backups: Vec<BackupEntry> = Vec::new();
    let mut i: usize = 0;
    while i < plan.operations.len()
        invariant
            i <= plan.operations@.len(),
            ops == plan@,
            ws@ == orig,
            forall|k: int| 0 <= k < backups@.len() ==> records(#[trigger] backups@[k], orig),
            forall|q: Seq<char>| #[trigger] touched_by(ops, i as nat, q) ==> backed_up(backups@, q),
        decreases plan.operations@.len() - i,
    {
        let paths = op_paths(&plan.operations[i]);
        assert(ops[i as int] == plan.operations@[i as int]@);
        let ghost start = backups@.len();
        let mut j: usize = 0;
        while j < paths.len()
            invariant
                j <= paths@.len(),
                ops == plan@,
                i < plan.operations@.len(),
                start <= backups@.len(),
                ws@ == orig,
                forall|k: int| 0 <= k < backups@.len() ==> records(#[trigger] backups@[k], orig),
                forall|q: Seq<char>| #[trigger] touched_by(ops, i as nat, q) ==> backed_up(backups@, q),
                forall|m: int| 0 <= m < j ==> #[trigger] backed_up(backups@, paths.deep_view()[m]),
            decreases paths@.len() - j,
        {
            let original_content = ws.read(paths[j].as_str());
            let ghost pb = backups@;
            backups.push(BackupEntry { path: paths[j].clone(), original_content });
            assert(backups@[pb.len() as int].path@ == paths.deep_view()[j as int]);
            assert(backed_up(backups@, paths.deep_view()[j as int]));
            assert forall|q: Seq<char>| backed_up(pb, q) implies #[trigger] backed_up(backups@, q) by {
                let k = choose|k: int| 0 <= k < pb.len() && #[trigger] pb[k].path@ == q;
                assert(backups@[k] == pb[k]);
            }
            j = j + 1;
        }
        assert forall|q: Seq<char>| #[trigger] touched_by(ops, (i + 1) as nat, q) implies backed_up(backups@, q) by {
            let (a, b) = choose|a: int, b: int| 0 <= a < i + 1 && 0 <= b < touched(ops[a]).len() && #[trigger] touched(ops[a])[b] == q;
            if a < i {
                assert(touched_by(ops, i as nat, q));
            } else {
                assert(paths.deep_view()[b] == q);
                assert(backed_up(backups@, paths.deep_view()[b]));
            }
        }
        i = i + 1;
    }
    backups
}

/// Applies a plan to `ws` as one transaction.
///
/// First the state of every path that an operation touches is recorded
/// (its content, or that no file was there); then the operations run in
/// order; on the first failure every recorded path is restored, last first,
/// and the error is returned. So either every operation took effect, or
/// `ws` is left exactly as it was.
#[verifier::loop_isolation(false)]
pub fn apply_refactor_plan(ws: &mut Workspace, plan: &RefactorPlan) -> (r: Result<(), String>)
    ensures
        plan_outcome(old(ws)@, plan@) matches Some(m) ==> r is Ok && final(ws)@ == m,
        plan_outcome(old(ws)@, plan@) is None ==> r is Err && final(ws)@ == old(ws)@,
{
    let ghost orig = ws@;
    let ghost ops = plan@;
    // Record the state of every touched path.
    let backups = snapshot(ws, plan);
    // Apply the operations in order.
    let mut n: usize = 0;
    while n < plan.operations.len()
        invariant
            n <= plan.operations@.len(),
            run_ops(orig, ops, n as nat) == Some(ws@),
        decreases plan.operations@.len() - n,
    {
        assert(ops[n as int] == plan.operations@[n as int]@);
        match apply_operation(ws, &plan.operations[n]) {
            Ok(()) => {},
            Err(e) => {
                proof {
                    lemma_run_fail_sticks(orig, ops, (n + 1) as nat, ops.len());
                    assert forall|q: Seq<char>| !touched_by(ops, n as nat, q) implies same_at(ws@, orig, q) by {
                        lemma_run_local(orig, ops, n as nat, q);
                    }
                    assert forall|q: Seq<char>| touched_by(ops, n as nat, q) implies backed_up(backups@, q) by {
                        let (a, b) = choose|a: int, b: int| 0 <= a < n && 0 <= b < touched(ops[a]).len() && #[trigger] touched(ops[a])[b] == q;
                        assert(touched_by(ops, ops.len(), q));
                    }
                }
                rollback(ws, &backups, Ghost(orig), Ghost(|q: Seq<char>| touched_by(ops, n as nat, q)));
                let mut msg = String::from_str("Refactoring failed, rolled back: ");
                push_str(&mut msg, e.as_str());
                return Err(msg);
            },
        }
        n = n + 1;
    }
    Ok(())
}

} // verus!
