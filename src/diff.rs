//! Unified diffs: parsing hunks out of text and applying them to file lines.
//!
//! A hunk applies only where its old range says it does: the context and
//! removed lines must match the file exactly there, else the whole diff is
//! refused and the failing hunk is named.
use crate::text::{
    chars_of, decimal_at_most, ends_with, find, find_from, has_prefix, has_suffix, join_lines, join_with,
    lines, lines_of, parse_decimal, push_char, push_chars, slice_range, starts_with, string_of,
};
use vstd::string::StringExecFns;
use vstd::prelude::*;

verus! {

/// One line of a hunk.
#[derive(Debug, Clone)]
pub enum DiffLine {
    Context(String),
    Add(String),
    Remove(String),
}

/// A contiguous change: where it starts in the old and new file, how many
/// lines it spans in each, and its lines.
#[derive(Debug, Clone)]
pub struct Hunk {
    pub old_start: usize,
    pub old_count: usize,
    pub new_start: usize,
    pub new_count: usize,
    pub lines: Vec<DiffLine>,
}

/// A parsed unified diff for a single file.
#[derive(Debug, Clone)]
pub struct UnifiedDiff {
    pub hunks: Vec<Hunk>,
}

/// A hunk line as a value.
pub enum DiffLineView {
    Context(Seq<char>),
    Add(Seq<char>),
    Remove(Seq<char>),
}

/// A hunk as a value.
pub struct HunkView {
    pub old_start: nat,
    pub old_count: nat,
    pub new_start: nat,
    pub new_count: nat,
    pub lines: Seq<DiffLineView>,
}

impl View for DiffLine {
    type V = DiffLineView;

    open spec fn view(&self) -> DiffLineView {
        match self {
            DiffLine::Context(s) => DiffLineView::Context(s@),
            DiffLine::Add(s) => DiffLineView::Add(s@),
            DiffLine::Remove(s) => DiffLineView::Remove(s@),
        }
    }
}

pub open spec fn diff_lines_view(v: Seq<DiffLine>) -> Seq<DiffLineView> {
    Seq::new(v.len(), |i: int| v[i]@)
}

impl View for Hunk {
    type V = HunkView;

    open spec fn view(&self) -> HunkView {
        HunkView {
            old_start: self.old_start as nat,
            old_count: self.old_count as nat,
            new_start: self.new_start as nat,
            new_count: self.new_count as nat,
            lines: diff_lines_view(self.lines@),
        }
    }
}

pub open spec fn hunks_view(v: Seq<Hunk>) -> Seq<HunkView> {
    Seq::new(v.len(), |i: int| v[i]@)
}

impl View for UnifiedDiff {
    type V = Seq<HunkView>;

    open spec fn view(&self) -> Seq<HunkView> {
        hunks_view(self.hunks@)
    }
}

// ---------------------------------------------------------------------------
// Parsing
// ---------------------------------------------------------------------------

/// `start[,count]` of a hunk header; a missing count means one line.
pub open spec fn parse_range(r: Seq<char>) -> Option<(nat, nat)> {
    match find_from(r, seq![','], 0) {
        None => match decimal_at_most(r, usize::MAX as nat) {
            Some(a) => Some((a, 1nat)),
            None => None,
        },
        Some(k) => match (
            decimal_at_most(r.take(k), usize::MAX as nat),
            decimal_at_most(r.skip(k + 1), usize::MAX as nat),
        ) {
            (Some(a), Some(b)) => Some((a, b)),
            _ => None,
        },
    }
}

/// The ranges of a header line `@@ -a[,b] +c[,d] @@...`.
pub open spec fn parse_hunk_header(l: Seq<char>) -> Option<(nat, nat, nat, nat)> {
    if !starts_with(l, "@@ -"@) {
        None
    } else {
        let rest = l.skip("@@ -"@.len() as int);
        match find_from(rest, " +"@, 0) {
            None => None,
            Some(k) => {
                let after = rest.skip(k + " +"@.len());
                match find_from(after, " @@"@, 0) {
                    None => None,
                    Some(m) => match (parse_range(rest.take(k)), parse_range(after.take(m))) {
                        (Some((a, b)), Some((c, d))) => Some((a, b, c, d)),
                        _ => None,
                    },
                }
            },
        }
    }
}

pub open spec fn opt_hunk_view(o: Option<Hunk>) -> Option<HunkView> {
    match o {
        Some(h) => Some(h@),
        None => None,
    }
}

/// Hunks completed and the hunk in progress while reading diff text.
pub struct DiffParse {
    pub done: Seq<HunkView>,
    pub current: Option<HunkView>,
}

pub open spec fn close_hunk(st: DiffParse) -> Seq<HunkView> {
    match st.current {
        Some(h) => st.done.push(h),
        None => st.done,
    }
}

pub open spec fn with_line(h: HunkView, d: DiffLineView) -> HunkView {
    HunkView { lines: h.lines.push(d), ..h }
}

/// Reading one line: a header opens a hunk; inside a hunk, a line starting
/// with a space, `-` or `+` (or an empty line, read as empty context) joins
/// it, a `\` marker is skipped and any other line closes it; outside a hunk
/// lines are skipped. `None`: a malformed header.
pub open spec fn diff_step(st: DiffParse, l: Seq<char>) -> Option<DiffParse> {
    if starts_with(l, "@@"@) {
        match parse_hunk_header(l) {
            None => None,
            Some((a, b, c, d)) => Some(
                DiffParse {
                    done: close_hunk(st),
                    current: Some(
                        HunkView {
                            old_start: a,
                            old_count: b,
                            new_start: c,
                            new_count: d,
                            lines: seq![],
                        },
                    ),
                },
            ),
        }
    } else {
        match st.current {
            None => Some(st),
            Some(h) => {
                if l.len() == 0 {
                    Some(DiffParse { current: Some(with_line(h, DiffLineView::Context(l))), ..st })
                } else if l[0] == ' ' {
                    Some(
                        DiffParse {
                            current: Some(with_line(h, DiffLineView::Context(l.skip(1)))),
                            ..st
                        },
                    )
                } else if l[0] == '-' {
                    Some(
                        DiffParse {
                            current: Some(with_line(h, DiffLineView::Remove(l.skip(1)))),
                            ..st
                        },
                    )
                } else if l[0] == '+' {
                    Some(
                        DiffParse { current: Some(with_line(h, DiffLineView::Add(l.skip(1)))), ..st },
                    )
                } else if l[0] == '\\' {
                    Some(st)
                } else {
                    Some(DiffParse { done: st.done.push(h), current: None })
                }
            },
        }
    }
}

/// The parse after the first `n` lines; `Err(i)`: line `i` is a malformed header.
pub open spec fn diff_parse_state(ls: Seq<Seq<char>>, n: nat) -> Result<DiffParse, nat>
    decreases n,
{
    if n == 0 || n > ls.len() {
        Ok(DiffParse { done: seq![], current: None })
    } else {
        match diff_parse_state(ls, (n - 1) as nat) {
            Err(e) => Err(e),
            Ok(st) => match diff_step(st, ls[n - 1]) {
                None => Err((n - 1) as nat),
                Some(st2) => Ok(st2),
            },
        }
    }
}

/// The hunks of a diff text, `Err(i)` when line `i` is a malformed header or
/// `Err(lines)` when the text holds no hunk.
pub open spec fn diff_of(text: Seq<char>) -> Result<Seq<HunkView>, nat> {
    let ls = lines_of(text);
    match diff_parse_state(ls, ls.len()) {
        Err(e) => Err(e),
        Ok(st) => if close_hunk(st).len() == 0 {
            Err(ls.len())
        } else {
            Ok(close_hunk(st))
        },
    }
}

proof fn lemma_parse_err_sticks(ls: Seq<Seq<char>>, n: nat, m: nat)
    requires
        n <= m <= ls.len(),
        diff_parse_state(ls, n) is Err,
    ensures
        diff_parse_state(ls, m) == diff_parse_state(ls, n),
    decreases m - n,
{
    if n < m {
        lemma_parse_err_sticks(ls, n, (m - 1) as nat);
    }
}

fn parse_range_exec(r: &[char]) -> (out: Option<(usize, usize)>)
    ensures
        out matches Some((a, b)) ==> parse_range(r@) == Some((a as nat, b as nat)),
        out is None ==> parse_range(r@) is None,
{
    let rl = r.len();
    let comma: Vec<char> = vec![','];
    assert(comma@ =~= seq![',']);
    match find(r, &comma) {
        None => match parse_decimal(r, usize::MAX as u64) {
            Some(a) => Some((a as usize, 1)),
            None => None,
        },
        Some(k) => {
            let left = slice_range(r, 0, k);
            let right = slice_range(r, k + 1, r.len());
            assert(left@ =~= r@.take(k as int));
            assert(right@ =~= r@.skip(k + 1));
            match (parse_decimal(&left, usize::MAX as u64), parse_decimal(&right, usize::MAX as u64)) {
                (Some(a), Some(b)) => Some((a as usize, b as usize)),
                _ => None,
            }
        },
    }
}

/// Reads the ranges of a hunk header line.
pub fn parse_header(l: &[char]) -> (out: Option<(usize, usize, usize, usize)>)
    ensures
        out matches Some((a, b, c, d)) ==> parse_hunk_header(l@) == Some(
            (a as nat, b as nat, c as nat, d as nat),
        ),
        out is None ==> parse_hunk_header(l@) is None,
{
    if !has_prefix(l, "@@ -") {
        return None;
    }
    let open = chars_of("@@ -");
    let rest = slice_range(l, open.len(), l.len());
    assert(rest@ =~= l@.skip("@@ -"@.len() as int));
    let plus = chars_of(" +");
    match find(&rest, &plus) {
        None => None,
        Some(k) => {
            let after = slice_range(&rest, k + plus.len(), rest.len());
            assert(after@ =~= rest@.skip(k + " +"@.len()));
            let close = chars_of(" @@");
            match find(&after, &close) {
                None => None,
                Some(m) => {
                    let old_part = slice_range(&rest, 0, k);
                    let new_part = slice_range(&after, 0, m);
                    assert(old_part@ =~= rest@.take(k as int));
                    assert(new_part@ =~= after@.take(m as int));
                    match (parse_range_exec(&old_part), parse_range_exec(&new_part)) {
                        (Some((a, b)), Some((c, d))) => Some((a, b, c, d)),
                        _ => None,
                    }
                },
            }
        },
    }
}

/// Parses unified diff text into its hunks. File headers (`---`, `+++`) and
/// any prose outside hunks are skipped.
#[verifier::loop_isolation(false)]
pub fn parse_unified_diff(text: &str) -> (r: Result<UnifiedDiff, String>)
    ensures
        r matches Ok(d) ==> diff_of(text@) == Ok::<Seq<HunkView>, nat>(d@),
        r is Err ==> diff_of(text@) is Err,
{
    let ls = lines(text);
    let ghost lsv = ls.deep_view();
    let mut done: Vec<Hunk> = Vec::new();
    let mut current: Option<Hunk> = None;
    let mut i: usize = 0;
    assert(hunks_view(done@) =~= seq![]);
    while i < ls.len()
        invariant
            i <= ls@.len(),
            lsv == ls.deep_view(),
            diff_parse_state(lsv, i as nat) == Ok::<DiffParse, nat>(
                DiffParse {
                    done: hunks_view(done@),
                    current: opt_hunk_view(current),
                },
            ),
        decreases ls@.len() - i,
    {
        let l = chars_of(ls[i].as_str());
        assert(l@ == lsv[i as int]);
        let ghost before = DiffParse {
            done: hunks_view(done@),
            current: opt_hunk_view(current),
        };
        if has_prefix(&l, "@@") {
            match parse_header(&l) {
                None => {
                    let mut msg = String::from_str("Invalid hunk header: ");
                    push_chars(&mut msg, &l);
                    proof {
                        lemma_parse_err_sticks(lsv, (i + 1) as nat, lsv.len());
                    }
                    return Err(msg);
                },
                Some((a, b, c, d)) => {
                    if let Some(h) = current {
                        done.push(h);
                    }
                    assert(hunks_view(done@) =~= close_hunk(before));
                    current = Some(
                        Hunk { old_start: a, old_count: b, new_start: c, new_count: d, lines: Vec::new() },
                    );
                    assert(diff_lines_view(Seq::<DiffLine>::empty()) =~= seq![]);
                },
            }
        } else {
            match current {
                None => {},
                Some(mut h) => {
                    let ghost hv = h@;
                    if l.len() == 0 {
                        assert(l@ =~= Seq::<char>::empty());
                        h.lines.push(DiffLine::Context(String::new()));
                        assert(diff_lines_view(h.lines@) =~= hv.lines.push(DiffLineView::Context(l@)));
                        current = Some(h);
                    } else if l[0] == ' ' || l[0] == '-' || l[0] == '+' {
                        let body = slice_range(&l, 1, l.len());
                        assert(body@ =~= l@.skip(1));
                        let s = string_of(&body);
                        let dl = if l[0] == ' ' {
                            DiffLine::Context(s)
                        } else if l[0] == '-' {
                            DiffLine::Remove(s)
                        } else {
                            DiffLine::Add(s)
                        };
                        let ghost dlv = dl@;
                        h.lines.push(dl);
                        assert(diff_lines_view(h.lines@) =~= hv.lines.push(dlv));
                        current = Some(h);
                    } else if l[0] == '\\' {
                        current = Some(h);
                    } else {
                        done.push(h);
                        assert(hunks_view(done@) =~= before.done.push(hv));
                        current = None;
                    }
                },
            }
        }
        i = i + 1;
    }
    let ghost last = DiffParse { done: hunks_view(done@), current: opt_hunk_view(current) };
    if let Some(h) = current {
        done.push(h);
    }
    assert(hunks_view(done@) =~= close_hunk(last));
    if done.len() == 0 {
        return Err(String::from_str("No hunks found in diff"));
    }
    Ok(UnifiedDiff { hunks: done })
}

// ---------------------------------------------------------------------------
// Applying
// ---------------------------------------------------------------------------

/// The lines a hunk expects in the old file: its context and removed lines.
pub open spec fn old_side(ls: Seq<DiffLineView>) -> Seq<Seq<char>>
    decreases ls.len(),
{
    if ls.len() == 0 {
        seq![]
    } else {
        let rest = old_side(ls.drop_last());
        match ls.last() {
            DiffLineView::Context(s) => rest.push(s),
            DiffLineView::Remove(s) => rest.push(s),
            DiffLineView::Add(_) => rest,
        }
    }
}

/// The lines a hunk leaves in the new file: its context and added lines.
pub open spec fn new_side(ls: Seq<DiffLineView>) -> Seq<Seq<char>>
    decreases ls.len(),
{
    if ls.len() == 0 {
        seq![]
    } else {
        let rest = new_side(ls.drop_last());
        match ls.last() {
            DiffLineView::Context(s) => rest.push(s),
            DiffLineView::Add(s) => rest.push(s),
            DiffLineView::Remove(_) => rest,
        }
    }
}

/// Where a hunk's old range begins, counting lines from zero.
pub open spec fn hunk_pos(h: HunkView) -> nat {
    if h.old_start == 0 {
        0
    } else {
        (h.old_start - 1) as nat
    }
}

/// Output so far and the number of source lines consumed after the first
/// `n` hunks; `Err(i)`: hunk `i` does not match the source.
pub open spec fn apply_state(src: Seq<Seq<char>>, hs: Seq<HunkView>, n: nat) -> Result<
    (Seq<Seq<char>>, nat),
    nat,
>
    decreases n,
{
    if n == 0 || n > hs.len() {
        Ok((seq![], 0))
    } else {
        match apply_state(src, hs, (n - 1) as nat) {
            Err(e) => Err(e),
            Ok((out, at)) => {
                let h = hs[n - 1];
                let p = hunk_pos(h);
                let old = old_side(h.lines);
                if p < at || p + old.len() > src.len() || src.subrange(p as int, (p + old.len()) as int)
                    != old {
                    Err((n - 1) as nat)
                } else {
                    Ok((out + src.subrange(at as int, p as int) + new_side(h.lines), p + old.len()))
                }
            },
        }
    }
}

/// The lines of `src` after applying every hunk in order, or the index of
/// the first hunk that does not match.
pub open spec fn applied(src: Seq<Seq<char>>, hs: Seq<HunkView>) -> Result<Seq<Seq<char>>, nat> {
    match apply_state(src, hs, hs.len()) {
        Err(e) => Err(e),
        Ok((out, at)) => Ok(out + src.skip(at as int)),
    }
}

proof fn lemma_apply_err_sticks(src: Seq<Seq<char>>, hs: Seq<HunkView>, n: nat, m: nat)
    requires
        n <= m <= hs.len(),
        apply_state(src, hs, n) is Err,
    ensures
        apply_state(src, hs, m) == apply_state(src, hs, n),
    decreases m - n,
{
    if n < m {
        lemma_apply_err_sticks(src, hs, n, (m - 1) as nat);
    }
}

fn hunk_sides(lines: &Vec<DiffLine>) -> (r: (Vec<String>, Vec<String>))
    ensures
        r.0.deep_view() == old_side(diff_lines_view(lines@)),
        r.1.deep_view() == new_side(diff_lines_view(lines@)),
{
    let mut old: Vec<String> = Vec::new();
    let mut new: Vec<String> = Vec::new();
    let mut i: usize = 0;
    while i < lines.len()
        invariant
            i <= lines@.len(),
            old.deep_view() == old_side(diff_lines_view(lines@).take(i as int)),
            new.deep_view() == new_side(diff_lines_view(lines@).take(i as int)),
        decreases lines@.len() - i,
    {
        let ghost ob = old.deep_view();
        let ghost nb = new.deep_view();
        assert(diff_lines_view(lines@).take(i + 1).drop_last() =~= diff_lines_view(lines@).take(
            i as int,
        ));
        match &lines[i] {
            DiffLine::Context(s) => {
                old.push(s.clone());
                new.push(s.clone());
                assert(old.deep_view() =~= ob.push(s@));
                assert(new.deep_view() =~= nb.push(s@));
            },
            DiffLine::Remove(s) => {
                old.push(s.clone());
                assert(old.deep_view() =~= ob.push(s@));
            },
            DiffLine::Add(s) => {
                new.push(s.clone());
                assert(new.deep_view() =~= nb.push(s@));
            },
        }
        i = i + 1;
    }
    assert(diff_lines_view(lines@).take(lines@.len() as int) =~= diff_lines_view(lines@));
    (old, new)
}

/// Applies `diff` to the lines `src`. On a mismatch, `Err` holds the index
/// of the first hunk whose old range does not match.
#[verifier::loop_isolation(false)]
pub fn apply_hunks(src: &Vec<String>, diff: &UnifiedDiff) -> (r: Result<Vec<String>, usize>)
    ensures
        r matches Ok(out) ==> applied(src.deep_view(), diff@) == Ok::<Seq<Seq<char>>, nat>(
            out.deep_view(),
        ),
        r matches Err(e) ==> applied(src.deep_view(), diff@) == Err::<Seq<Seq<char>>, nat>(
            e as nat,
        ),
{
    let ghost sv = src.deep_view();
    let ghost hs = diff@;
    let mut out: Vec<String> = Vec::new();
    let mut at: usize = 0;
    let mut n: usize = 0;
    assert(out.deep_view() =~= seq![]);
    while n < diff.hunks.len()
        invariant
            n <= diff.hunks@.len(),
            sv == src.deep_view(),
            hs == diff@,
            at <= src@.len(),
            apply_state(sv, hs, n as nat) == Ok::<(Seq<Seq<char>>, nat), nat>(
                (out.deep_view(), at as nat),
            ),
        decreases diff.hunks@.len() - n,
    {
        let h = &diff.hunks[n];
        assert(hs[n as int] == h@);
        let (old, new) = hunk_sides(&h.lines);
        let p: usize = if h.old_start == 0 {
            0
        } else {
            h.old_start - 1
        };
        if p < at || old.len() > src.len() || p > src.len() - old.len() {
            proof {
                lemma_apply_err_sticks(sv, hs, (n + 1) as nat, hs.len());
            }
            return Err(n);
        }
        let mut k: usize = 0;
        while k < old.len()
            invariant
                k <= old@.len(),
                p + old@.len() <= src@.len(),
                forall|j: int| 0 <= j < k ==> src@[p + j]@ == old@[j]@,
            decreases old@.len() - k,
        {
            if src[p + k] != old[k] {
                assert(src.deep_view().subrange(p as int, p + old@.len())[k as int] != old.deep_view()[k as int]);
                proof {
                    lemma_apply_err_sticks(sv, hs, (n + 1) as nat, hs.len());
                }
                return Err(n);
            }
            k = k + 1;
        }
        assert(src.deep_view().subrange(p as int, p + old@.len()) =~= old.deep_view());
        let ghost ob = out.deep_view();
        let mut q: usize = at;
        while q < p
            invariant
                at <= q <= p <= src@.len(),
                out.deep_view() == ob + sv.subrange(at as int, q as int),
                sv == src.deep_view(),
            decreases p - q,
        {
            let ghost pre = out.deep_view();
            out.push(src[q].clone());
            assert(out.deep_view() =~= pre.push(sv[q as int]));
            assert(sv.subrange(at as int, q + 1) =~= sv.subrange(at as int, q as int).push(sv[q as int]));
            assert(out.deep_view() =~= ob + sv.subrange(at as int, q + 1));
            q = q + 1;
        }
        let ghost mid = out.deep_view();
        let mut j: usize = 0;
        while j < new.len()
            invariant
                j <= new@.len(),
                out.deep_view() == mid + new.deep_view().take(j as int),
            decreases new@.len() - j,
        {
            let ghost pre = out.deep_view();
            out.push(new[j].clone());
            assert(out.deep_view() =~= pre.push(new.deep_view()[j as int]));
            assert(new.deep_view().take(j + 1) =~= new.deep_view().take(j as int).push(new.deep_view()[j as int]));
            assert(out.deep_view() =~= mid + new.deep_view().take(j + 1));
            j = j + 1;
        }
        assert(new.deep_view().take(new@.len() as int) =~= new.deep_view());
        at = p + old.len();
        n = n + 1;
    }
    let ghost ob = out.deep_view();
    let mut q: usize = at;
    while q < src.len()
        invariant
            at <= q <= src@.len(),
            out.deep_view() == ob + sv.subrange(at as int, q as int),
            sv == src.deep_view(),
        decreases src@.len() - q,
    {
        let ghost pre = out.deep_view();
        out.push(src[q].clone());
        assert(out.deep_view() =~= pre.push(sv[q as int]));
        assert(sv.subrange(at as int, q + 1) =~= sv.subrange(at as int, q as int).push(sv[q as int]));
        assert(out.deep_view() =~= ob + sv.subrange(at as int, q + 1));
        q = q + 1;
    }
    assert(sv.subrange(at as int, src@.len() as int) =~= sv.skip(at as int));
    Ok(out)
}

/// File text after applying hunks `hs`: the patched lines joined by
/// newlines, with a final newline when the text had one.
pub open spec fn patched(text: Seq<char>, hs: Seq<HunkView>) -> Result<Seq<char>, nat> {
    match applied(lines_of(text), hs) {
        Err(e) => Err(e),
        Ok(ls) => Ok(
            if ends_with(text, "\n"@) && ls.len() > 0 {
                join_with(ls, '\n').push('\n')
            } else {
                join_with(ls, '\n')
            },
        ),
    }
}

/// Applies `diff` to the text of a file. `Err` holds the index of the first
/// hunk that does not match.
pub fn apply_diff_to_content(content: &str, diff: &UnifiedDiff) -> (r: Result<String, usize>)
    ensures
        r matches Ok(t) ==> patched(content@, diff@) == Ok::<Seq<char>, nat>(t@),
        r matches Err(e) ==> patched(content@, diff@) == Err::<Seq<char>, nat>(e as nat),
{
    let src = lines(content);
    match apply_hunks(&src, diff) {
        Err(e) => Err(e),
        Ok(out) => {
            let mut t = join_lines(&out);
            let cs = chars_of(content);
            if has_suffix(&cs, "\n") && out.len() > 0 {
                push_char(&mut t, '\n');
            }
            Ok(t)
        },
    }
}

} // verus!
