//! Small text and path helpers.
use crate::text::{chars_of, decimal_digits, push_decimal, push_str, slice_range, string_of};
use vstd::prelude::*;
use vstd::string::StringExecFns;

verus! {

/// `s` cut to at most `max` characters; when it is cut and there is room,
/// the last three kept characters become `...`.
pub open spec fn truncated(s: Seq<char>, max: nat) -> Seq<char> {
    if max == 0 {
        seq![]
    } else if s.len() <= max {
        s
    } else if max <= 3 {
        s.take(max as int)
    } else {
        s.take(max - 3) + "..."@
    }
}

/// Cuts `s` to at most `max` characters, marking a cut with `...`.
pub fn truncate(s: &str, max: usize) -> (r: String)
    ensures
        r@ == truncated(s@, max as nat),
{
    if max == 0 {
        return String::new();
    }
    let cs = chars_of(s);
    if cs.len() <= max {
        return String::from_str(s);
    }
    if max <= 3 {
        let head = slice_range(&cs, 0, max);
        assert(head@ =~= s@.take(max as int));
        return string_of(&head);
    }
    let head = slice_range(&cs, 0, max - 3);
    assert(head@ =~= s@.take(max - 3));
    let mut r = string_of(&head);
    push_str(&mut r, "...");
    r
}

/// A path inside a repository: absolute, and relative to the root.
#[derive(Debug, Clone)]
pub struct RepoPath {
    pub absolute: String,
    pub relative: String,
}

/// The `/`-separated components of a path.
pub open spec fn components(p: Seq<char>) -> Seq<Seq<char>> {
    crate::text::split_on(p, '/')
}

/// Why a candidate path is refused before it is resolved: empty, absolute,
/// or climbing out through `..`.
pub open spec fn candidate_problem(c: Seq<char>) -> Option<nat> {
    if c.len() == 0 {
        Some(0)
    } else if c[0] == '/' {
        Some(1)
    } else if components(c).contains(".."@) {
        Some(2)
    } else {
        None
    }
}

/// Whether canonical path `abs` lies at or under canonical directory `root`.
pub open spec fn within(root: Seq<char>, abs: Seq<char>) -> bool {
    abs == root || (root == "/"@ && abs.len() > 0 && abs[0] == '/') || (abs.len() > root.len()
        && abs.take(root.len() as int) == root && abs[root.len() as int] == '/')
}

/// `abs` relative to `root`, for a path within it.
pub open spec fn relative_to(root: Seq<char>, abs: Seq<char>) -> Seq<char> {
    if abs == root {
        seq![]
    } else if root == "/"@ {
        abs.skip(1)
    } else {
        abs.skip(root.len() + 1int)
    }
}

/// Resolves a repository-relative `candidate`, given the canonical forms of
/// the repository root and of the joined path (which the caller obtains
/// from the file system). Refuses an empty, absolute or `..`-climbing
/// candidate, and one whose canonical form escapes the root.
pub fn resolve_repo_path(root: &str, candidate: &str, absolute: &str) -> (r: Result<RepoPath, String>)
    ensures
        r is Ok <==> candidate_problem(candidate@) is None && within(root@, absolute@),
        r matches Ok(p) ==> p.absolute@ == absolute@ && p.relative@ == relative_to(root@, absolute@),
{
    let c = chars_of(candidate);
    if c.len() == 0 {
        return Err(String::from_str("Path is empty"));
    }
    if c[0] == '/' {
        let mut msg = String::from_str("Absolute paths are not allowed: ");
        push_str(&mut msg, candidate);
        return Err(msg);
    }
    let parts = crate::text::split_chars(&c, '/');
    let mut i: usize = 0;
    while i < parts.len()
        invariant
            i <= parts@.len(),
            parts.deep_view() == components(c@),
            c@ == candidate@,
            c@.len() > 0,
            c@[0] != '/',
            forall|j: int| 0 <= j < i ==> parts.deep_view()[j] != ".."@,
        decreases parts@.len() - i,
    {
        assert(parts@[i as int].deep_view() =~= parts@[i as int]@);
        if crate::text::is_text(&parts[i], "..") {
            assert(components(c@)[i as int] == ".."@);
            assert(components(c@).contains(".."@));
            let mut msg = String::from_str("Parent traversal is not allowed: ");
            push_str(&mut msg, candidate);
            return Err(msg);
        }
        i = i + 1;
    }
    let rc = chars_of(root);
    let ac = chars_of(absolute);
    let is_root = crate::text::same_chars(&ac, &rc);
    let root_is_slash = crate::text::is_text(&rc, "/");
    let under = ac.len() > rc.len() && crate::text::matches_at(&ac, &rc, 0) && ac[rc.len()] == '/';
    proof {
        if ac@.len() > rc@.len() {
            assert(ac@.subrange(0, rc@.len() as int) =~= ac@.take(rc@.len() as int));
        }
    }
    if !(is_root || (root_is_slash && ac.len() > 0 && ac[0] == '/') || under) {
        let mut msg = String::from_str("Path escapes repository: ");
        push_str(&mut msg, candidate);
        return Err(msg);
    }
    let relative = if is_root {
        String::new()
    } else if root_is_slash {
        let rest = slice_range(&ac, 1, ac.len());
        assert(rest@ =~= ac@.skip(1));
        string_of(&rest)
    } else {
        let rest = slice_range(&ac, rc.len() + 1, ac.len());
        assert(rest@ =~= ac@.skip(rc@.len() + 1int));
        string_of(&rest)
    };
    Ok(RepoPath { absolute: String::from_str(absolute), relative })
}

/// `path` cut to its last `max_len - 3` bytes behind `...` when it is
/// longer than `max_len` characters.
pub open spec fn path_shortened(path: Seq<char>, max_len: nat) -> Seq<char> {
    if path.len() <= max_len {
        path
    } else if max_len >= 3 {
        "..."@ + path.skip(path.len() - max_len + 3)
    } else {
        "..."@ + path.skip(path.len() as int)
    }
}

/// Shortens a path for display, keeping its end.
pub fn truncate_path(path: &str, max_len: usize) -> (r: String)
    ensures
        r@ == path_shortened(path@, max_len as nat),
{
    let cs = chars_of(path);
    if cs.len() <= max_len {
        return String::from_str(path);
    }
    let start = if max_len >= 3 {
        cs.len() - max_len + 3
    } else {
        cs.len()
    };
    let tail = slice_range(&cs, start, cs.len());
    assert(tail@ =~= path@.skip(start as int));
    let mut r = String::from_str("...");
    let t = string_of(&tail);
    push_str(&mut r, t.as_str());
    r
}

/// How long ago something happened, `days` days back: `today`, then days,
/// weeks, months of thirty days, years of 365 days.
pub open spec fn time_ago(days: nat) -> Seq<char> {
    if days == 0 {
        "today"@
    } else if days == 1 {
        "1d"@
    } else if days < 7 {
        decimal_digits(days) + "d"@
    } else if days < 30 {
        decimal_digits(days / 7) + "w"@
    } else if days < 365 {
        decimal_digits(days / 30) + "mo"@
    } else {
        decimal_digits(days / 365) + "y"@
    }
}

/// A short age label for something `days` days old.
pub fn format_time_ago(days: u64) -> (r: String)
    ensures
        r@ == time_ago(days as nat),
{
    if days == 0 {
        return String::from_str("today");
    }
    if days == 1 {
        return String::from_str("1d");
    }
    let mut r = String::new();
    if days < 7 {
        push_decimal(&mut r, days);
        push_str(&mut r, "d");
    } else if days < 30 {
        push_decimal(&mut r, days / 7);
        push_str(&mut r, "w");
    } else if days < 365 {
        push_decimal(&mut r, days / 30);
        push_str(&mut r, "mo");
    } else {
        push_decimal(&mut r, days / 365);
        push_str(&mut r, "y");
    }
    r
}

/// `text` cut to `max_len - 3` characters behind `...` when it is longer
/// than `max_len` characters.
pub open spec fn text_shortened(text: Seq<char>, max_len: nat) -> Seq<char> {
    if text.len() <= max_len {
        text
    } else if max_len >= 3 {
        text.take(max_len - 3) + "..."@
    } else {
        "..."@
    }
}

/// Shortens a line of text for display, keeping its start.
pub fn truncate_text(text: &str, max_len: usize) -> (r: String)
    ensures
        r@ == text_shortened(text@, max_len as nat),
{
    let cs = chars_of(text);
    if cs.len() <= max_len {
        return String::from_str(text);
    }
    let keep: usize = if max_len >= 3 { max_len - 3 } else { 0 };
    let head = slice_range(&cs, 0, keep);
    assert(max_len >= 3 ==> head@ =~= text@.take(max_len - 3));
    assert(max_len < 3 ==> head@ =~= Seq::<char>::empty());
    let mut r = string_of(&head);
    push_str(&mut r, "...");
    r
}

} // verus!
