//! Whether the running binary was built from the checkout it runs in.
use crate::text::{chars_of, is_text, split_chars, split_on, string_of, take_chars};
use vstd::prelude::*;
use vstd::string::StringExecFns;

verus! {

/// The build's revision and the checkout's, when they differ.
#[derive(Debug, Clone)]
pub struct StaleBuildInfo {
    pub build: String,
    pub current: String,
}

/// The revision part of an identifier like `abc1234+dirty`.
pub open spec fn revision_base(id: Seq<char>) -> Seq<char> {
    split_on(id, '+')[0]
}

fn base_of(id: &str) -> (r: Vec<char>)
    ensures
        r@ == revision_base(id@),
{
    let c = chars_of(id);
    let parts = split_chars(&c, '+');
    assert(parts@[0].deep_view() =~= parts@[0]@);
    parts[0].clone()
}

/// A notice when the build's revision `build` and the checkout's revision
/// `current` differ. A build of unknown revision, or a checkout whose
/// revision could not be read, gives none.
pub fn stale_build_notice(build: &str, current: Option<String>) -> (r: Option<StaleBuildInfo>)
    ensures
        r is Some <==> (revision_base(build@).len() > 0 && revision_base(build@) != "unknown"@
            && current is Some && revision_base(current->0@) != revision_base(build@)),
        r matches Some(info) ==> info.build@ == build@ && current == Some(info.current),
{
    let b = base_of(build);
    if b.len() == 0 || is_text(&b, "unknown") {
        return None;
    }
    match current {
        None => None,
        Some(c) => {
            let cb = base_of(c.as_str());
            if crate::text::same_chars(&cb, &b) {
                None
            } else {
                Some(StaleBuildInfo { build: String::from_str(build), current: c })
            }
        },
    }
}

/// The first `short_len` characters of a full revision id, at least one and
/// at most all of them.
pub fn short_oid(full: &str, short_len: usize) -> (r: String)
    ensures
        r@ == take_chars(full@, if short_len >= 1 { short_len as nat } else { 1nat }),
{
    let c = chars_of(full);
    let n: usize = if short_len >= 1 { short_len } else { 1 };
    if c.len() <= n {
        return String::from_str(full);
    }
    let head = crate::text::slice_range(&c, 0, n);
    assert(head@ =~= full@.take(n as int));
    string_of(&head)
}

} // verus!
