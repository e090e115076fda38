//! Version checks against the latest published release.
use crate::text::{
    chars_of, decimal_at_most, parse_decimal, split_chars, split_on, trim_start_all, trim_start_matches,
};
use vstd::prelude::*;

verus! {

/// The version of this build.
pub const CURRENT_VERSION: &'static str = "0.5.0";

/// A release newer than the running one.
#[derive(Debug, Clone)]
pub struct UpdateInfo {
    pub latest_version: String,
}

/// A version component read the way `u32::from_str` reads it: decimal
/// digits, optionally behind one `+`, at most `u32::MAX`.
pub open spec fn u32_of(s: Seq<char>) -> Option<nat> {
    if s.len() > 0 && s[0] == '+' {
        decimal_at_most(s.skip(1), u32::MAX as nat)
    } else {
        decimal_at_most(s, u32::MAX as nat)
    }
}

/// `major.minor.patch` of a version string: leading `v`s dropped, at least
/// three dot-separated parts, a pre-release suffix after `-` in the third
/// part ignored.
pub open spec fn version_of(v: Seq<char>) -> Option<(nat, nat, nat)> {
    let parts = split_on(trim_start_all(v, "v"@), '.');
    if parts.len() < 3 {
        None
    } else {
        match (u32_of(parts[0]), u32_of(parts[1]), u32_of(split_on(parts[2], '-')[0])) {
            (Some(a), Some(b), Some(c)) => Some((a, b, c)),
            _ => None,
        }
    }
}

/// Whether `a` is a later version than `b`, comparing major, then minor,
/// then patch.
pub open spec fn version_after(a: (nat, nat, nat), b: (nat, nat, nat)) -> bool {
    a.0 > b.0 || (a.0 == b.0 && (a.1 > b.1 || (a.1 == b.1 && a.2 > b.2)))
}

fn parse_component(s: &[char]) -> (r: Option<u32>)
    ensures
        r matches Some(v) ==> u32_of(s@) == Some(v as nat),
        r is None ==> u32_of(s@) is None,
{
    let digits = if s.len() > 0 && s[0] == '+' {
        crate::text::slice_range(s, 1, s.len())
    } else {
        crate::text::slice_range(s, 0, s.len())
    };
    assert(s@.len() > 0 && s@[0] == '+' ==> digits@ =~= s@.skip(1));
    assert(!(s@.len() > 0 && s@[0] == '+') ==> digits@ =~= s@);
    match parse_decimal(&digits, u32::MAX as u64) {
        Some(v) => Some(v as u32),
        None => None,
    }
}

/// Reads `major.minor.patch` from a version string.
pub fn parse_version(v: &str) -> (r: Option<(u32, u32, u32)>)
    ensures
        r matches Some((a, b, c)) ==> version_of(v@) == Some((a as nat, b as nat, c as nat)),
        r is None ==> version_of(v@) is None,
{
    let cs = chars_of(v);
    let t = trim_start_matches(&cs, "v");
    let parts = split_chars(&t, '.');
    if parts.len() < 3 {
        return None;
    }
    let patch = split_chars(&parts[2], '-');
    assert(parts@[0].deep_view() =~= parts@[0]@);
    assert(parts@[1].deep_view() =~= parts@[1]@);
    assert(parts@[2].deep_view() =~= parts@[2]@);
    assert(patch@[0].deep_view() =~= patch@[0]@);
    match (parse_component(&parts[0]), parse_component(&parts[1]), parse_component(&patch[0])) {
        (Some(a), Some(b), Some(c)) => Some((a, b, c)),
        _ => None,
    }
}

/// Whether `latest` names a later version than `current`. A string that is
/// not a version makes the answer `false`.
pub fn is_newer_version(latest: &str, current: &str) -> (r: bool)
    ensures
        r == match (version_of(latest@), version_of(current@)) {
            (Some(l), Some(c)) => version_after(l, c),
            _ => false,
        },
{
    match (parse_version(latest), parse_version(current)) {
        (Some((la, lb, lc)), Some((ca, cb, cc))) => la > ca || (la == ca && (lb > cb || (lb == cb
            && lc > cc))),
        _ => false,
    }
}

/// The update to offer, if `latest` is newer than the running version.
pub fn update_for(latest: String) -> (r: Option<UpdateInfo>)
    ensures
        r is Some <==> match (version_of(latest@), version_of(CURRENT_VERSION@)) {
            (Some(l), Some(c)) => version_after(l, c),
            _ => false,
        },
        r matches Some(u) ==> u.latest_version == latest,
{
    if is_newer_version(latest.as_str(), CURRENT_VERSION) {
        Some(UpdateInfo { latest_version: latest })
    } else {
        None
    }
}

} // verus!
