//! Glyphs and small text gauges for the interface.
use crate::text::push_char;
use vstd::prelude::*;

verus! {

/// The interface's glyphs.
pub struct Theme;

impl Theme {
    pub const BAR_FILLED: char = '\u{2588}';
    pub const BAR_EMPTY: char = '\u{2591}';
    pub const BULLET_FILLED: char = '\u{25CF}';
    pub const BULLET_EMPTY: char = '\u{25CB}';
    pub const STAR_FILLED: char = '\u{2726}';
    pub const STAR_EMPTY: char = '\u{2727}';
    pub const DOT_SEPARATOR: char = '\u{00B7}';
}

/// The eight sparkline levels, lowest first.
pub open spec fn spark_char(level: nat) -> char {
    if level == 0 { '\u{2581}' }
    else if level == 1 { '\u{2582}' }
    else if level == 2 { '\u{2583}' }
    else if level == 3 { '\u{2584}' }
    else if level == 4 { '\u{2585}' }
    else if level == 5 { '\u{2586}' }
    else if level == 6 { '\u{2587}' }
    else { '\u{2588}' }
}

fn spark_char_exec(level: u64) -> (c: char)
    ensures
        c == spark_char(level as nat),
{
    if level == 0 { '\u{2581}' }
    else if level == 1 { '\u{2582}' }
    else if level == 2 { '\u{2583}' }
    else if level == 3 { '\u{2584}' }
    else if level == 4 { '\u{2585}' }
    else if level == 5 { '\u{2586}' }
    else if level == 6 { '\u{2587}' }
    else { '\u{2588}' }
}

/// `n` characters, the first `filled` of them `on` and the rest `off`.
pub open spec fn gauge(filled: nat, n: nat, on: char, off: char) -> Seq<char> {
    Seq::new(n, |i: int| if i < filled { on } else { off })
}

fn gauge_exec(filled: usize, n: usize, on: char, off: char) -> (r: String)
    ensures
        r@ == gauge(filled as nat, n as nat, on, off),
{
    let mut r = String::new();
    let mut i: usize = 0;
    while i < n
        invariant
            i <= n,
            r@ == gauge(filled as nat, i as nat, on, off),
        decreases n - i,
    {
        push_char(&mut r, if i < filled { on } else { off });
        assert(r@ =~= gauge(filled as nat, (i + 1) as nat, on, off));
        i = i + 1;
    }
    r
}

/// `width` characters of the repeating separator `· ` pattern.
pub open spec fn constellation(width: nat) -> Seq<char> {
    Seq::new(width, |i: int| if i % 2 == 0 { '\u{00B7}' } else { ' ' })
}

/// A decorative separator `· · · ...` of `width` characters.
pub fn constellation_line(width: usize) -> (r: String)
    ensures
        r@ == constellation(width as nat),
{
    let mut r = String::new();
    let mut i: usize = 0;
    while i < width
        invariant
            i <= width,
            r@ == constellation(i as nat),
        decreases width - i,
    {
        push_char(&mut r, if i % 2 == 0 { Theme::DOT_SEPARATOR } else { ' ' });
        assert(r@ =~= constellation((i + 1) as nat));
        i = i + 1;
    }
    r
}

/// `total` stars, the first `filled` of them filled.
pub fn star_rating(filled: usize, total: usize) -> (r: String)
    ensures
        r@ == gauge(filled as nat, total as nat, '\u{2726}', '\u{2727}'),
{
    gauge_exec(filled, total, Theme::STAR_FILLED, Theme::STAR_EMPTY)
}

/// A bar of `width` cells, filled in proportion to `value` out of 100
/// (rounded down).
pub fn bar_gauge(value: u8, width: usize) -> (r: String)
    requires
        value as int * width as int <= usize::MAX,
    ensures
        r@ == gauge((value as nat * width as nat) / 100, width as nat, '\u{2588}', '\u{2591}'),
{
    let filled = (value as usize * width) / 100;
    gauge_exec(filled, width, Theme::BAR_FILLED, Theme::BAR_EMPTY)
}

/// `max_dots` dots, filled in proportion to `value` out of 100 (rounded to
/// the nearest dot).
pub fn dot_gauge(value: u8, max_dots: usize) -> (r: String)
    requires
        value as int * max_dots as int + 50 <= usize::MAX,
    ensures
        r@ == gauge((value as nat * max_dots as nat + 50) / 100, max_dots as nat, '\u{25CF}', '\u{25CB}'),
{
    let filled = (value as usize * max_dots + 50) / 100;
    gauge_exec(filled, max_dots, Theme::BULLET_FILLED, Theme::BULLET_EMPTY)
}

/// The sparkline level of `v` between `lo` and `hi`: its position scaled to
/// 0..7 and rounded half up.
pub open spec fn spark_level(v: nat, lo: nat, hi: nat) -> nat {
    let range: nat = if hi - lo >= 1 { (hi - lo) as nat } else { 1 };
    let l = ((14 * (v - lo) + range) as int / (2 * range) as int) as nat;
    if l > 7 { 7 } else { l }
}

pub open spec fn seq_min(s: Seq<u8>) -> nat
    decreases s.len(),
{
    if s.len() == 0 {
        0
    } else if s.len() == 1 {
        s[0] as nat
    } else {
        let m = seq_min(s.drop_last());
        if (s.last() as nat) < m { s.last() as nat } else { m }
    }
}

pub open spec fn seq_max(s: Seq<u8>) -> nat
    decreases s.len(),
{
    if s.len() == 0 {
        0
    } else if s.len() == 1 {
        s[0] as nat
    } else {
        let m = seq_max(s.drop_last());
        if (s.last() as nat) > m { s.last() as nat } else { m }
    }
}

/// The sparkline of the last `width` values, padded on the left with
/// spaces, each value drawn at its level between the minimum and maximum of
/// all values.
pub open spec fn spark(values: Seq<u8>, width: nat) -> Seq<char> {
    if values.len() == 0 {
        Seq::new(width, |i: int| ' ')
    } else {
        let start: int = if values.len() > width { values.len() - width } else { 0 };
        let shown = values.skip(start);
        let pad: nat = if width > shown.len() { (width - shown.len()) as nat } else { 0 };
        Seq::new(pad, |i: int| ' ') + Seq::new(
            shown.len(),
            |i: int| spark_char(spark_level(shown[i] as nat, seq_min(values), seq_max(values))),
        )
    }
}

proof fn lemma_min_max(s: Seq<u8>)
    requires
        s.len() > 0,
    ensures
        forall|i: int| 0 <= i < s.len() ==> seq_min(s) <= #[trigger] s[i] <= seq_max(s),
        seq_min(s) <= 255,
        seq_max(s) <= 255,
    decreases s.len(),
{
    if s.len() > 1 {
        lemma_min_max(s.drop_last());
        assert forall|i: int| 0 <= i < s.len() implies seq_min(s) <= #[trigger] s[i] <= seq_max(s) by {
            if i < s.len() - 1 {
                assert(s.drop_last()[i] == s[i]);
            }
        }
    }
}

/// A sparkline of the last `width` values.
pub fn sparkline(values: &[u8], width: usize) -> (r: String)
    ensures
        r@ == spark(values@, width as nat),
{
    let mut r = String::new();
    if values.len() == 0 {
        let mut i: usize = 0;
        while i < width
            invariant
                i <= width,
                r@ == Seq::new(i as nat, |k: int| ' '),
            decreases width - i,
        {
            push_char(&mut r, ' ');
            assert(r@ =~= Seq::new((i + 1) as nat, |k: int| ' '));
            i = i + 1;
        }
        return r;
    }
    let mut lo: u8 = values[0];
    let mut hi: u8 = values[0];
    let mut k: usize = 1;
    assert(values@.take(1).drop_last() =~= Seq::<u8>::empty());
    while k < values.len()
        invariant
            1 <= k <= values@.len(),
            lo as nat == seq_min(values@.take(k as int)),
            hi as nat == seq_max(values@.take(k as int)),
        decreases values@.len() - k,
    {
        assert(values@.take(k + 1).drop_last() =~= values@.take(k as int));
        if values[k] < lo {
            lo = values[k];
        }
        if values[k] > hi {
            hi = values[k];
        }
        k = k + 1;
    }
    assert(values@.take(values@.len() as int) =~= values@);
    proof {
        lemma_min_max(values@);
    }
    let range: u64 = if hi - lo >= 1 { (hi - lo) as u64 } else { 1 };
    let start: usize = if values.len() > width { values.len() - width } else { 0 };
    let shown_len = values.len() - start;
    let pad: usize = if width > shown_len { width - shown_len } else { 0 };
    let mut i: usize = 0;
    while i < pad
        invariant
            i <= pad,
            r@ == Seq::new(i as nat, |k: int| ' '),
        decreases pad - i,
    {
        push_char(&mut r, ' ');
        assert(r@ =~= Seq::new((i + 1) as nat, |k: int| ' '));
        i = i + 1;
    }
    let ghost shown = values@.skip(start as int);
    let ghost head = r@;
    let mut j: usize = start;
    while j < values.len()
        invariant
            start <= j <= values@.len(),
            shown == values@.skip(start as int),
            lo as nat == seq_min(values@),
            hi as nat == seq_max(values@),
            lo <= hi,
            range as nat == (if hi - lo >= 1 { (hi - lo) as nat } else { 1nat }),
            r@ == head + Seq::new(
                (j - start) as nat,
                |i: int| spark_char(spark_level(shown[i] as nat, seq_min(values@), seq_max(values@))),
            ),
            forall|i: int| 0 <= i < values@.len() ==> lo <= #[trigger] values@[i] <= hi,
        decreases values@.len() - j,
    {
        let v = values[j];
        assert(lo <= v);
        let num: u64 = 14 * ((v - lo) as u64) + range;
        let mut level: u64 = num / (2 * range);
        if level > 7 {
            level = 7;
        }
        push_char(&mut r, spark_char_exec(level));
        assert(shown[j - start] == v);
        assert(r@ =~= head + Seq::new(
            (j + 1 - start) as nat,
            |i: int| spark_char(spark_level(shown[i] as nat, seq_min(values@), seq_max(values@))),
        ));
        j = j + 1;
    }
    r
}

} // verus!
