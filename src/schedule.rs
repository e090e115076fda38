//! Generation scheduling: files split into tiers and fixed-size batches,
//! retries of rate-limited calls with exponential backoff, and the flag that
//! holds suggestion generation until summaries are complete.
use vstd::prelude::*;

verus! {

/// How many times a rate-limited call is retried.
pub const MAX_RETRIES: u32 = 3;

/// The wait before the first retry, in seconds.
pub const INITIAL_BACKOFF_SECS: u64 = 2;

/// Each retry waits this many times longer than the one before.
pub const BACKOFF_MULTIPLIER: u64 = 2;

/// `s` cut into consecutive pieces of `n` items, the last possibly shorter.
pub open spec fn chunks(s: Seq<Seq<char>>, n: nat) -> Seq<Seq<Seq<char>>>
    decreases s.len(),
{
    if n == 0 || s.len() == 0 {
        seq![]
    } else if s.len() <= n {
        seq![s]
    } else {
        seq![s.take(n as int)] + chunks(s.skip(n as int), n)
    }
}

/// The batches of every tier, tier by tier.
pub open spec fn batches_of(tiers: Seq<Seq<Seq<char>>>, n: nat) -> Seq<Seq<Seq<char>>>
    decreases tiers.len(),
{
    if tiers.len() == 0 {
        seq![]
    } else {
        batches_of(tiers.drop_last(), n) + chunks(tiers.last(), n)
    }
}

/// All items of `ss`, in order.
pub open spec fn flat(ss: Seq<Seq<Seq<char>>>) -> Seq<Seq<char>>
    decreases ss.len(),
{
    if ss.len() == 0 {
        seq![]
    } else {
        flat(ss.drop_last()) + ss.last()
    }
}

proof fn lemma_flat_concat(a: Seq<Seq<Seq<char>>>, b: Seq<Seq<Seq<char>>>)
    ensures
        flat(a + b) == flat(a) + flat(b),
    decreases b.len(),
{
    if b.len() == 0 {
        assert(a + b =~= a);
        assert(flat(b) =~= seq![]);
        assert(flat(a) + flat(b) =~= flat(a));
    } else {
        lemma_flat_concat(a, b.drop_last());
        assert((a + b).drop_last() =~= a + b.drop_last());
        assert(flat(a) + flat(b.drop_last()) + b.last() =~= flat(a) + (flat(b.drop_last()) + b.last()));
    }
}

proof fn lemma_flat_single(x: Seq<Seq<char>>)
    ensures
        flat(seq![x]) == x,
{
    assert(seq![x].drop_last() =~= Seq::<Seq<Seq<char>>>::empty());
    assert(flat(Seq::<Seq<Seq<char>>>::empty()) + x =~= x);
}

proof fn lemma_chunks(s: Seq<Seq<char>>, n: nat)
    requires
        n > 0,
    ensures
        flat(chunks(s, n)) == s,
        forall|i: int| 0 <= i < chunks(s, n).len() ==> 0 < (#[trigger] chunks(s, n)[i]).len() <= n,
    decreases s.len(),
{
    if s.len() == 0 {
        assert(flat(chunks(s, n)) =~= s);
    } else if s.len() <= n {
        lemma_flat_single(s);
    } else {
        lemma_chunks(s.skip(n as int), n);
        lemma_flat_concat(seq![s.take(n as int)], chunks(s.skip(n as int), n));
        lemma_flat_single(s.take(n as int));
        assert(s.take(n as int) + s.skip(n as int) =~= s);
    }
}

/// Every file is scheduled exactly once and in order: the batches hold the
/// tiers' files one after the other, none empty and none over the size.
pub proof fn lemma_batches_cover(tiers: Seq<Seq<Seq<char>>>, n: nat)
    requires
        n > 0,
    ensures
        flat(batches_of(tiers, n)) == flat(tiers),
        forall|i: int| 0 <= i < batches_of(tiers, n).len() ==> 0 < (#[trigger] batches_of(tiers, n)[i]).len() <= n,
    decreases tiers.len(),
{
    if tiers.len() > 0 {
        lemma_batches_cover(tiers.drop_last(), n);
        lemma_chunks(tiers.last(), n);
        lemma_flat_concat(batches_of(tiers.drop_last(), n), chunks(tiers.last(), n));
        let a = batches_of(tiers.drop_last(), n);
        let c = chunks(tiers.last(), n);
        assert forall|i: int| 0 <= i < (a + c).len() implies 0 < (#[trigger] (a + c)[i]).len() <= n by {
            if i < a.len() {
                assert((a + c)[i] == a[i]);
            } else {
                assert((a + c)[i] == c[i - a.len()]);
            }
        }
    }
}

fn copy_paths(v: &Vec<String>, from: usize, to: usize) -> (r: Vec<String>)
    requires
        from <= to <= v@.len(),
    ensures
        r.deep_view() == v.deep_view().subrange(from as int, to as int),
{
    let mut r: Vec<String> = Vec::new();
    let mut i = from;
    while i < to
        invariant
            from <= i <= to <= v@.len(),
            r.deep_view() == v.deep_view().subrange(from as int, i as int),
        decreases to - i,
    {
        let ghost before = r.deep_view();
        r.push(v[i].clone());
        assert(r.deep_view() =~= before.push(v.deep_view()[i as int]));
        assert(r.deep_view() =~= v.deep_view().subrange(from as int, i + 1));
        i = i + 1;
    }
    r
}

/// Splits each tier into batches of at most `batch_size` files, tier by
/// tier, keeping the files' order.
pub fn plan_batches(tiers: &Vec<Vec<String>>, batch_size: usize) -> (r: Vec<Vec<String>>)
    requires
        batch_size > 0,
    ensures
        r.deep_view() == batches_of(tiers.deep_view(), batch_size as nat),
{
    let mut r: Vec<Vec<String>> = Vec::new();
    let mut t: usize = 0;
    let ghost tv = tiers.deep_view();
    assert(r.deep_view() =~= batches_of(tv.take(0), batch_size as nat));
    while t < tiers.len()
        invariant
            t <= tiers@.len(),
            batch_size > 0,
            tv == tiers.deep_view(),
            r.deep_view() == batches_of(tv.take(t as int), batch_size as nat),
        decreases tiers@.len() - t,
    {
        let tier = &tiers[t];
        let ghost tier_v = tier.deep_view();
        assert(tv.take(t + 1).drop_last() =~= tv.take(t as int));
        assert(tv.take(t + 1).last() == tier_v);
        let ghost start = r.deep_view();
        let mut from: usize = 0;
        assert(tier_v.skip(0) =~= tier_v);
        assert(start + seq![] =~= start);
        while from < tier.len()
            invariant
                from <= tier@.len(),
                batch_size > 0,
                tier_v == tier.deep_view(),
                start + chunks(tier_v, batch_size as nat) == r.deep_view() + chunks(tier_v.skip(from as int), batch_size as nat),
            decreases tier@.len() - from,
        {
            let to = if tier.len() - from <= batch_size { tier.len() } else { from + batch_size };
            let batch = copy_paths(tier, from, to);
            let ghost rest = tier_v.skip(from as int);
            assert(rest.take(batch_size as int) =~= tier_v.subrange(from as int, to as int) || rest.len() <= batch_size);
            assert(rest.len() <= batch_size ==> rest =~= tier_v.subrange(from as int, to as int));
            assert(rest.len() > batch_size ==> rest.skip(batch_size as int) =~= tier_v.skip(to as int));
            let ghost before = r.deep_view();
            r.push(batch);
            assert(r.deep_view() =~= before.push(tier_v.subrange(from as int, to as int)));
            if to == tier.len() {
                assert(tier_v.skip(to as int) =~= seq![]);
            }
            assert(before + chunks(rest, batch_size as nat) =~= r.deep_view() + chunks(tier_v.skip(to as int), batch_size as nat));
            from = to;
        }
        assert(tier_v.skip(tier@.len() as int) =~= seq![]);
        assert(r.deep_view() + chunks(seq![], batch_size as nat) =~= r.deep_view());
        t = t + 1;
    }
    assert(tv.take(tiers@.len() as int) =~= tv);
    r
}

/// Why a generation call failed for good.
#[derive(Debug, Clone, Copy, PartialEq, Eq, Structural)]
pub enum CallFailure {
    /// The gateway refused the key.
    InvalidKey,
    /// Still rate limited after this many retries.
    RateLimited(u32),
    /// Any other status, reported as is.
    Api(u16),
}

/// What to do after a response.
#[derive(Debug, Clone, Copy, PartialEq, Eq, Structural)]
pub enum CallDecision {
    /// The call succeeded: use its result.
    Succeeded,
    /// Wait this many seconds, then make the call again.
    RetryAfter(u64),
    /// Give up and surface the failure.
    Failed(CallFailure),
}

/// The wait before retry number `n` (from one): the initial wait, doubled
/// for each retry before it.
pub open spec fn backoff_secs(n: nat) -> nat
    decreases n,
{
    if n <= 1 {
        INITIAL_BACKOFF_SECS as nat
    } else {
        backoff_secs((n - 1) as nat) * BACKOFF_MULTIPLIER as nat
    }
}

/// What a response with HTTP `status` means after `retries` retries: success
/// on 2xx; a rate limit (429) is retried with exponential backoff until the
/// retries run out; every other failure is final at once.
pub open spec fn decision_for(status: u16, retries: u32) -> CallDecision {
    if 200 <= status < 300 {
        CallDecision::Succeeded
    } else if status == 429 && retries < MAX_RETRIES {
        CallDecision::RetryAfter(backoff_secs((retries + 1) as nat) as u64)
    } else if status == 401 {
        CallDecision::Failed(CallFailure::InvalidKey)
    } else if status == 429 {
        CallDecision::Failed(CallFailure::RateLimited(retries))
    } else {
        CallDecision::Failed(CallFailure::Api(status))
    }
}

/// Decides what to do after a response with HTTP `status`, `retries`
/// retries having been made already.
pub fn decide(status: u16, retries: u32) -> (r: CallDecision)
    ensures
        r == decision_for(status, retries),
{
    if 200 <= status && status < 300 {
        CallDecision::Succeeded
    } else if status == 429 && retries < MAX_RETRIES {
        let mut secs: u64 = INITIAL_BACKOFF_SECS;
        let mut k: u32 = 1;
        while k <= retries
            invariant
                1 <= k <= retries + 1,
                retries < MAX_RETRIES,
                secs as nat == backoff_secs(k as nat),
                secs <= 8,
                k <= 2 ==> secs <= 4,
                k <= 1 ==> secs <= 2,
            decreases retries + 1 - k,
        {
            secs = secs * BACKOFF_MULTIPLIER;
            k = k + 1;
        }
        CallDecision::RetryAfter(secs)
    } else if status == 401 {
        CallDecision::Failed(CallFailure::InvalidKey)
    } else if status == 429 {
        CallDecision::Failed(CallFailure::RateLimited(retries))
    } else {
        CallDecision::Failed(CallFailure::Api(status))
    }
}

/// Progress of a generation run, and the flag that holds suggestion
/// generation until the summaries are done.
#[derive(Debug, Clone, Copy, PartialEq, Eq, Structural)]
pub struct GenerationProgress {
    pub completed: usize,
    pub total: usize,
    pub summaries_done: bool,
    pub suggestions_pending: bool,
}

impl GenerationProgress {
    /// A run over `total` files, nothing done yet.
    pub fn new(total: usize) -> (r: GenerationProgress)
        ensures
            r == (GenerationProgress { completed: 0, total, summaries_done: false, suggestions_pending: false }),
    {
        GenerationProgress { completed: 0, total, summaries_done: false, suggestions_pending: false }
    }

    /// A batch of `n` files completed; returns the progress to report,
    /// completed and total.
    pub fn batch_completed(&mut self, n: usize) -> (r: (usize, usize))
        requires
            old(self).completed + n <= old(self).total,
        ensures
            *final(self) == (GenerationProgress { completed: (old(self).completed + n) as usize, ..*old(self) }),
            r == (final(self).completed, final(self).total),
    {
        self.completed = self.completed + n;
        (self.completed, self.total)
    }

    /// Suggestion generation is asked for: `true` means start it now; while
    /// summaries are still running it is deferred instead.
    pub fn request_suggestions(&mut self) -> (r: bool)
        ensures
            r == old(self).summaries_done,
            *final(self) == (GenerationProgress { suggestions_pending: !old(self).summaries_done || old(self).suggestions_pending, ..*old(self) }),
    {
        if self.summaries_done {
            true
        } else {
            self.suggestions_pending = true;
            false
        }
    }

    /// The summaries finished: `true` means a deferred suggestion
    /// generation starts now.
    pub fn summaries_finished(&mut self) -> (r: bool)
        ensures
            r == old(self).suggestions_pending,
            *final(self) == (GenerationProgress { summaries_done: true, suggestions_pending: false, ..*old(self) }),
    {
        let start = self.suggestions_pending;
        self.summaries_done = true;
        self.suggestions_pending = false;
        start
    }
}

} // verus!
