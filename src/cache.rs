//! The content-hash cache: generated summaries keyed by path and checked
//! against the fingerprint of the file they were generated from, and the
//! domain glossary accumulated while summarising.
use crate::text::{
    chars_of, matches_at, slice_range, starts_with, string_of, trim_start_all, trim_start_matches,
};
use vstd::prelude::*;
use vstd::string::StringExecFns;

verus! {

/// A summary generated for one file.
#[derive(Debug, Clone)]
pub struct CacheEntry {
    pub path: String,
    pub summary: String,
    /// Fingerprint of the file content the summary was generated from.
    pub fingerprint: String,
    /// When it was generated, in milliseconds since the Unix epoch.
    pub generated_at: i64,
}

/// A cache entry as a value.
pub struct CacheRecord {
    pub summary: Seq<char>,
    pub fingerprint: Seq<char>,
    pub generated_at: i64,
}

pub open spec fn record_of(e: CacheEntry) -> CacheRecord {
    CacheRecord { summary: e.summary@, fingerprint: e.fingerprint@, generated_at: e.generated_at }
}

/// The entries by path, later entries overriding earlier ones.
pub open spec fn cache_map(s: Seq<CacheEntry>) -> Map<Seq<char>, CacheRecord>
    decreases s.len(),
{
    if s.len() == 0 {
        Map::empty()
    } else {
        cache_map(s.drop_last()).insert(s.last().path@, record_of(s.last()))
    }
}

/// A term and its definition.
#[derive(Debug, Clone)]
pub struct GlossaryTerm {
    pub term: String,
    pub definition: String,
}

/// The glossary by term, later entries overriding earlier ones.
pub open spec fn glossary_map(s: Seq<GlossaryTerm>) -> Map<Seq<char>, Seq<char>>
    decreases s.len(),
{
    if s.len() == 0 {
        Map::empty()
    } else {
        glossary_map(s.drop_last()).insert(s.last().term@, s.last().definition@)
    }
}

/// Summaries and glossary.
#[derive(Debug, Clone)]
pub struct SummaryCache {
    pub entries: Vec<CacheEntry>,
    pub glossary: Vec<GlossaryTerm>,
}

/// Whether the file at `path`, whose content now has fingerprint `fp`,
/// needs a new summary: there is none, or it was made from other content.
pub open spec fn stale(c: Map<Seq<char>, CacheRecord>, path: Seq<char>, fp: Seq<char>) -> bool {
    !(c.contains_key(path) && c[path].fingerprint == fp)
}

/// A path and the fingerprint of its current content.
#[derive(Debug, Clone)]
pub struct FileFingerprint {
    pub path: String,
    pub fingerprint: String,
}

/// The paths of `fps` whose summaries are stale, in order.
pub open spec fn stale_paths(c: Map<Seq<char>, CacheRecord>, fps: Seq<FileFingerprint>) -> Seq<Seq<char>>
    decreases fps.len(),
{
    if fps.len() == 0 {
        seq![]
    } else if stale(c, fps.last().path@, fps.last().fingerprint@) {
        stale_paths(c, fps.drop_last()).push(fps.last().path@)
    } else {
        stale_paths(c, fps.drop_last())
    }
}

/// The summaries still valid for `fps`: path and summary, in order.
pub open spec fn valid_pairs(c: Map<Seq<char>, CacheRecord>, fps: Seq<FileFingerprint>) -> Seq<(Seq<char>, Seq<char>)>
    decreases fps.len(),
{
    if fps.len() == 0 {
        seq![]
    } else if !stale(c, fps.last().path@, fps.last().fingerprint@) {
        valid_pairs(c, fps.drop_last()).push((fps.last().path@, c[fps.last().path@].summary))
    } else {
        valid_pairs(c, fps.drop_last())
    }
}

/// A summary made from unchanged content stays valid: once a summary for
/// `path` is stored with fingerprint `fp`, the file needs no new summary
/// while its fingerprint stays `fp`, and it is left out of the files to
/// generate for, whatever else they hold.
pub proof fn lemma_unchanged_not_regenerated(
    c: Map<Seq<char>, CacheRecord>,
    path: Seq<char>,
    r: CacheRecord,
    fps: Seq<FileFingerprint>,
)
    requires
        forall|i: int| 0 <= i < fps.len() && (#[trigger] fps[i]).path@ == path ==> fps[i].fingerprint@ == r.fingerprint,
    ensures
        !stale(c.insert(path, r), path, r.fingerprint),
        !stale_paths(c.insert(path, r), fps).contains(path),
    decreases fps.len(),
{
    if fps.len() > 0 {
        let d = fps.drop_last();
        assert forall|i: int| 0 <= i < d.len() && (#[trigger] d[i]).path@ == path implies d[i].fingerprint@ == r.fingerprint by {
            assert(d[i] == fps[i]);
        }
        lemma_unchanged_not_regenerated(c, path, r, d);
        let prev = stale_paths(c.insert(path, r), d);
        if stale(c.insert(path, r), fps.last().path@, fps.last().fingerprint@) {
            assert(fps.last().path@ != path);
            assert(stale_paths(c.insert(path, r), fps) == prev.push(fps.last().path@));
            if prev.push(fps.last().path@).contains(path) {
                let m = choose|m: int| 0 <= m < prev.len() + 1 && prev.push(fps.last().path@)[m] == path;
                assert(prev[m] == path);
            }
        }
    }
}

impl SummaryCache {
    /// An empty cache.
    pub fn new() -> (r: SummaryCache)
        ensures
            cache_map(r.entries@) == Map::<Seq<char>, CacheRecord>::empty(),
            glossary_map(r.glossary@) == Map::<Seq<char>, Seq<char>>::empty(),
    {
        SummaryCache { entries: Vec::new(), glossary: Vec::new() }
    }

    /// The entry for `path`, if there is one.
    pub fn get(&self, path: &str) -> (r: Option<&CacheEntry>)
        ensures
            r is Some <==> cache_map(self.entries@).contains_key(path@),
            r matches Some(e) ==> e.path@ == path@ && record_of(*e) == cache_map(self.entries@)[path@],
    {
        let p = String::from_str(path);
        let mut found: Option<&CacheEntry> = None;
        let mut i: usize = 0;
        while i < self.entries.len()
            invariant
                i <= self.entries@.len(),
                p@ == path@,
                found is Some <==> cache_map(self.entries@.take(i as int)).contains_key(path@),
                found matches Some(e) ==> e.path@ == path@ && record_of(*e) == cache_map(self.entries@.take(i as int))[path@],
            decreases self.entries@.len() - i,
        {
            assert(self.entries@.take(i + 1).drop_last() =~= self.entries@.take(i as int));
            if self.entries[i].path == p {
                found = Some(&self.entries[i]);
            }
            i = i + 1;
        }
        assert(self.entries@.take(self.entries@.len() as int) =~= self.entries@);
        found
    }

    /// Whether the file at `path`, with content fingerprint `fingerprint`,
    /// needs a new summary. Only the fingerprints are compared.
    pub fn needs_regeneration(&self, path: &str, fingerprint: &str) -> (r: bool)
        ensures
            r == stale(cache_map(self.entries@), path@, fingerprint@),
    {
        match self.get(path) {
            None => true,
            Some(e) => {
                let f = chars_of(fingerprint);
                let g = chars_of(e.fingerprint.as_str());
                !crate::text::same_chars(&f, &g)
            },
        }
    }

    /// Stores the summary for `path`, replacing any earlier one.
    pub fn set(&mut self, path: &str, summary: &str, fingerprint: &str, generated_at: i64)
        ensures
            cache_map(final(self).entries@) == cache_map(old(self).entries@).insert(
                path@,
                CacheRecord { summary: summary@, fingerprint: fingerprint@, generated_at },
            ),
            final(self).glossary == old(self).glossary,
    {
        let p = String::from_str(path);
        let mut kept: Vec<CacheEntry> = Vec::new();
        let mut i: usize = 0;
        assert(cache_map(kept@) =~= cache_map(self.entries@.take(0)).remove(path@));
        while i < self.entries.len()
            invariant
                i <= self.entries@.len(),
                p@ == path@,
                cache_map(kept@) == cache_map(self.entries@.take(i as int)).remove(path@),
            decreases self.entries@.len() - i,
        {
            let ghost before = cache_map(self.entries@.take(i as int));
            assert(self.entries@.take(i + 1).drop_last() =~= self.entries@.take(i as int));
            let e = &self.entries[i];
            if e.path == p {
                assert(before.insert(e.path@, record_of(*e)).remove(path@) =~= before.remove(path@));
            } else {
                let ghost kb = kept@;
                kept.push(
                    CacheEntry {
                        path: e.path.clone(),
                        summary: e.summary.clone(),
                        fingerprint: e.fingerprint.clone(),
                        generated_at: e.generated_at,
                    },
                );
                assert(kept@.drop_last() =~= kb);
                assert(before.remove(path@).insert(e.path@, record_of(*e)) =~= before.insert(
                    e.path@,
                    record_of(*e),
                ).remove(path@));
            }
            i = i + 1;
        }
        assert(self.entries@.take(self.entries@.len() as int) =~= self.entries@);
        let ghost before = kept@;
        kept.push(
            CacheEntry {
                path: p,
                summary: String::from_str(summary),
                fingerprint: String::from_str(fingerprint),
                generated_at,
            },
        );
        assert(kept@.drop_last() =~= before);
        let ghost r = CacheRecord { summary: summary@, fingerprint: fingerprint@, generated_at };
        assert(cache_map(old(self).entries@).remove(path@).insert(path@, r) =~= cache_map(
            old(self).entries@,
        ).insert(path@, r));
        self.entries = kept;
    }

    /// The files of `fps` that need a new summary, in order.
    pub fn files_needing_regeneration(&self, fps: &Vec<FileFingerprint>) -> (r: Vec<String>)
        ensures
            r.deep_view() == stale_paths(cache_map(self.entries@), fps@),
    {
        let mut r: Vec<String> = Vec::new();
        let mut i: usize = 0;
        while i < fps.len()
            invariant
                i <= fps@.len(),
                r.deep_view() == stale_paths(cache_map(self.entries@), fps@.take(i as int)),
            decreases fps@.len() - i,
        {
            assert(fps@.take(i + 1).drop_last() =~= fps@.take(i as int));
            let f = &fps[i];
            if self.needs_regeneration(f.path.as_str(), f.fingerprint.as_str()) {
                let ghost before = r.deep_view();
                r.push(f.path.clone());
                assert(r.deep_view() =~= before.push(f.path@));
            }
            i = i + 1;
        }
        assert(fps@.take(fps@.len() as int) =~= fps@);
        r
    }

    /// Every summary that is still valid for the files of `fps`: path and
    /// summary, in the order of `fps`.
    pub fn valid_summaries(&self, fps: &Vec<FileFingerprint>) -> (r: Vec<(String, String)>)
        ensures
            Seq::new(r@.len(), |k: int| (r@[k].0@, r@[k].1@)) == valid_pairs(cache_map(self.entries@), fps@),
    {
        let mut r: Vec<(String, String)> = Vec::new();
        let mut i: usize = 0;
        while i < fps.len()
            invariant
                i <= fps@.len(),
                Seq::new(r@.len(), |k: int| (r@[k].0@, r@[k].1@)) == valid_pairs(cache_map(self.entries@), fps@.take(i as int)),
            decreases fps@.len() - i,
        {
            assert(fps@.take(i + 1).drop_last() =~= fps@.take(i as int));
            let f = &fps[i];
            if !self.needs_regeneration(f.path.as_str(), f.fingerprint.as_str()) {
                match self.get(f.path.as_str()) {
                    Some(e) => {
                        let ghost before = Seq::new(r@.len(), |k: int| (r@[k].0@, r@[k].1@));
                        r.push((f.path.clone(), e.summary.clone()));
                        assert(Seq::new(r@.len(), |k: int| (r@[k].0@, r@[k].1@)) =~= before.push((f.path@, e.summary@)));
                    },
                    None => {},
                }
            }
            i = i + 1;
        }
        assert(fps@.take(fps@.len() as int) =~= fps@);
        r
    }

    /// Whether the glossary defines `term`.
    pub fn has_term(&self, term: &String) -> (r: bool)
        ensures
            r == glossary_map(self.glossary@).contains_key(term@),
    {
        let mut found = false;
        let mut i: usize = 0;
        while i < self.glossary.len()
            invariant
                i <= self.glossary@.len(),
                found == glossary_map(self.glossary@.take(i as int)).contains_key(term@),
            decreases self.glossary@.len() - i,
        {
            assert(self.glossary@.take(i + 1).drop_last() =~= self.glossary@.take(i as int));
            if self.glossary[i].term == *term {
                found = true;
            }
            i = i + 1;
        }
        assert(self.glossary@.take(self.glossary@.len() as int) =~= self.glossary@);
        found
    }

    /// Merges a partial glossary: each term not yet defined is added with its
    /// first definition in `partial`; terms already defined keep their
    /// definition.
    pub fn merge_glossary(&mut self, partial: &Vec<GlossaryTerm>)
        ensures
            glossary_map(final(self).glossary@) == merged(glossary_map(old(self).glossary@), partial@),
            final(self).entries == old(self).entries,
    {
        let mut i: usize = 0;
        while i < partial.len()
            invariant
                i <= partial@.len(),
                self.entries == old(self).entries,
                glossary_map(self.glossary@) == merged(glossary_map(old(self).glossary@), partial@.take(i as int)),
            decreases partial@.len() - i,
        {
            assert(partial@.take(i + 1).drop_last() =~= partial@.take(i as int));
            let t = &partial[i];
            if !self.has_term(&t.term) {
                let ghost before = self.glossary@;
                self.glossary.push(GlossaryTerm { term: t.term.clone(), definition: t.definition.clone() });
                assert(self.glossary@.drop_last() =~= before);
            }
            i = i + 1;
        }
        assert(partial@.take(partial@.len() as int) =~= partial@);
    }
}

/// `g` with each term of `p` added that it does not define yet, the first
/// definition of a term in `p` winning.
pub open spec fn merged(g: Map<Seq<char>, Seq<char>>, p: Seq<GlossaryTerm>) -> Map<Seq<char>, Seq<char>>
    decreases p.len(),
{
    if p.len() == 0 {
        g
    } else {
        let m = merged(g, p.drop_last());
        if m.contains_key(p.last().term@) {
            m
        } else {
            m.insert(p.last().term@, p.last().definition@)
        }
    }
}

proof fn lemma_merged_keeps(g: Map<Seq<char>, Seq<char>>, p: Seq<GlossaryTerm>)
    ensures
        forall|t: Seq<char>| #[trigger] g.contains_key(t) ==> merged(g, p).contains_key(t) && merged(g, p)[t] == g[t],
        forall|i: int| 0 <= i < p.len() ==> merged(g, p).contains_key(#[trigger] p[i].term@),
    decreases p.len(),
{
    if p.len() > 0 {
        lemma_merged_keeps(g, p.drop_last());
        assert forall|i: int| 0 <= i < p.len() implies merged(g, p).contains_key(#[trigger] p[i].term@) by {
            if i < p.len() - 1 {
                assert(p.drop_last()[i] == p[i]);
            }
        }
    }
}

proof fn lemma_merged_noop(g: Map<Seq<char>, Seq<char>>, p: Seq<GlossaryTerm>)
    requires
        forall|i: int| 0 <= i < p.len() ==> g.contains_key(#[trigger] p[i].term@),
    ensures
        merged(g, p) == g,
    decreases p.len(),
{
    if p.len() > 0 {
        assert forall|i: int| 0 <= i < p.len() - 1 implies g.contains_key(#[trigger] p.drop_last()[i].term@) by {
            assert(p.drop_last()[i] == p[i]);
        }
        lemma_merged_noop(g, p.drop_last());
        assert(g.contains_key(p[p.len() - 1].term@));
    }
}

/// Merging is additive and idempotent: terms already defined keep their
/// definitions, every merged term ends up defined, and merging the same
/// partial glossary again changes nothing.
pub proof fn lemma_merge_additive_idempotent(g: Map<Seq<char>, Seq<char>>, p: Seq<GlossaryTerm>)
    ensures
        forall|t: Seq<char>| #[trigger] g.contains_key(t) ==> merged(g, p).contains_key(t) && merged(g, p)[t] == g[t],
        forall|i: int| 0 <= i < p.len() ==> merged(g, p).contains_key(#[trigger] p[i].term@),
        merged(merged(g, p), p) == merged(g, p),
{
    lemma_merged_keeps(g, p);
    lemma_merged_noop(merged(g, p), p);
}

/// `path` made relative to `root` when it lies under it: the root and the
/// separators after it are dropped.
pub open spec fn normalized(root: Seq<char>, path: Seq<char>) -> Seq<char> {
    if starts_with(path, root.push('/')) {
        trim_start_all(path.skip(root.len() as int), "/"@)
    } else {
        path
    }
}

proof fn lemma_trimmed_no_lead(s: Seq<char>, p: Seq<char>)
    requires
        p.len() > 0,
    ensures
        !starts_with(trim_start_all(s, p), p),
    decreases s.len(),
{
    if starts_with(s, p) {
        lemma_trimmed_no_lead(s.skip(p.len() as int), p);
    }
}

/// Normalising twice is normalising once, for an absolute root: a path made
/// relative no longer starts with `/`, so it is left alone. A cache loaded
/// with either convention can therefore be normalised again without harm.
pub proof fn lemma_normalize_idempotent(root: Seq<char>, path: Seq<char>)
    requires
        root.len() > 0,
        root[0] == '/',
    ensures
        normalized(root, normalized(root, path)) == normalized(root, path),
{
    reveal_strlit("/");
    let n = normalized(root, path);
    if starts_with(path, root.push('/')) {
        lemma_trimmed_no_lead(path.skip(root.len() as int), "/"@);
        if starts_with(n, root.push('/')) {
            assert(n[0] == root.push('/')[0]);
            assert(n.take(1) =~= "/"@);
        }
    }
}

/// Makes `path` relative to `root` when it lies under it.
pub fn normalize_path(root: &str, path: &str) -> (r: String)
    ensures
        r@ == normalized(root@, path@),
{
    let mut prefix = String::from_str(root);
    crate::text::push_char(&mut prefix, '/');
    let pc = chars_of(path);
    let rc = chars_of(prefix.as_str());
    let root_len = rc.len() - 1;
    if rc.len() <= pc.len() && matches_at(&pc, &rc, 0) {
        assert(pc@.subrange(0, rc@.len() as int) =~= pc@.take(rc@.len() as int));
        let rest = slice_range(&pc, root_len, pc.len());
        assert(rest@ =~= path@.skip(root@.len() as int));
        let t = trim_start_matches(&rest, "/");
        string_of(&t)
    } else {
        proof {
            if rc@.len() <= pc@.len() {
                assert(pc@.subrange(0, rc@.len() as int) =~= pc@.take(rc@.len() as int));
            }
        }
        String::from_str(path)
    }
}

/// The entries with every path made relative to `root`.
pub open spec fn normalized_entries(root: Seq<char>, s: Seq<CacheEntry>) -> Seq<(Seq<char>, CacheRecord)> {
    Seq::new(s.len(), |i: int| (normalized(root, s[i].path@), record_of(s[i])))
}

impl SummaryCache {
    /// Makes every entry's path relative to `root` (for a cache written with
    /// absolute paths). Running it again changes nothing.
    pub fn normalize_paths(&mut self, root: &str)
        ensures
            Seq::new(final(self).entries@.len(), |i: int| (final(self).entries@[i].path@, record_of(final(self).entries@[i])))
                == normalized_entries(root@, old(self).entries@),
            final(self).glossary == old(self).glossary,
    {
        let ghost orig = self.entries@;
        let mut out: Vec<CacheEntry> = Vec::new();
        let mut i: usize = 0;
        while i < self.entries.len()
            invariant
                i <= self.entries@.len(),
                self.entries@ == orig,
                Seq::new(out@.len(), |k: int| (out@[k].path@, record_of(out@[k]))) == normalized_entries(root@, orig).take(i as int),
            decreases self.entries@.len() - i,
        {
            let e = &self.entries[i];
            let ghost before = Seq::new(out@.len(), |k: int| (out@[k].path@, record_of(out@[k])));
            let ne = CacheEntry {
                path: normalize_path(root, e.path.as_str()),
                summary: e.summary.clone(),
                fingerprint: e.fingerprint.clone(),
                generated_at: e.generated_at,
            };
            out.push(ne);
            assert(Seq::new(out@.len(), |k: int| (out@[k].path@, record_of(out@[k]))) =~= before.push((ne.path@, record_of(ne))));
            assert(normalized_entries(root@, orig).take(i + 1) =~= normalized_entries(root@, orig).take(i as int).push((ne.path@, record_of(ne))));
            i = i + 1;
        }
        assert(normalized_entries(root@, orig).take(orig.len() as int) =~= normalized_entries(root@, orig));
        self.entries = out;
    }
}

} // verus!
