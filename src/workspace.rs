//! A set of files held in memory: path to content.
use vstd::prelude::*;
use vstd::string::StringExecFns;

verus! {

/// One file: its repository-relative path and its content.
#[derive(Debug, Clone)]
pub struct FileEntry {
    pub path: String,
    pub content: String,
}

/// Files by path. When a path occurs more than once, its last entry counts.
#[derive(Debug, Clone)]
pub struct Workspace {
    pub files: Vec<FileEntry>,
}

/// The files that `s` describes, later entries overriding earlier ones.
pub open spec fn entries_map(s: Seq<FileEntry>) -> Map<Seq<char>, Seq<char>>
    decreases s.len(),
{
    if s.len() == 0 {
        Map::empty()
    } else {
        entries_map(s.drop_last()).insert(s.last().path@, s.last().content@)
    }
}

impl View for Workspace {
    type V = Map<Seq<char>, Seq<char>>;

    open spec fn view(&self) -> Map<Seq<char>, Seq<char>> {
        entries_map(self.files@)
    }
}

impl Workspace {
    /// A workspace without files.
    pub fn new() -> (r: Workspace)
        ensures
            r@ == Map::<Seq<char>, Seq<char>>::empty(),
    {
        Workspace { files: Vec::new() }
    }

    /// The content of the file at `path`, if there is one.
    pub fn read(&self, path: &str) -> (r: Option<String>)
        ensures
            r is Some <==> self@.contains_key(path@),
            r matches Some(c) ==> c@ == self@[path@],
    {
        let p = String::from_str(path);
        let mut found: Option<String> = None;
        let mut i: usize = 0;
        while i < self.files.len()
            invariant
                i <= self.files@.len(),
                p@ == path@,
                found is Some <==> entries_map(self.files@.take(i as int)).contains_key(path@),
                found matches Some(c) ==> c@ == entries_map(self.files@.take(i as int))[path@],
            decreases self.files@.len() - i,
        {
            assert(self.files@.take(i + 1).drop_last() =~= self.files@.take(i as int));
            if self.files[i].path == p {
                found = Some(self.files[i].content.clone());
            }
            i = i + 1;
        }
        assert(self.files@.take(self.files@.len() as int) =~= self.files@);
        found
    }

    /// Removes the file at `path`, if there is one.
    pub fn remove(&mut self, path: &str)
        ensures
            final(self)@ == old(self)@.remove(path@),
    {
        let p = String::from_str(path);
        let mut kept: Vec<FileEntry> = Vec::new();
        let mut i: usize = 0;
        assert(entries_map(kept@) =~= entries_map(self.files@.take(0)).remove(path@));
        while i < self.files.len()
            invariant
                i <= self.files@.len(),
                p@ == path@,
                entries_map(kept@) == entries_map(self.files@.take(i as int)).remove(path@),
            decreases self.files@.len() - i,
        {
            let ghost before = entries_map(self.files@.take(i as int));
            assert(self.files@.take(i + 1).drop_last() =~= self.files@.take(i as int));
            let e = &self.files[i];
            if e.path == p {
                assert(before.insert(e.path@, e.content@).remove(path@) =~= before.remove(path@));
            } else {
                let ghost kb = kept@;
                kept.push(FileEntry { path: e.path.clone(), content: e.content.clone() });
                assert(kept@.drop_last() =~= kb);
                assert(before.remove(path@).insert(e.path@, e.content@) =~= before.insert(
                    e.path@,
                    e.content@,
                ).remove(path@));
            }
            i = i + 1;
        }
        assert(self.files@.take(self.files@.len() as int) =~= self.files@);
        self.files = kept;
    }

    /// Writes `content` to the file at `path`, creating or replacing it.
    pub fn write(&mut self, path: &str, content: &str)
        ensures
            final(self)@ == old(self)@.insert(path@, content@),
    {
        self.remove(path);
        let ghost before = self.files@;
        self.files.push(FileEntry { path: String::from_str(path), content: String::from_str(content) });
        assert(self.files@.drop_last() =~= before);
        assert(old(self)@.remove(path@).insert(path@, content@) =~= old(self)@.insert(path@, content@));
    }
}

} // verus!
