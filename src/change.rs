//! Applied-but-not-shipped edits: the single-file fix with its sibling
//! backup, its undo, and its removal once shipped or discarded.
use crate::suggest::{flagged, position_of, SuggestionEngine};
use crate::text::push_str;
use crate::workspace::Workspace;
use vstd::prelude::*;
use vstd::string::StringExecFns;

verus! {

/// One applied edit awaiting shipping.
#[derive(Debug, Clone)]
pub struct PendingChange {
    pub suggestion_id: u128,
    pub file_path: String,
    pub description: String,
    pub diff_summary: String,
    /// Where the original content was saved.
    pub backup_path: String,
}

/// The sibling path that holds the original of `path` while its edit is
/// pending.
pub open spec fn backup_of(path: Seq<char>) -> Seq<char> {
    path + ".cosmos-backup"@
}

/// The backup path for `path`.
pub fn backup_path_for(path: &str) -> (r: String)
    ensures
        r@ == backup_of(path@),
{
    let mut r = String::from_str(path);
    push_str(&mut r, ".cosmos-backup");
    r
}

/// Applies a fix to one file: saves the original to its backup path, writes
/// the new content and marks the suggestion applied. Fails, changing
/// nothing, when the file does not exist.
pub fn apply_fix(
    ws: &mut Workspace,
    store: &mut SuggestionEngine,
    suggestion_id: u128,
    path: &str,
    new_content: &str,
    description: String,
    diff_summary: String,
) -> (r: Result<PendingChange, String>)
    ensures
        !old(ws)@.contains_key(path@) ==> r is Err && final(ws)@ == old(ws)@ && final(store).suggestions
            == old(store).suggestions,
        old(ws)@.contains_key(path@) ==> r is Ok && final(ws)@ == old(ws)@.insert(
            backup_of(path@),
            old(ws)@[path@],
        ).insert(path@, new_content@) && final(store).suggestions@ == flagged(
            old(store).suggestions@,
            suggestion_id,
            1,
            true,
        ),
        r matches Ok(c) ==> c.suggestion_id == suggestion_id && c.file_path@ == path@ && c.backup_path@
            == backup_of(path@) && c.description == description && c.diff_summary == diff_summary,
{
    match ws.read(path) {
        None => {
            let mut msg = String::from_str("File not found: ");
            push_str(&mut msg, path);
            Err(msg)
        },
        Some(original) => {
            let backup = backup_path_for(path);
            ws.write(backup.as_str(), original.as_str());
            ws.write(path, new_content);
            store.mark_applied(suggestion_id);
            Ok(
                PendingChange {
                    suggestion_id,
                    file_path: String::from_str(path),
                    description,
                    diff_summary,
                    backup_path: backup,
                },
            )
        },
    }
}

/// Undoes a pending change: the file gets its backed-up content back, the
/// backup goes, and the suggestion is no longer marked applied. Fails,
/// changing nothing, when the backup is missing.
pub fn undo_change(ws: &mut Workspace, store: &mut SuggestionEngine, change: &PendingChange) -> (r: Result<(), String>)
    ensures
        !old(ws)@.contains_key(change.backup_path@) ==> r is Err && final(ws)@ == old(ws)@
            && final(store).suggestions == old(store).suggestions,
        old(ws)@.contains_key(change.backup_path@) ==> r is Ok && final(ws)@ == old(ws)@.insert(
            change.file_path@,
            old(ws)@[change.backup_path@],
        ).remove(change.backup_path@) && final(store).suggestions@ == flagged(
            old(store).suggestions@,
            change.suggestion_id,
            1,
            false,
        ),
{
    match ws.read(change.backup_path.as_str()) {
        None => {
            let mut msg = String::from_str("Backup not found: ");
            push_str(&mut msg, change.backup_path.as_str());
            Err(msg)
        },
        Some(original) => {
            ws.write(change.file_path.as_str(), original.as_str());
            ws.remove(change.backup_path.as_str());
            store.unmark_applied(change.suggestion_id);
            Ok(())
        },
    }
}

/// Ends a pending change once it is shipped or discarded: its backup goes.
pub fn finish_change(ws: &mut Workspace, change: PendingChange)
    ensures
        final(ws)@ == old(ws)@.remove(change.backup_path@),
{
    ws.remove(change.backup_path.as_str());
}

/// Undo after apply restores the file: its content is again what it was
/// before the fix, the suggestion is no longer applied, and no other file
/// differs from before except that no backup is left behind.
pub proof fn lemma_undo_restores(
    fs: Map<Seq<char>, Seq<char>>,
    path: Seq<char>,
    new_content: Seq<char>,
    s: Seq<crate::suggest::Suggestion>,
    id: u128,
)
    requires
        fs.contains_key(path),
    ensures
        ({
            let applied = fs.insert(backup_of(path), fs[path]).insert(path, new_content);
            let undone = applied.insert(path, applied[backup_of(path)]).remove(backup_of(path));
            &&& undone.contains_key(path) && undone[path] == fs[path]
            &&& undone == fs.remove(backup_of(path))
        }),
        position_of(s, id, 0) matches Some(p) ==> !flagged(flagged(s, id, 1, true), id, 1, false)[p].applied,
{
    let b = backup_of(path);
    assert(b.len() > path.len()) by {
        reveal_strlit(".cosmos-backup");
    }
    assert(b != path);
    let applied = fs.insert(b, fs[path]).insert(path, new_content);
    let undone = applied.insert(path, applied[b]).remove(b);
    assert(undone =~= fs.remove(b));
    if position_of(s, id, 0) is Some {
        let p = position_of(s, id, 0)->0;
        crate::suggest::lemma_position_facts(s, id, 0);
        lemma_position_same(s, id, 0, true);
        let t = flagged(s, id, 1, true);
        assert(t.len() == s.len());
        assert(!flagged(t, id, 1, false)[p].applied);
    }
}

proof fn lemma_position_same(s: Seq<crate::suggest::Suggestion>, id: u128, j: int, v: bool)
    requires
        0 <= j,
    ensures
        position_of(flagged(s, id, 1, v), id, j) == position_of(s, id, j),
    decreases s.len() - j,
{
    crate::suggest::lemma_position_facts(s, id, 0);
    if j < s.len() {
        lemma_position_same(s, id, j + 1, v);
        if position_of(s, id, 0) matches Some(p) {
            assert(flagged(s, id, 1, v)[j].id == s[j].id);
        }
    }
}

} // verus!
