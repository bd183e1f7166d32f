//! The decisions of backup, restore and JSON import: archive names, which
//! entries go into an archive, and which archives may be restored.

use vstd::prelude::*;
use crate::models::{Item, Timestamp};
use crate::paths::{is_abs, join, join_path, lemma_join_within, path_within, within};
use crate::text::{
    append, chars_of, contains, contains_text, occurs_at, ends_with, has_prefix, has_suffix, is_text, opt_text,
    owned, starts_with,
};
use crate::time::{backup_stamp, utc_text};

verus! {

/// Largest total size a restore may write: 1 GB.
pub const MAX_RESTORE_BYTES: u64 = 1_073_741_824;

/// Largest number of entries an archive to restore may hold.
pub const MAX_RESTORE_ENTRIES: usize = 50_000;

/// `mote-backup-<workspace name>-<stamp>.zip`, with `workspace` when the
/// workspace directory has no name.
pub open spec fn backup_name(workspace_name: Option<Seq<char>>, stamp: Seq<char>) -> Seq<char> {
    "mote-backup-"@ + match workspace_name {
        Some(n) => n,
        None => "workspace"@,
    } + "-"@ + stamp + ".zip"@
}

/// The file name of a backup of the workspace named `workspace_name`, taken
/// at `now`; `None` when `now` has no calendar text.
pub fn backup_file_name(workspace_name: Option<&str>, now: Timestamp) -> (r: Option<String>)
    ensures
        match utc_text(now.secs, now.nanos, "%Y%m%d-%H%M%S"@) {
            Some(st) => r is Some && r->0@ == backup_name(
                match workspace_name {
                    Some(n) => Some(n@),
                    None => None,
                },
                st,
            ),
            None => r is None,
        },
{
    let stamp = match backup_stamp(now) {
        Some(st) => st,
        None => {
            return None;
        },
    };
    let mut r = owned("mote-backup-");
    match workspace_name {
        Some(n) => append(&mut r, n),
        None => append(&mut r, "workspace"),
    }
    append(&mut r, "-");
    append(&mut r, stamp.as_str());
    append(&mut r, ".zip");
    Some(r)
}

/// What to do with one entry of the directory being backed up.
#[derive(Debug, Clone, PartialEq, Eq)]
pub enum BackupEntry {
    /// Leave it out.
    Skip,
    /// Add a directory under this archive name and descend into it.
    Dir(String),
    /// Add a file under this archive name.
    File(String),
}

/// Entries a backup leaves out: symbolic links (they may point outside the
/// workspace), build output, the git directory and earlier archives.
pub open spec fn skipped_in_backup(name: Seq<char>, is_symlink: bool) -> bool {
    is_symlink || has_prefix(name, "target"@) || has_prefix(name, ".git"@) || has_suffix(
        name,
        ".zip"@,
    )
}

/// What a backup does with the entry at relative path `name`.
pub fn backup_entry(name: &str, is_symlink: bool, is_dir: bool) -> (r: BackupEntry)
    ensures
        skipped_in_backup(name@, is_symlink) ==> r == BackupEntry::Skip,
        !skipped_in_backup(name@, is_symlink) && is_dir ==> (r matches BackupEntry::Dir(d) && d@
            == name@ + "/"@),
        !skipped_in_backup(name@, is_symlink) && !is_dir ==> (r matches BackupEntry::File(f) && f@
            == name@),
{
    if is_symlink {
        return BackupEntry::Skip;
    }
    let v = chars_of(name);
    if starts_with(&v, &chars_of("target")) || starts_with(&v, &chars_of(".git")) || ends_with(
        &v,
        &chars_of(".zip"),
    ) {
        return BackupEntry::Skip;
    }
    if is_dir {
        let mut d = owned(name);
        append(&mut d, "/");
        BackupEntry::Dir(d)
    } else {
        BackupEntry::File(owned(name))
    }
}

/// Why a restore was refused.
#[derive(Debug, Clone, PartialEq, Eq)]
pub enum RestoreError {
    /// The archive holds more entries than allowed; holds their number.
    TooManyEntries(usize),
    /// An entry name holds `..`; holds the name.
    Traversal(String),
    /// An entry would land outside the workspace; holds the name.
    Escapes(String),
    /// The extracted data grew past the size limit.
    TooLarge,
}

/// Refuses an archive with more than `MAX_RESTORE_ENTRIES` entries.
pub fn check_entry_count(n: usize) -> (r: Result<(), RestoreError>)
    ensures
        n <= MAX_RESTORE_ENTRIES ==> r is Ok,
        n > MAX_RESTORE_ENTRIES ==> r == Err::<(), RestoreError>(RestoreError::TooManyEntries(n)),
{
    if n > MAX_RESTORE_ENTRIES {
        Err(RestoreError::TooManyEntries(n))
    } else {
        Ok(())
    }
}

/// An entry name that may be extracted into the workspace `ws`: it holds no
/// `..` and, joined onto `ws`, stays inside it.
pub open spec fn entry_acceptable(ws: Seq<char>, name: Seq<char>) -> bool {
    !contains_text(name, ".."@) && within(join_path(ws, name), ws)
}

/// Checks every entry name before anything is extracted.  The first name
/// that is not acceptable decides the error: `Traversal` when it holds `..`,
/// `Escapes` otherwise.
pub fn validate_entry_names(canonical_ws: &str, names: &Vec<String>) -> (r: Result<(), RestoreError>)
    ensures
        r is Ok <==> forall|i: int|
            0 <= i < names@.len() ==> entry_acceptable(canonical_ws@, #[trigger] names@[i]@),
        r matches Err(e) ==> exists|i: int|
            0 <= i < names@.len() && !entry_acceptable(canonical_ws@, #[trigger] names@[i]@) && (
            forall|j: int| 0 <= j < i ==> entry_acceptable(canonical_ws@, names@[j]@)) && (if contains_text(
                names@[i]@,
                ".."@,
            ) {
                (e matches RestoreError::Traversal(n) && n@ == names@[i]@)
            } else {
                (e matches RestoreError::Escapes(n) && n@ == names@[i]@)
            }),
{
    let dots = chars_of("..");
    let mut i: usize = 0;
    while i < names.len()
        invariant
            i <= names@.len(),
            dots@ == ".."@,
            forall|j: int| 0 <= j < i ==> entry_acceptable(canonical_ws@, #[trigger] names@[j]@),
        decreases names@.len() - i,
    {
        let name = names[i].as_str();
        if contains(&chars_of(name), &dots) {
            return Err(RestoreError::Traversal(owned(name)));
        }
        let out = join(canonical_ws, name);
        if !path_within(out.as_str(), canonical_ws) {
            return Err(RestoreError::Escapes(owned(name)));
        }
        i += 1;
    }
    Ok(())
}

/// Whether clearing the workspace before a restore keeps the entry `name`
/// (only the git directory is kept).
pub fn kept_when_clearing(name: &str) -> (b: bool)
    ensures
        b == (name@ == ".git"@),
{
    is_text(&chars_of(name), ".git")
}

/// The running total of extracted bytes after one more entry of `written`
/// bytes; refused once it passes `MAX_RESTORE_BYTES`.
pub fn add_extracted(total: u64, written: u64) -> (r: Result<u64, RestoreError>)
    ensures
        total + written <= MAX_RESTORE_BYTES ==> r == Ok::<u64, RestoreError>(
            (total + written) as u64,
        ),
        total + written > MAX_RESTORE_BYTES ==> r == Err::<u64, RestoreError>(
            RestoreError::TooLarge,
        ),
{
    if written > MAX_RESTORE_BYTES || total > MAX_RESTORE_BYTES - written {
        Err(RestoreError::TooLarge)
    } else {
        Ok(total + written)
    }
}

/// Whether some item of `items` has the id `id`.
pub open spec fn has_id(items: Seq<Item>, id: Seq<char>) -> bool {
    exists|i: int| 0 <= i < items.len() && #[trigger] items[i]@.id == id
}

/// The items of an import that are not in the workspace yet, in order.
pub open spec fn new_items(items: Seq<Item>, existing: Seq<Item>) -> Seq<Item>
    decreases items.len(),
{
    if items.len() == 0 {
        seq![]
    } else if has_id(existing, items.last()@.id) {
        new_items(items.drop_last(), existing)
    } else {
        new_items(items.drop_last(), existing).push(items.last())
    }
}

/// Whether some item of `items` has the id `id`.
fn id_present(items: &Vec<Item>, id: &String) -> (b: bool)
    ensures
        b == has_id(items@, id@),
{
    let mut i: usize = 0;
    while i < items.len()
        invariant
            i <= items@.len(),
            forall|j: int| 0 <= j < i ==> #[trigger] items@[j]@.id != id@,
        decreases items@.len() - i,
    {
        if items[i].id == *id {
            assert(items@[i as int]@.id == id@);
            return true;
        }
        i += 1;
    }
    false
}

/// The items of a JSON import to add: those whose id the workspace does not
/// have yet (duplicates are skipped), in the order of the import.
pub fn items_to_import(existing: &Vec<Item>, items: Vec<Item>) -> (r: Vec<Item>)
    ensures
        r@ == new_items(items@, existing@),
{
    let ghost all = items@;
    let mut rest = items;
    let mut r: Vec<Item> = Vec::new();
    let ghost mut k: int = 0;
    while rest.len() > 0
        invariant
            0 <= k <= all.len(),
            rest@ == all.subrange(k, all.len() as int),
            r@ == new_items(all.take(k), existing@),
        decreases rest@.len(),
    {
        let it = rest.remove(0);
        assert(it == all[k]);
        assert(all.take(k + 1).drop_last() == all.take(k));
        assert(all.take(k + 1).last() == it);
        if !id_present(existing, &it.id) {
            r.push(it);
        }
        proof {
            k = k + 1;
        }
        assert(rest@ =~= all.subrange(k, all.len() as int));
    }
    assert(all.take(k) =~= all);
    r
}

/// An import adds only items whose id the workspace does not have, and
/// every item of the import whose id is new is added.
pub proof fn lemma_import_skips_duplicates(items: Seq<Item>, existing: Seq<Item>)
    ensures
        forall|k: int|
            0 <= k < new_items(items, existing).len() ==> !has_id(
                existing,
                (#[trigger] new_items(items, existing)[k])@.id,
            ) && items.contains(new_items(items, existing)[k]),
        forall|k: int|
            0 <= k < items.len() && !has_id(existing, (#[trigger] items[k])@.id) ==> new_items(
                items,
                existing,
            ).contains(items[k]),
    decreases items.len(),
{
    if items.len() > 0 {
        let init = items.drop_last();
        lemma_import_skips_duplicates(init, existing);
        let n0 = new_items(init, existing);
        let n = new_items(items, existing);
        assert forall|k: int| 0 <= k < n.len() implies !has_id(existing, (#[trigger] n[k])@.id)
            && items.contains(n[k]) by {
            if k < n0.len() {
                assert(n[k] == n0[k]);
                let m = choose|m: int| 0 <= m < init.len() && init[m] == n0[k];
                assert(items[m] == n0[k]);
            } else {
                assert(n[k] == items.last());
                assert(items[items.len() - 1] == items.last());
            }
        }
        assert forall|k: int| 0 <= k < items.len() && !has_id(existing, (#[trigger] items[k])@.id)
            implies n.contains(items[k]) by {
            if k < init.len() {
                assert(init[k] == items[k]);
                assert(n0.contains(items[k]));
                let m = choose|m: int| 0 <= m < n0.len() && n0[m] == items[k];
                if !has_id(existing, items.last()@.id) {
                    assert(n[m] == items[k]);
                }
            } else {
                assert(items[k] == items.last());
                assert(n[n.len() - 1] == items.last());
            }
        }
    }
}

/// Every entry a backup keeps can be restored: the archive name of a file
/// (`name`) or directory (`name` and `/`) under a relative, non-empty path
/// without `..` is accepted by the restore's check, into any workspace.
pub proof fn lemma_backup_names_restore(ws: Seq<char>, name: Seq<char>)
    requires
        name.len() > 0,
        !is_abs(name),
        !contains_text(name, ".."@),
    ensures
        entry_acceptable(ws, name),
        entry_acceptable(ws, name + "/"@),
{
    reveal_strlit("..");
    reveal_strlit("/");
    let d = name + "/"@;
    assert(d =~= name.push('/'));
    lemma_join_within(ws, name);
    assert(d[0] == name[0]);
    lemma_join_within(ws, d);
    if contains_text(d, ".."@) {
        let i = choose|i: int| occurs_at(d, ".."@, i);
        assert(d.subrange(i, i + 2) == ".."@);
        assert(d.subrange(i, i + 2)[0] == d[i]);
        assert(d.subrange(i, i + 2)[1] == d[i + 1]);
        if i + 2 <= name.len() {
            assert(name.subrange(i, i + 2) =~= d.subrange(i, i + 2));
            assert(occurs_at(name, ".."@, i));
        } else {
            assert(d[i + 1] == '/');
        }
    }
}

/// An import into a workspace that holds none of the imported ids adds
/// every imported item, in order.
pub proof fn lemma_import_all_new(items: Seq<Item>, existing: Seq<Item>)
    requires
        forall|k: int| 0 <= k < items.len() ==> !has_id(existing, (#[trigger] items[k])@.id),
    ensures
        new_items(items, existing) == items,
    decreases items.len(),
{
    if items.len() > 0 {
        let init = items.drop_last();
        assert forall|k: int| 0 <= k < init.len() implies !has_id(existing, (#[trigger] init[k])@.id) by {
            assert(init[k] == items[k]);
        }
        lemma_import_all_new(init, existing);
        assert(!has_id(existing, items[items.len() - 1]@.id));
        assert(init.push(items.last()) =~= items);
    }
}

} // verus!
