//! The settings screen: workspace statistics and where backups go.

use vstd::prelude::*;
use crate::models::{Item, ItemType, ItemView, TaskStatus};
use crate::paths::{parent_of, parent_path};
use crate::text::{chars_of, owned};
use crate::ui::app::views;

verus! {

/// Number of live items of `s` whose type is `t` (any type when `t` is
/// `None`) and, when `done_only`, whose status is done.
pub open spec fn count_items(s: Seq<ItemView>, t: Option<ItemType>, done_only: bool) -> nat
    decreases s.len(),
{
    if s.len() == 0 {
        0
    } else {
        let x = s.last();
        count_items(s.drop_last(), t, done_only) + if !x.deleted && (t is None || Some(x.item_type)
            == t) && (!done_only || x.status == Some(TaskStatus::Done)) {
            1nat
        } else {
            0nat
        }
    }
}

/// The statistics of a workspace.
#[derive(Debug, Clone, Copy, PartialEq, Eq, Structural)]
pub struct WorkspaceStats {
    pub total: usize,
    pub docs: usize,
    pub tasks: usize,
    pub notes: usize,
    pub projects: usize,
    pub done: usize,
}

/// Counts the live items by type, and the tasks that are done.
pub fn workspace_stats(tree: &Vec<Item>) -> (r: WorkspaceStats)
    ensures
        r.total == count_items(views(tree@), None, false),
        r.docs == count_items(views(tree@), Some(ItemType::Document), false),
        r.tasks == count_items(views(tree@), Some(ItemType::Task), false),
        r.notes == count_items(views(tree@), Some(ItemType::Note), false),
        r.projects == count_items(views(tree@), Some(ItemType::Project), false),
        r.done == count_items(views(tree@), Some(ItemType::Task), true),
{
    let ghost all = views(tree@);
    let mut st = WorkspaceStats { total: 0, docs: 0, tasks: 0, notes: 0, projects: 0, done: 0 };
    let mut i: usize = 0;
    while i < tree.len()
        invariant
            i <= tree@.len(),
            all == views(tree@),
            st.total == count_items(all.take(i as int), None, false),
            st.docs == count_items(all.take(i as int), Some(ItemType::Document), false),
            st.tasks == count_items(all.take(i as int), Some(ItemType::Task), false),
            st.notes == count_items(all.take(i as int), Some(ItemType::Note), false),
            st.projects == count_items(all.take(i as int), Some(ItemType::Project), false),
            st.done == count_items(all.take(i as int), Some(ItemType::Task), true),
            st.total <= i,
            st.docs <= st.total,
            st.tasks <= st.total,
            st.notes <= st.total,
            st.projects <= st.total,
            st.done <= st.tasks,
        decreases tree@.len() - i,
    {
        assert(all.take(i + 1).drop_last() == all.take(i as int));
        assert(all.take(i + 1).last() == tree@[i as int]@);
        let it = &tree[i];
        if !it.deleted {
            st.total += 1;
            match it.item_type {
                ItemType::Document => st.docs += 1,
                ItemType::Task => {
                    st.tasks += 1;
                    match it.status {
                        Some(TaskStatus::Done) => st.done += 1,
                        _ => {},
                    }
                },
                ItemType::Note => st.notes += 1,
                ItemType::Project => st.projects += 1,
                ItemType::Folder => {},
            }
        }
        i += 1;
    }
    assert(all.take(tree@.len() as int) == all);
    st
}

/// Where a backup is written: the directory typed in, or, when nothing was
/// typed, the directory that holds the workspace (the workspace itself when
/// it has none).
pub fn backup_output_dir(input: &str, workspace: &str) -> (r: String)
    ensures
        input@.len() > 0 ==> r@ == input@,
        input@.len() == 0 ==> r@ == match parent_path(workspace@) {
            Some(p) => p,
            None => workspace@,
        },
{
    if chars_of(input).len() > 0 {
        return owned(input);
    }
    match parent_of(workspace) {
        Some(p) => p,
        None => owned(workspace),
    }
}

} // verus!
