//! A task or project with its sub-tasks: which are listed, how they are
//! counted, and what the buttons change.

use vstd::prelude::*;
use crate::models::{
    filter_passes, priority_after, status_after, CreateItemRequest, Item, ItemType, ItemView,
    TaskFilter, TaskPriority, TaskStatus,
};
use crate::text::{append, chars_of, opt_text, owned, same_text, string_of_range, trim, trim_bounds};
use crate::ui::app::{children_in, is_child_of, keep_where, select, views, ItemTest};

verus! {

/// Accepts the live children of one item.
pub struct ChildOf {
    pub parent: Vec<char>,
}

impl ItemTest for ChildOf {
    open spec fn accepts(&self, v: ItemView) -> bool {
        is_child_of(v, Some(self.parent@))
    }

    fn test(&self, i: &Item) -> (b: bool) {
        !i.deleted && match &i.parent_id {
            Some(p) => same_text(&chars_of(p.as_str()), &self.parent),
            None => false,
        }
    }
}

/// Accepts the items a task filter shows.
pub struct Passes {
    pub filter: TaskFilter,
}

impl ItemTest for Passes {
    open spec fn accepts(&self, v: ItemView) -> bool {
        filter_passes(self.filter, v.status)
    }

    fn test(&self, i: &Item) -> (b: bool) {
        self.filter.matches(
            match &i.status {
                Some(s) => Some(s),
                None => None,
            },
        )
    }
}

/// The live sub-items of the item `parent_id`, in tree order.
pub fn task_children(tree: &Vec<Item>, parent_id: &str) -> (r: Vec<Item>)
    ensures
        views(r@) == children_in(views(tree@), Some(parent_id@)),
{
    let t = ChildOf { parent: chars_of(parent_id) };
    let r = select(tree, &t);
    proof {
        lemma_keep_children(views(tree@), Some(parent_id@));
        assert((|v: ItemView| t.accepts(v)) == (|v: ItemView| is_child_of(v, Some(parent_id@))));
    }
    r
}

proof fn lemma_keep_children(s: Seq<ItemView>, parent: Option<Seq<char>>)
    ensures
        keep_where(s, |v: ItemView| is_child_of(v, parent)) == children_in(s, parent),
    decreases s.len(),
{
    if s.len() > 0 {
        lemma_keep_children(s.drop_last(), parent);
    }
}

/// The sub-tasks a filter shows, in order.
pub fn visible_tasks(children: &Vec<Item>, filter: TaskFilter) -> (r: Vec<Item>)
    ensures
        views(r@) == keep_where(views(children@), |v: ItemView| filter_passes(filter, v.status)),
{
    let t = Passes { filter };
    let r = select(children, &t);
    assert((|v: ItemView| t.accepts(v)) == (|v: ItemView| filter_passes(filter, v.status)));
    r
}

/// Number of sub-items that are tasks with status `want` (any status when
/// `want` is `None`).
pub open spec fn count_tasks(s: Seq<ItemView>, want: Option<TaskStatus>) -> nat
    decreases s.len(),
{
    if s.len() == 0 {
        0
    } else {
        count_tasks(s.drop_last(), want) + if s.last().item_type == ItemType::Task && (want is None
            || s.last().status == want) {
            1nat
        } else {
            0nat
        }
    }
}

/// The progress of a project: its tasks, and how many are done, in
/// progress and still to do.
#[derive(Debug, Clone, Copy, PartialEq, Eq, Structural)]
pub struct TaskCounts {
    pub total: usize,
    pub done: usize,
    pub in_progress: usize,
    pub todo: usize,
}

/// Counts the tasks among the sub-items by status.
pub fn task_counts(children: &Vec<Item>) -> (r: TaskCounts)
    ensures
        r.total == count_tasks(views(children@), None),
        r.done == count_tasks(views(children@), Some(TaskStatus::Done)),
        r.in_progress == count_tasks(views(children@), Some(TaskStatus::InProgress)),
        r.todo == count_tasks(views(children@), Some(TaskStatus::Todo)),
{
    let ghost all = views(children@);
    let mut c = TaskCounts { total: 0, done: 0, in_progress: 0, todo: 0 };
    let mut i: usize = 0;
    while i < children.len()
        invariant
            i <= children@.len(),
            all == views(children@),
            c.total == count_tasks(all.take(i as int), None),
            c.done == count_tasks(all.take(i as int), Some(TaskStatus::Done)),
            c.in_progress == count_tasks(all.take(i as int), Some(TaskStatus::InProgress)),
            c.todo == count_tasks(all.take(i as int), Some(TaskStatus::Todo)),
            c.total <= i,
            c.done <= c.total,
            c.in_progress <= c.total,
            c.todo <= c.total,
        decreases children@.len() - i,
    {
        assert(all.take(i + 1).drop_last() == all.take(i as int));
        assert(all.take(i + 1).last() == children@[i as int]@);
        let it = &children[i];
        match it.item_type {
            ItemType::Task => {
                c.total += 1;
                match it.status {
                    Some(TaskStatus::Done) => c.done += 1,
                    Some(TaskStatus::InProgress) => c.in_progress += 1,
                    Some(TaskStatus::Todo) => c.todo += 1,
                    _ => {},
                }
            },
            _ => {},
        }
        i += 1;
    }
    assert(all.take(children@.len() as int) == all);
    c
}

/// Whether the view of an item shows completion progress (counts and bar):
/// a project always does, a task does when it has sub-tasks.
pub fn shows_progress(item_type: ItemType, has_subtasks: bool) -> (b: bool)
    ensures
        b == (item_type == ItemType::Project || (item_type == ItemType::Task && has_subtasks)),
{
    match item_type {
        ItemType::Project => true,
        ItemType::Task => has_subtasks,
        _ => false,
    }
}

/// Whether the progress bar is drawn: only when some sub-task is counted.
pub fn shows_progress_bar(counts: TaskCounts) -> (b: bool)
    ensures
        b == (counts.total > 0),
{
    counts.total > 0
}

/// The status a task gets when its status button is clicked: the next in
/// the cycle, or to-do for a task without status.
pub fn status_after_click(status: Option<TaskStatus>) -> (r: TaskStatus)
    ensures
        r == match status {
            Some(s) => status_after(s),
            None => TaskStatus::Todo,
        },
{
    match status {
        Some(s) => s.next(),
        None => TaskStatus::Todo,
    }
}

/// The priority a task gets when its priority button is clicked: the next
/// in the cycle, or none for a task without priority.
pub fn priority_after_click(priority: Option<TaskPriority>) -> (r: TaskPriority)
    ensures
        r == match priority {
            Some(p) => priority_after(p),
            None => TaskPriority::Unset,
        },
{
    match priority {
        Some(p) => p.next(),
        None => TaskPriority::Unset,
    }
}

/// The status a sub-task gets from its check button: done tasks go back to
/// to-do, every other task becomes done.
pub fn toggled_done(status: Option<TaskStatus>) -> (r: TaskStatus)
    ensures
        r == if status == Some(TaskStatus::Done) {
            TaskStatus::Todo
        } else {
            TaskStatus::Done
        },
{
    match status {
        Some(TaskStatus::Done) => TaskStatus::Todo,
        _ => TaskStatus::Done,
    }
}

/// The text of a task's status button: its icon and label, `○ Todo` for a
/// task without status.
pub fn status_badge(status: Option<TaskStatus>) -> (r: String)
    ensures
        r@ == match status {
            Some(TaskStatus::Todo) => "\u{25cb} Todo"@,
            Some(TaskStatus::InProgress) => "\u{25d0} In Progress"@,
            Some(TaskStatus::Done) => "\u{25cf} Done"@,
            Some(TaskStatus::Cancelled) => "\u{2715} Cancelled"@,
            None => "\u{25cb} Todo"@,
        },
{
    let (icon, label) = match status {
        Some(s) => (s.icon(), s.label()),
        None => ("\u{25cb}", "Todo"),
    };
    let mut r = owned(icon);
    append(&mut r, " ");
    append(&mut r, label);
    proof {
        reveal_strlit("\u{25cb}");
        reveal_strlit("\u{25d0}");
        reveal_strlit("\u{25cf}");
        reveal_strlit("\u{2715}");
        reveal_strlit(" ");
        reveal_strlit("Todo");
        reveal_strlit("In Progress");
        reveal_strlit("Done");
        reveal_strlit("Cancelled");
        reveal_strlit("\u{25cb} Todo");
        reveal_strlit("\u{25d0} In Progress");
        reveal_strlit("\u{25cf} Done");
        reveal_strlit("\u{2715} Cancelled");
    }
    assert(r@ =~= icon@ + " "@ + label@);
    r
}

/// The request that adds a sub-task from the text typed under a task: the
/// trimmed text as title, to-do, no priority; nothing for blank text.
pub fn subtask_request(input: &str, parent_id: &str) -> (r: Option<CreateItemRequest>)
    ensures
        trim(input@).len() == 0 ==> r is None,
        trim(input@).len() > 0 ==> r is Some && r->0.title@ == trim(input@) && r->0.item_type
            == ItemType::Task && opt_text(r->0.parent_id) == Some(parent_id@) && r->0.content
            is None && r->0.status == Some(TaskStatus::Todo) && r->0.priority == Some(
            TaskPriority::Unset,
        ),
{
    let v = chars_of(input);
    let (a, b) = trim_bounds(&v, 0, v.len());
    assert(v@.subrange(0, v@.len() as int) == v@);
    if a == b {
        return None;
    }
    Some(
        CreateItemRequest {
            title: string_of_range(&v, a, b),
            item_type: ItemType::Task,
            parent_id: Some(owned(parent_id)),
            content: None,
            status: Some(TaskStatus::Todo),
            priority: Some(TaskPriority::Unset),
        },
    )
}

/// The `sort_order` a sub-task gets when dropped at position `index` of the
/// list (or at its end, `index` being the length of the list).
pub fn drop_sort_order(index: i32) -> (r: i32)
    requires
        index * 10 <= i32::MAX,
        index * 10 >= i32::MIN,
    ensures
        r == index * 10,
{
    index * 10
}

} // verus!
