//! The sidebar: its sections, what each lists, and the items its buttons
//! create.

use vstd::prelude::*;
use crate::models::{CreateItemRequest, Item, ItemType, ItemView, TaskPriority, TaskStatus};
use crate::storage::ReorderPos;
use crate::text::{append, chars_of, opt_text, owned, same_text};
use crate::ui::app::{keep_where, select, views, ItemTest};

verus! {

/// A tab of the sidebar.
#[derive(Debug, Clone, Copy, PartialEq, Eq, Structural)]
pub enum Section {
    Docs,
    Tasks,
    Notes,
    Browser,
    Settings,
}

/// The item types a section lists: documents and folders, tasks and
/// projects, or notes; the browser and settings list none.
pub open spec fn listed_in(t: ItemType, s: Section) -> bool {
    match s {
        Section::Docs => t == ItemType::Document || t == ItemType::Folder,
        Section::Tasks => t == ItemType::Task || t == ItemType::Project,
        Section::Notes => t == ItemType::Note,
        _ => false,
    }
}

/// Accepts the items a section lists.
pub struct InSection {
    pub section: Section,
}

impl ItemTest for InSection {
    open spec fn accepts(&self, v: ItemView) -> bool {
        listed_in(v.item_type, self.section)
    }

    fn test(&self, i: &Item) -> (b: bool) {
        match self.section {
            Section::Docs => match i.item_type {
                ItemType::Document | ItemType::Folder => true,
                _ => false,
            },
            Section::Tasks => match i.item_type {
                ItemType::Task | ItemType::Project => true,
                _ => false,
            },
            Section::Notes => match i.item_type {
                ItemType::Note => true,
                _ => false,
            },
            _ => false,
        }
    }
}

/// The top-level items a section lists, in order.
pub fn section_items(items: &Vec<Item>, section: Section) -> (r: Vec<Item>)
    ensures
        views(r@) == keep_where(views(items@), |v: ItemView| listed_in(v.item_type, section)),
{
    let t = InSection { section };
    let r = select(items, &t);
    assert((|v: ItemView| t.accepts(v)) == (|v: ItemView| listed_in(v.item_type, section)));
    r
}

/// Whether items can be dropped into an item of type `t` (projects and
/// folders hold children).
pub fn can_accept_children(t: &ItemType) -> (b: bool)
    ensures
        b == (*t == ItemType::Project || *t == ItemType::Folder),
{
    match t {
        ItemType::Project | ItemType::Folder => true,
        _ => false,
    }
}

/// Whether the node of `item_id` is the one being dragged.
pub fn is_dragged(drag_id: Option<&str>, item_id: &str) -> (b: bool)
    ensures
        b == (drag_id matches Some(d) && d@ == item_id@),
{
    match drag_id {
        Some(d) => same_text(&chars_of(d), &chars_of(item_id)),
        None => false,
    }
}

/// The drop zones a tree node offers while an item is dragged, top to
/// bottom: none when nothing is dragged or the node itself is; above, into
/// and below for a project or folder; above and below for any other item.
pub open spec fn zones_of(item_type: ItemType, drag_id: Option<Seq<char>>, item_id: Seq<char>) -> Seq<
    ReorderPos,
> {
    match drag_id {
        None => seq![],
        Some(d) => if d == item_id {
            seq![]
        } else if item_type == ItemType::Project || item_type == ItemType::Folder {
            seq![ReorderPos::Before, ReorderPos::Into, ReorderPos::After]
        } else {
            seq![ReorderPos::Before, ReorderPos::After]
        },
    }
}

/// While another item is dragged, every node offers to drop it above or
/// below (in that order, top to bottom), and only a project or folder offers
/// to take it in, in the middle; the dragged node itself, or any node when
/// nothing is dragged, offers nothing.
pub proof fn lemma_drop_zones(item_type: ItemType, drag_id: Option<Seq<char>>, item_id: Seq<char>)
    ensures
        ({
            let z = zones_of(item_type, drag_id, item_id);
            &&& (drag_id is None || drag_id == Some(item_id)) ==> z.len() == 0
            &&& (drag_id matches Some(d) && d != item_id) ==> {
                &&& z.len() >= 2
                &&& z[0] == ReorderPos::Before
                &&& z.last() == ReorderPos::After
                &&& (z.contains(ReorderPos::Into) <==> (item_type == ItemType::Project
                    || item_type == ItemType::Folder))
                &&& forall|k: int| 0 < k < z.len() - 1 ==> z[k] == ReorderPos::Into
            }
        }),
{
    let z = zones_of(item_type, drag_id, item_id);
    if drag_id matches Some(d) && d != item_id {
        if item_type == ItemType::Project || item_type == ItemType::Folder {
            assert(z[1] == ReorderPos::Into);
        } else {
            assert(z.len() == 2);
            if z.contains(ReorderPos::Into) {
                let k = choose|k: int| 0 <= k < z.len() && z[k] == ReorderPos::Into;
                assert(z[k] != ReorderPos::Into);
            }
        }
    }
}

/// The drop zones of a tree node (see `zones_of`).
pub fn drop_zones(item_type: ItemType, drag_id: Option<&str>, item_id: &str) -> (r: Vec<ReorderPos>)
    ensures
        r@ == zones_of(
            item_type,
            match drag_id {
                Some(d) => Some(d@),
                None => None,
            },
            item_id@,
        ),
{
    let mut r: Vec<ReorderPos> = Vec::new();
    if drag_id.is_none() || is_dragged(drag_id, item_id) {
        return r;
    }
    r.push(ReorderPos::Before);
    if can_accept_children(&item_type) {
        r.push(ReorderPos::Into);
    }
    r.push(ReorderPos::After);
    r
}

/// The symbol of an item in the tree: a letter for each kind, the status
/// icon for a task (`○` without status).
pub fn node_icon(t: ItemType, status: Option<TaskStatus>) -> (s: &'static str)
    ensures
        s@ == match t {
            ItemType::Folder => "F"@,
            ItemType::Document => "D"@,
            ItemType::Note => "N"@,
            ItemType::Project => "P"@,
            ItemType::Task => match status {
                Some(TaskStatus::Todo) => "\u{25cb}"@,
                Some(TaskStatus::InProgress) => "\u{25d0}"@,
                Some(TaskStatus::Done) => "\u{25cf}"@,
                Some(TaskStatus::Cancelled) => "\u{2715}"@,
                None => "\u{25cb}"@,
            },
        },
{
    match t {
        ItemType::Folder => "F",
        ItemType::Document => "D",
        ItemType::Note => "N",
        ItemType::Project => "P",
        ItemType::Task => match status {
            Some(st) => st.icon(),
            None => "\u{25cb}",
        },
    }
}

/// The item the sidebar's `+` button of a kind creates, at the top level: a
/// document `Untitled` starting with its heading; a note titled
/// `<today> Note` starting with its heading; a to-do task `New Task` without
/// priority; an empty `New Project` or `New Folder`.
pub fn new_item_request(item_type: ItemType, today: &str) -> (r: CreateItemRequest)
    ensures
        r.item_type == item_type,
        r.parent_id is None,
        item_type == ItemType::Document ==> r.title@ == "Untitled"@ && opt_text(r.content) == Some(
            "# Untitled\n\n"@) && r.status is None && r.priority is None,
        item_type == ItemType::Note ==> r.title@ == today@ + " Note"@ && opt_text(r.content) == Some(
            "# "@ + today@ + " Note"@ + "\n\n"@) && r.status is None && r.priority is None,
        item_type == ItemType::Task ==> r.title@ == "New Task"@ && r.content is None && r.status
            == Some(TaskStatus::Todo) && r.priority == Some(TaskPriority::Unset),
        item_type == ItemType::Project ==> r.title@ == "New Project"@ && r.content is None
            && r.status is None && r.priority is None,
        item_type == ItemType::Folder ==> r.title@ == "New Folder"@ && r.content is None
            && r.status is None && r.priority is None,
{
    match item_type {
        ItemType::Document => CreateItemRequest {
            title: owned("Untitled"),
            item_type,
            parent_id: None,
            content: Some(owned("# Untitled\n\n")),
            status: None,
            priority: None,
        },
        ItemType::Note => {
            let mut title = owned(today);
            append(&mut title, " Note");
            let mut content = owned("# ");
            append(&mut content, title.as_str());
            append(&mut content, "\n\n");
            CreateItemRequest {
                title,
                item_type,
                parent_id: None,
                content: Some(content),
                status: None,
                priority: None,
            }
        },
        ItemType::Task => CreateItemRequest {
            title: owned("New Task"),
            item_type,
            parent_id: None,
            content: None,
            status: Some(TaskStatus::Todo),
            priority: Some(TaskPriority::Unset),
        },
        ItemType::Project => CreateItemRequest {
            title: owned("New Project"),
            item_type,
            parent_id: None,
            content: None,
            status: None,
            priority: None,
        },
        ItemType::Folder => CreateItemRequest {
            title: owned("New Folder"),
            item_type,
            parent_id: None,
            content: None,
            status: None,
            priority: None,
        },
    }
}

} // verus!
