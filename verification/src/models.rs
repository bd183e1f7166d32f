//! The workspace's data: items, their kinds, task states and requests.

use vstd::prelude::*;
use crate::text::{append, chars_of, copy_opt, is_text, opt_text, owned};

verus! {

/// What an item is.
#[derive(Debug, Clone, Copy, PartialEq, Eq, Structural)]
pub enum ItemType {
    Document,
    Note,
    Task,
    Folder,
    Project,
}

/// The stored name of an item type.
pub open spec fn item_type_text(t: ItemType) -> Seq<char> {
    match t {
        ItemType::Document => "document"@,
        ItemType::Note => "note"@,
        ItemType::Task => "task"@,
        ItemType::Folder => "folder"@,
        ItemType::Project => "project"@,
    }
}

/// The item type whose stored name is `s`.
pub open spec fn item_type_named(s: Seq<char>) -> Option<ItemType> {
    if s == "document"@ {
        Some(ItemType::Document)
    } else if s == "note"@ {
        Some(ItemType::Note)
    } else if s == "task"@ {
        Some(ItemType::Task)
    } else if s == "folder"@ {
        Some(ItemType::Folder)
    } else if s == "project"@ {
        Some(ItemType::Project)
    } else {
        None
    }
}

/// The message of a refused parse: `prefix` followed by the refused text.
pub open spec fn unknown_text(prefix: Seq<char>, s: Seq<char>) -> Seq<char> {
    prefix + s
}

/// Builds `prefix` followed by `s`.
fn unknown_message(prefix: &str, s: &str) -> (r: String)
    ensures
        r@ == unknown_text(prefix@, s@),
{
    let mut m = owned(prefix);
    append(&mut m, s);
    m
}

impl ItemType {
    /// The stored name of this type.
    pub fn as_str(&self) -> (s: &'static str)
        ensures
            s@ == item_type_text(*self),
    {
        match self {
            ItemType::Document => "document",
            ItemType::Note => "note",
            ItemType::Task => "task",
            ItemType::Folder => "folder",
            ItemType::Project => "project",
        }
    }

    /// The type with the stored name `s`, or the message `unknown item type: <s>`.
    pub fn parse(s: &str) -> (r: Result<ItemType, String>)
        ensures
            match item_type_named(s@) {
                Some(t) => r == Ok::<ItemType, String>(t),
                None => r is Err && r->Err_0@ == unknown_text("unknown item type: "@, s@),
            },
    {
        let v = chars_of(s);
        if is_text(&v, "document") {
            Ok(ItemType::Document)
        } else if is_text(&v, "note") {
            Ok(ItemType::Note)
        } else if is_text(&v, "task") {
            Ok(ItemType::Task)
        } else if is_text(&v, "folder") {
            Ok(ItemType::Folder)
        } else if is_text(&v, "project") {
            Ok(ItemType::Project)
        } else {
            Err(unknown_message("unknown item type: ", s))
        }
    }
}

impl std::str::FromStr for ItemType {
    type Err = String;

    fn from_str(s: &str) -> (r: Result<ItemType, String>)
        ensures
            match item_type_named(s@) {
                Some(t) => r == Ok::<ItemType, String>(t),
                None => r is Err && r->Err_0@ == unknown_text("unknown item type: "@, s@),
            },
    {
        ItemType::parse(s)
    }
}

/// The state of a task.
#[derive(Debug, Clone, Copy, PartialEq, Eq, Structural)]
pub enum TaskStatus {
    Todo,
    InProgress,
    Done,
    Cancelled,
}

/// The stored name of a task status.
pub open spec fn status_text(t: TaskStatus) -> Seq<char> {
    match t {
        TaskStatus::Todo => "todo"@,
        TaskStatus::InProgress => "in_progress"@,
        TaskStatus::Done => "done"@,
        TaskStatus::Cancelled => "cancelled"@,
    }
}

/// The status whose stored name is `s`.
pub open spec fn status_named(s: Seq<char>) -> Option<TaskStatus> {
    if s == "todo"@ {
        Some(TaskStatus::Todo)
    } else if s == "in_progress"@ {
        Some(TaskStatus::InProgress)
    } else if s == "done"@ {
        Some(TaskStatus::Done)
    } else if s == "cancelled"@ {
        Some(TaskStatus::Cancelled)
    } else {
        None
    }
}

/// The status that follows `t` when a task is clicked through:
/// todo, in progress, done, cancelled, and back to todo.
pub open spec fn status_after(t: TaskStatus) -> TaskStatus {
    match t {
        TaskStatus::Todo => TaskStatus::InProgress,
        TaskStatus::InProgress => TaskStatus::Done,
        TaskStatus::Done => TaskStatus::Cancelled,
        TaskStatus::Cancelled => TaskStatus::Todo,
    }
}

impl TaskStatus {
    /// The stored name of this status.
    pub fn as_str(&self) -> (s: &'static str)
        ensures
            s@ == status_text(*self),
    {
        match self {
            TaskStatus::Todo => "todo",
            TaskStatus::InProgress => "in_progress",
            TaskStatus::Done => "done",
            TaskStatus::Cancelled => "cancelled",
        }
    }

    /// The name shown to the user.
    pub fn label(&self) -> (s: &'static str)
        ensures
            s@ == match *self {
                TaskStatus::Todo => "Todo"@,
                TaskStatus::InProgress => "In Progress"@,
                TaskStatus::Done => "Done"@,
                TaskStatus::Cancelled => "Cancelled"@,
            },
    {
        match self {
            TaskStatus::Todo => "Todo",
            TaskStatus::InProgress => "In Progress",
            TaskStatus::Done => "Done",
            TaskStatus::Cancelled => "Cancelled",
        }
    }

    /// The symbol shown beside a task.
    pub fn icon(&self) -> (s: &'static str)
        ensures
            s@ == match *self {
                TaskStatus::Todo => "\u{25cb}"@,
                TaskStatus::InProgress => "\u{25d0}"@,
                TaskStatus::Done => "\u{25cf}"@,
                TaskStatus::Cancelled => "\u{2715}"@,
            },
    {
        match self {
            TaskStatus::Todo => "\u{25cb}",
            TaskStatus::InProgress => "\u{25d0}",
            TaskStatus::Done => "\u{25cf}",
            TaskStatus::Cancelled => "\u{2715}",
        }
    }

    /// The next status in the cycle.
    pub fn next(&self) -> (t: TaskStatus)
        ensures
            t == status_after(*self),
            stage(t) == (stage(*self) + 1) % 4,
    {
        match self {
            TaskStatus::Todo => TaskStatus::InProgress,
            TaskStatus::InProgress => TaskStatus::Done,
            TaskStatus::Done => TaskStatus::Cancelled,
            TaskStatus::Cancelled => TaskStatus::Todo,
        }
    }

    /// The status with the stored name `s`, or the message `unknown status: <s>`.
    pub fn parse(s: &str) -> (r: Result<TaskStatus, String>)
        ensures
            match status_named(s@) {
                Some(t) => r == Ok::<TaskStatus, String>(t),
                None => r is Err && r->Err_0@ == unknown_text("unknown status: "@, s@),
            },
    {
        let v = chars_of(s);
        if is_text(&v, "todo") {
            Ok(TaskStatus::Todo)
        } else if is_text(&v, "in_progress") {
            Ok(TaskStatus::InProgress)
        } else if is_text(&v, "done") {
            Ok(TaskStatus::Done)
        } else if is_text(&v, "cancelled") {
            Ok(TaskStatus::Cancelled)
        } else {
            Err(unknown_message("unknown status: ", s))
        }
    }
}

impl std::str::FromStr for TaskStatus {
    type Err = String;

    fn from_str(s: &str) -> (r: Result<TaskStatus, String>)
        ensures
            match status_named(s@) {
                Some(t) => r == Ok::<TaskStatus, String>(t),
                None => r is Err && r->Err_0@ == unknown_text("unknown status: "@, s@),
            },
    {
        TaskStatus::parse(s)
    }
}

/// How urgent a task is.
#[derive(Debug, Clone, Copy, PartialEq, Eq, Structural)]
pub enum TaskPriority {
    Unset,
    Low,
    Medium,
    High,
    Urgent,
}

/// The stored name of a priority.
pub open spec fn priority_text(p: TaskPriority) -> Seq<char> {
    match p {
        TaskPriority::Unset => "none"@,
        TaskPriority::Low => "low"@,
        TaskPriority::Medium => "medium"@,
        TaskPriority::High => "high"@,
        TaskPriority::Urgent => "urgent"@,
    }
}

/// The priority whose stored name is `s`.
pub open spec fn priority_named(s: Seq<char>) -> Option<TaskPriority> {
    if s == "none"@ {
        Some(TaskPriority::Unset)
    } else if s == "low"@ {
        Some(TaskPriority::Low)
    } else if s == "medium"@ {
        Some(TaskPriority::Medium)
    } else if s == "high"@ {
        Some(TaskPriority::High)
    } else if s == "urgent"@ {
        Some(TaskPriority::Urgent)
    } else {
        None
    }
}

/// The priority that follows `p`: none, low, medium, high, urgent, and back to none.
pub open spec fn priority_after(p: TaskPriority) -> TaskPriority {
    match p {
        TaskPriority::Unset => TaskPriority::Low,
        TaskPriority::Low => TaskPriority::Medium,
        TaskPriority::Medium => TaskPriority::High,
        TaskPriority::High => TaskPriority::Urgent,
        TaskPriority::Urgent => TaskPriority::Unset,
    }
}

impl TaskPriority {
    /// The stored name of this priority.
    pub fn as_str(&self) -> (s: &'static str)
        ensures
            s@ == priority_text(*self),
    {
        match self {
            TaskPriority::Unset => "none",
            TaskPriority::Low => "low",
            TaskPriority::Medium => "medium",
            TaskPriority::High => "high",
            TaskPriority::Urgent => "urgent",
        }
    }

    /// The short name shown to the user.
    pub fn label(&self) -> (s: &'static str)
        ensures
            s@ == match *self {
                TaskPriority::Unset => "-"@,
                TaskPriority::Low => "Low"@,
                TaskPriority::Medium => "Med"@,
                TaskPriority::High => "High"@,
                TaskPriority::Urgent => "!!"@,
            },
    {
        match self {
            TaskPriority::Unset => "-",
            TaskPriority::Low => "Low",
            TaskPriority::Medium => "Med",
            TaskPriority::High => "High",
            TaskPriority::Urgent => "!!",
        }
    }

    /// The colour the priority is shown in.
    pub fn color(&self) -> (s: &'static str)
        ensures
            s@ == match *self {
                TaskPriority::Unset => "#5a6577"@,
                TaskPriority::Low => "#64b5f6"@,
                TaskPriority::Medium => "#ffa726"@,
                TaskPriority::High => "#ef5350"@,
                TaskPriority::Urgent => "#ff1744"@,
            },
    {
        match self {
            TaskPriority::Unset => "#5a6577",
            TaskPriority::Low => "#64b5f6",
            TaskPriority::Medium => "#ffa726",
            TaskPriority::High => "#ef5350",
            TaskPriority::Urgent => "#ff1744",
        }
    }

    /// The next priority in the cycle.
    pub fn next(&self) -> (p: TaskPriority)
        ensures
            p == priority_after(*self),
            urgency(p) == (urgency(*self) + 1) % 5,
    {
        match self {
            TaskPriority::Unset => TaskPriority::Low,
            TaskPriority::Low => TaskPriority::Medium,
            TaskPriority::Medium => TaskPriority::High,
            TaskPriority::High => TaskPriority::Urgent,
            TaskPriority::Urgent => TaskPriority::Unset,
        }
    }

    /// The priority with the stored name `s`, or the message `unknown priority: <s>`.
    pub fn parse(s: &str) -> (r: Result<TaskPriority, String>)
        ensures
            match priority_named(s@) {
                Some(p) => r == Ok::<TaskPriority, String>(p),
                None => r is Err && r->Err_0@ == unknown_text("unknown priority: "@, s@),
            },
    {
        let v = chars_of(s);
        if is_text(&v, "none") {
            Ok(TaskPriority::Unset)
        } else if is_text(&v, "low") {
            Ok(TaskPriority::Low)
        } else if is_text(&v, "medium") {
            Ok(TaskPriority::Medium)
        } else if is_text(&v, "high") {
            Ok(TaskPriority::High)
        } else if is_text(&v, "urgent") {
            Ok(TaskPriority::Urgent)
        } else {
            Err(unknown_message("unknown priority: ", s))
        }
    }
}

impl std::str::FromStr for TaskPriority {
    type Err = String;

    fn from_str(s: &str) -> (r: Result<TaskPriority, String>)
        ensures
            match priority_named(s@) {
                Some(t) => r == Ok::<TaskPriority, String>(t),
                None => r is Err && r->Err_0@ == unknown_text("unknown priority: "@, s@),
            },
    {
        TaskPriority::parse(s)
    }
}

/// A UTC instant: seconds since the Unix epoch and the nanoseconds past
/// that second.  Instants are ordered by seconds, then nanoseconds.
#[derive(Debug, Clone, Copy, PartialEq, Eq, Structural)]
pub struct Timestamp {
    pub secs: i64,
    pub nanos: u32,
}

/// `a` comes no later than `b`.
pub open spec fn time_le(a: Timestamp, b: Timestamp) -> bool {
    a.secs < b.secs || (a.secs == b.secs && a.nanos <= b.nanos)
}

impl Timestamp {
    /// Whether this instant comes strictly before `other`.
    pub fn before(&self, other: &Timestamp) -> (b: bool)
        ensures
            b == !time_le(*other, *self),
    {
        self.secs < other.secs || (self.secs == other.secs && self.nanos < other.nanos)
    }
}

/// A document, note, task, folder or project of the workspace.
#[derive(Debug, Clone)]
pub struct Item {
    pub id: String,
    pub title: String,
    pub item_type: ItemType,
    pub parent_id: Option<String>,
    pub sort_order: i32,
    pub content: Option<String>,
    pub status: Option<TaskStatus>,
    pub priority: Option<TaskPriority>,
    pub file_path: Option<String>,
    pub created_at: Timestamp,
    pub updated_at: Timestamp,
    pub deleted: bool,
}

/// An item with its texts as character sequences.
pub struct ItemView {
    pub id: Seq<char>,
    pub title: Seq<char>,
    pub item_type: ItemType,
    pub parent_id: Option<Seq<char>>,
    pub sort_order: i32,
    pub content: Option<Seq<char>>,
    pub status: Option<TaskStatus>,
    pub priority: Option<TaskPriority>,
    pub file_path: Option<Seq<char>>,
    pub created_at: Timestamp,
    pub updated_at: Timestamp,
    pub deleted: bool,
}

impl View for Item {
    type V = ItemView;

    open spec fn view(&self) -> ItemView {
        ItemView {
            id: self.id@,
            title: self.title@,
            item_type: self.item_type,
            parent_id: opt_text(self.parent_id),
            sort_order: self.sort_order,
            content: opt_text(self.content),
            status: self.status,
            priority: self.priority,
            file_path: opt_text(self.file_path),
            created_at: self.created_at,
            updated_at: self.updated_at,
            deleted: self.deleted,
        }
    }
}

/// The content an item keeps in the database: none for an item backed by a file.
pub open spec fn stored_content(i: ItemView) -> Option<Seq<char>> {
    if i.file_path is Some {
        None
    } else {
        i.content
    }
}

impl Item {
    /// Content to store in the database: `None` for file-backed items.
    pub fn db_content(&self) -> (r: Option<&str>)
        ensures
            match r {
                Some(s) => stored_content(self@) == Some(s@),
                None => stored_content(self@) is None,
            },
    {
        if self.file_path.is_some() {
            None
        } else {
            match &self.content {
                Some(c) => Some(c.as_str()),
                None => None,
            }
        }
    }

    /// A copy of this item.
    pub fn duplicate(&self) -> (r: Item)
        ensures
            r@ == self@,
    {
        Item {
            id: owned(self.id.as_str()),
            title: owned(self.title.as_str()),
            item_type: self.item_type,
            parent_id: copy_opt(&self.parent_id),
            sort_order: self.sort_order,
            content: copy_opt(&self.content),
            status: self.status,
            priority: self.priority,
            file_path: copy_opt(&self.file_path),
            created_at: self.created_at,
            updated_at: self.updated_at,
            deleted: self.deleted,
        }
    }
}

/// What is asked for when an item is created.
#[derive(Debug, Clone)]
pub struct CreateItemRequest {
    pub title: String,
    pub item_type: ItemType,
    pub parent_id: Option<String>,
    pub content: Option<String>,
    pub status: Option<TaskStatus>,
    pub priority: Option<TaskPriority>,
}

/// What is asked for when an item is changed; `None` leaves a field as it is.
#[derive(Debug, Clone)]
pub struct UpdateItemRequest {
    pub id: String,
    pub title: Option<String>,
    pub parent_id: Option<String>,
    pub sort_order: Option<i32>,
    pub content: Option<String>,
    pub status: Option<TaskStatus>,
    pub priority: Option<TaskPriority>,
}

impl Default for UpdateItemRequest {
    fn default() -> (r: UpdateItemRequest)
        ensures
            r.id@ == Seq::<char>::empty(),
            r.title is None,
            r.parent_id is None,
            r.sort_order is None,
            r.content is None,
            r.status is None,
            r.priority is None,
    {
        UpdateItemRequest {
            id: String::new(),
            title: None,
            parent_id: None,
            sort_order: None,
            content: None,
            status: None,
            priority: None,
        }
    }
}

/// The saved choice of workspace.
#[derive(Debug, Clone)]
pub struct WorkspaceConfig {
    pub workspace_path: Option<String>,
}

/// Which tasks a task list shows.
#[derive(Debug, Clone, Copy, PartialEq, Eq, Structural)]
pub enum TaskFilter {
    All,
    Todo,
    InProgress,
    Done,
}

/// Whether a task with status `status` passes `f`.
pub open spec fn filter_passes(f: TaskFilter, status: Option<TaskStatus>) -> bool {
    match f {
        TaskFilter::All => true,
        TaskFilter::Todo => status == Some(TaskStatus::Todo),
        TaskFilter::InProgress => status == Some(TaskStatus::InProgress),
        TaskFilter::Done => status == Some(TaskStatus::Done),
    }
}

impl TaskFilter {
    /// Whether a task with the given status is shown under this filter.
    pub fn matches(&self, status: Option<&TaskStatus>) -> (b: bool)
        ensures
            b == filter_passes(
                *self,
                match status {
                    Some(s) => Some(*s),
                    None => None,
                },
            ),
    {
        match self {
            TaskFilter::All => true,
            TaskFilter::Todo => match status {
                Some(TaskStatus::Todo) => true,
                _ => false,
            },
            TaskFilter::InProgress => match status {
                Some(TaskStatus::InProgress) => true,
                _ => false,
            },
            TaskFilter::Done => match status {
                Some(TaskStatus::Done) => true,
                _ => false,
            },
        }
    }

    /// The name of the filter's button.
    pub fn label(&self) -> (s: &'static str)
        ensures
            s@ == match *self {
                TaskFilter::All => "All"@,
                TaskFilter::Todo => "Todo"@,
                TaskFilter::InProgress => "Active"@,
                TaskFilter::Done => "Done"@,
            },
    {
        match self {
            TaskFilter::All => "All",
            TaskFilter::Todo => "Todo",
            TaskFilter::InProgress => "Active",
            TaskFilter::Done => "Done",
        }
    }
}

/// Every item type is read back from its stored name.
pub proof fn lemma_item_type_round_trip(t: ItemType)
    ensures
        item_type_named(item_type_text(t)) == Some(t),
{
    reveal_strlit("document");
    reveal_strlit("note");
    reveal_strlit("task");
    reveal_strlit("folder");
    reveal_strlit("project");
    assert("document"@.len() == 8);
    assert("note"@.len() == 4);
    assert("task"@.len() == 4);
    assert("folder"@.len() == 6);
    assert("project"@.len() == 7);
    assert("document"@[0] == 'd');
    assert("note"@[0] == 'n');
    assert("task"@[0] == 't');
    assert("folder"@[0] == 'f');
    assert("project"@[0] == 'p');
}

/// Every status is read back from its stored name.
pub proof fn lemma_status_round_trip(t: TaskStatus)
    ensures
        status_named(status_text(t)) == Some(t),
{
    reveal_strlit("todo");
    reveal_strlit("in_progress");
    reveal_strlit("done");
    reveal_strlit("cancelled");
    assert("todo"@.len() == 4);
    assert("in_progress"@.len() == 11);
    assert("done"@.len() == 4);
    assert("cancelled"@.len() == 9);
    assert("todo"@[0] == 't');
    assert("in_progress"@[0] == 'i');
    assert("done"@[0] == 'd');
    assert("cancelled"@[0] == 'c');
}

/// Every priority is read back from its stored name.
pub proof fn lemma_priority_round_trip(p: TaskPriority)
    ensures
        priority_named(priority_text(p)) == Some(p),
{
    reveal_strlit("none");
    reveal_strlit("low");
    reveal_strlit("medium");
    reveal_strlit("high");
    reveal_strlit("urgent");
    assert("none"@.len() == 4);
    assert("low"@.len() == 3);
    assert("medium"@.len() == 6);
    assert("high"@.len() == 4);
    assert("urgent"@.len() == 6);
    assert("none"@[0] == 'n');
    assert("low"@[0] == 'l');
    assert("medium"@[0] == 'm');
    assert("high"@[0] == 'h');
    assert("urgent"@[0] == 'u');
}

/// How far a task has come: to do 0, in progress 1, done 2, cancelled 3.
pub open spec fn stage(t: TaskStatus) -> int {
    match t {
        TaskStatus::Todo => 0,
        TaskStatus::InProgress => 1,
        TaskStatus::Done => 2,
        TaskStatus::Cancelled => 3,
    }
}

/// How urgent a priority is: none 0, low 1, medium 2, high 3, urgent 4.
pub open spec fn urgency(p: TaskPriority) -> int {
    match p {
        TaskPriority::Unset => 0,
        TaskPriority::Low => 1,
        TaskPriority::Medium => 2,
        TaskPriority::High => 3,
        TaskPriority::Urgent => 4,
    }
}

/// Clicking through a task's status moves it one stage on (to do, in
/// progress, done, cancelled) and from cancelled back to to do; so each
/// click changes it and four clicks bring it back.
pub proof fn lemma_status_cycle(t: TaskStatus)
    ensures
        stage(status_after(t)) == (stage(t) + 1) % 4,
        status_after(t) != t,
        status_after(status_after(status_after(status_after(t)))) == t,
{
}

/// Clicking through a priority raises its urgency one step at a time (none,
/// low, medium, high, urgent) and from urgent goes back to none; so each
/// click changes it and five clicks bring it back.
pub proof fn lemma_priority_cycle(p: TaskPriority)
    ensures
        urgency(priority_after(p)) == (urgency(p) + 1) % 5,
        priority_after(p) != p,
        priority_after(priority_after(priority_after(priority_after(priority_after(p))))) == p,
{
}

} // verus!
