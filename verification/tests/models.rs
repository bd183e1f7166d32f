use mote::models::{
    CreateItemRequest, Item, ItemType, TaskFilter, TaskPriority, TaskStatus, Timestamp,
    UpdateItemRequest,
};

fn ts(secs: i64) -> Timestamp {
    Timestamp { secs, nanos: 0 }
}

fn item(id: &str, file_path: Option<&str>, content: Option<&str>) -> Item {
    Item {
        id: id.to_string(),
        title: "T".to_string(),
        item_type: ItemType::Document,
        parent_id: None,
        sort_order: 0,
        content: content.map(|c| c.to_string()),
        status: None,
        priority: None,
        file_path: file_path.map(|p| p.to_string()),
        created_at: ts(1),
        updated_at: ts(1),
        deleted: false,
    }
}

#[test]
fn item_type_names_round_trip() {
    for t in [ItemType::Document, ItemType::Note, ItemType::Task, ItemType::Folder, ItemType::Project] {
        assert_eq!(ItemType::parse(t.as_str()), Ok(t));
    }
    assert_eq!(ItemType::Document.as_str(), "document");
    assert_eq!(ItemType::Project.as_str(), "project");
}

#[test]
fn item_type_from_str_and_error() {
    let t: ItemType = "task".parse().unwrap();
    assert_eq!(t, ItemType::Task);
    assert_eq!(ItemType::parse("Task"), Err("unknown item type: Task".to_string()));
    assert_eq!(ItemType::parse(""), Err("unknown item type: ".to_string()));
}

#[test]
fn status_names_labels_icons() {
    assert_eq!(TaskStatus::InProgress.as_str(), "in_progress");
    assert_eq!(TaskStatus::InProgress.label(), "In Progress");
    assert_eq!(TaskStatus::Todo.icon(), "○");
    assert_eq!(TaskStatus::InProgress.icon(), "◐");
    assert_eq!(TaskStatus::Done.icon(), "●");
    assert_eq!(TaskStatus::Cancelled.icon(), "✕");
    for s in [TaskStatus::Todo, TaskStatus::InProgress, TaskStatus::Done, TaskStatus::Cancelled] {
        assert_eq!(TaskStatus::parse(s.as_str()), Ok(s));
    }
    assert_eq!(TaskStatus::parse("doing"), Err("unknown status: doing".to_string()));
    let s: TaskStatus = "cancelled".parse().unwrap();
    assert_eq!(s, TaskStatus::Cancelled);
}

#[test]
fn status_cycle_returns_after_four() {
    let mut s = TaskStatus::Todo;
    let mut seen = vec![];
    for _ in 0..4 {
        seen.push(s);
        s = s.next();
    }
    assert_eq!(seen, vec![TaskStatus::Todo, TaskStatus::InProgress, TaskStatus::Done, TaskStatus::Cancelled]);
    assert_eq!(s, TaskStatus::Todo);
}

#[test]
fn priority_names_labels_colors_cycle() {
    assert_eq!(TaskPriority::Unset.as_str(), "none");
    assert_eq!(TaskPriority::Unset.label(), "-");
    assert_eq!(TaskPriority::Medium.label(), "Med");
    assert_eq!(TaskPriority::Urgent.label(), "!!");
    assert_eq!(TaskPriority::High.color(), "#ef5350");
    assert_eq!(TaskPriority::Unset.color(), "#5a6577");
    let mut p = TaskPriority::Unset;
    for _ in 0..5 {
        assert_ne!(p.next(), p);
        p = p.next();
    }
    assert_eq!(p, TaskPriority::Unset);
    assert_eq!(TaskPriority::Low.next(), TaskPriority::Medium);
    for p in [TaskPriority::Unset, TaskPriority::Low, TaskPriority::Medium, TaskPriority::High, TaskPriority::Urgent] {
        assert_eq!(TaskPriority::parse(p.as_str()), Ok(p));
    }
    assert_eq!(TaskPriority::parse("max"), Err("unknown priority: max".to_string()));
    let q: TaskPriority = "urgent".parse().unwrap();
    assert_eq!(q, TaskPriority::Urgent);
}

#[test]
fn db_content_only_for_items_without_file() {
    assert_eq!(item("a", Some("docs/a.md"), Some("x")).db_content(), None);
    assert_eq!(item("a", None, Some("x")).db_content(), Some("x"));
    assert_eq!(item("a", None, None).db_content(), None);
}

#[test]
fn duplicate_copies_every_field() {
    let i = item("a", Some("docs/a.md"), Some("x"));
    let d = i.duplicate();
    assert_eq!(d.id, "a");
    assert_eq!(d.file_path.as_deref(), Some("docs/a.md"));
    assert_eq!(d.content.as_deref(), Some("x"));
    assert_eq!(d.created_at, i.created_at);
}

#[test]
fn task_filter_matches_and_labels() {
    assert!(TaskFilter::All.matches(None));
    assert!(TaskFilter::Todo.matches(Some(&TaskStatus::Todo)));
    assert!(!TaskFilter::Todo.matches(Some(&TaskStatus::Done)));
    assert!(!TaskFilter::Done.matches(None));
    assert!(TaskFilter::InProgress.matches(Some(&TaskStatus::InProgress)));
    assert_eq!(TaskFilter::InProgress.label(), "Active");
    assert_eq!(TaskFilter::All.label(), "All");
}

#[test]
fn timestamps_order() {
    let a = Timestamp { secs: 5, nanos: 10 };
    let b = Timestamp { secs: 5, nanos: 11 };
    let c = Timestamp { secs: 6, nanos: 0 };
    assert!(a.before(&b));
    assert!(b.before(&c));
    assert!(!c.before(&a));
    assert!(!a.before(&a));
}

#[test]
fn update_request_default_is_empty() {
    let r = UpdateItemRequest::default();
    assert_eq!(r.id, "");
    assert!(r.title.is_none() && r.content.is_none() && r.sort_order.is_none());
    let c = CreateItemRequest {
        title: "x".into(),
        item_type: ItemType::Note,
        parent_id: None,
        content: None,
        status: None,
        priority: None,
    };
    assert_eq!(c.item_type, ItemType::Note);
}
