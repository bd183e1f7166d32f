use mote::models::{CreateItemRequest, Item, ItemType, TaskPriority, TaskStatus, Timestamp, UpdateItemRequest};
use mote::storage::backup::{
    add_extracted, backup_entry, backup_file_name, check_entry_count, items_to_import,
    kept_when_clearing, validate_entry_names, BackupEntry, RestoreError, MAX_RESTORE_BYTES,
    MAX_RESTORE_ENTRIES,
};
use mote::storage::db::{fts_quote, item_from_row, item_row, item_type_or_document, ItemRow};
use mote::storage::files::{FileManager, PathError};
use mote::storage::{
    apply_update, data_dir, has_content_change, item_for, new_item, prepare_item, planned_file_path, reordered_siblings,
    short_id, sibling_sort_order, slugify, title_from_content, untracked_files, ReorderPos,
};
use mote::time::{backup_stamp, day_text, read_time, stored_time};

const MAY_15_2015: Timestamp = Timestamp { secs: 1431648000, nanos: 0 };

fn item(id: &str, file_path: Option<&str>) -> Item {
    Item {
        id: id.to_string(),
        title: format!("Title {id}"),
        item_type: ItemType::Task,
        parent_id: Some("p".to_string()),
        sort_order: 7,
        content: Some("body".to_string()),
        status: Some(TaskStatus::InProgress),
        priority: Some(TaskPriority::High),
        file_path: file_path.map(|p| p.to_string()),
        created_at: MAY_15_2015,
        updated_at: Timestamp { secs: 1431648001, nanos: 500_000_000 },
        deleted: false,
    }
}

fn strings(v: &[&str]) -> Vec<String> {
    v.iter().map(|s| s.to_string()).collect()
}

#[test]
fn data_dir_under_workspace() {
    assert_eq!(data_dir("/home/u/ws"), "/home/u/ws/mote-data");
    assert_eq!(data_dir("/home/u/ws/"), "/home/u/ws/mote-data");
}

#[test]
fn slugify_collapses_and_trims_dashes() {
    assert_eq!(slugify("Hello, World!"), "hello-world");
    assert_eq!(slugify("  --Foo__Bar--  "), "foo-bar");
    assert_eq!(slugify("a---b"), "a-b");
    assert_eq!(slugify("!!!"), "");
    assert_eq!(slugify("Ünïcödé Straße 2"), "ünïcödé-straße-2");
}

#[test]
fn slug_never_has_edge_or_double_dashes() {
    for t in ["-a-", "x - y -- z", "  ", "Q&A: what?", "---"] {
        let s = slugify(t);
        assert!(!s.starts_with('-') && !s.ends_with('-') && !s.contains("--"), "{s}");
    }
}

#[test]
fn title_from_first_heading_or_file_name() {
    assert_eq!(title_from_content("intro\n  #   Title  \nmore", "docs/x.md"), "Title");
    assert_eq!(title_from_content("#\n# \n# Real\n# Later", "docs/x.md"), "Real");
    assert_eq!(title_from_content("## Sub\nplain", "docs/my-doc.md"), "my-doc");
    assert_eq!(title_from_content("# Win\r\nx", "n.md"), "Win");
    assert_eq!(title_from_content("", ""), "Untitled");
}

#[test]
fn reorder_before_after_into() {
    let sibs = strings(&["a", "b", "c", "d"]);
    assert_eq!(reordered_siblings(&sibs, "d", "b", ReorderPos::Before), strings(&["a", "d", "b", "c"]));
    assert_eq!(reordered_siblings(&sibs, "d", "b", ReorderPos::After), strings(&["a", "b", "d", "c"]));
    assert_eq!(reordered_siblings(&sibs, "a", "d", ReorderPos::After), strings(&["b", "c", "d", "a"]));
    assert_eq!(reordered_siblings(&sibs, "c", "x", ReorderPos::Into), strings(&["c", "a", "b", "d"]));
    assert_eq!(reordered_siblings(&sibs, "n", "zz", ReorderPos::After), strings(&["a", "n", "b", "c", "d"]));
    assert_eq!(reordered_siblings(&vec![], "n", "zz", ReorderPos::After), strings(&["n"]));
}

#[test]
fn reorder_keeps_other_siblings_in_order() {
    let sibs = strings(&["a", "b", "c", "d", "e"]);
    for pos in [ReorderPos::Before, ReorderPos::After, ReorderPos::Into] {
        let r = reordered_siblings(&sibs, "c", "e", pos);
        assert_eq!(r.iter().filter(|s| *s == "c").count(), 1);
        let others: Vec<_> = r.iter().filter(|s| *s != "c").cloned().collect();
        assert_eq!(others, strings(&["a", "b", "d", "e"]));
    }
}

#[test]
fn file_paths_of_new_items() {
    assert_eq!(
        planned_file_path(ItemType::Document, "My Doc", "abcd1234", "2026-01-02", None).as_deref(),
        Some("docs/my-doc-abcd1234.md")
    );
    assert_eq!(
        planned_file_path(ItemType::Document, "My Doc", "abcd1234", "2026-01-02", Some("docs/sub/p.md")).as_deref(),
        Some("docs/sub/my-doc-abcd1234.md")
    );
    assert_eq!(
        planned_file_path(ItemType::Document, "X", "abcd1234", "d", Some("p.md")).as_deref(),
        Some("x-abcd1234.md")
    );
    assert_eq!(
        planned_file_path(ItemType::Note, "Daily", "abcd1234", "2026-01-02", None).as_deref(),
        Some("notes/2026-01-02-daily-abcd1234.md")
    );
    assert_eq!(
        planned_file_path(ItemType::Project, "Big Plan", "abcd1234", "d", None).as_deref(),
        Some("projects/big-plan-abcd1234.md")
    );
    assert_eq!(planned_file_path(ItemType::Task, "T", "abcd1234", "d", None), None);
    assert_eq!(planned_file_path(ItemType::Folder, "F", "abcd1234", "d", None), None);
}

#[test]
fn short_id_is_first_eight() {
    assert_eq!(short_id("0f8fad5b-d9cb-469f-a165-70867728950e"), "0f8fad5b");
}

#[test]
fn update_merges_given_fields() {
    let base = item("a", Some("docs/a.md"));
    let later = Timestamp { secs: 2000000000, nanos: 3 };
    let req = UpdateItemRequest { id: "a".into(), title: Some("New".into()), status: Some(TaskStatus::Done), ..Default::default() };
    assert!(has_content_change(&req));
    let u = apply_update(base.duplicate(), req, later);
    assert_eq!(u.title, "New");
    assert_eq!(u.status, Some(TaskStatus::Done));
    assert_eq!(u.priority, Some(TaskPriority::High));
    assert_eq!(u.sort_order, 7);
    assert_eq!(u.content.as_deref(), Some("body"));
    assert_eq!(u.updated_at, later);
    assert_eq!(u.created_at, base.created_at);
    let none = UpdateItemRequest { id: "a".into(), sort_order: Some(3), ..Default::default() };
    assert!(!has_content_change(&none));
    let v = apply_update(base, none, later);
    assert_eq!(v.sort_order, 3);
    assert_eq!(v.title, "Title a");
}

#[test]
fn new_items_start_at_top_and_live() {
    let req = CreateItemRequest {
        title: "N".into(),
        item_type: ItemType::Note,
        parent_id: Some("p".into()),
        content: Some("c".into()),
        status: None,
        priority: None,
    };
    let i = new_item("id1".into(), req, Some("notes/x.md".into()), MAY_15_2015);
    assert_eq!(i.sort_order, 0);
    assert!(!i.deleted);
    assert_eq!(i.created_at, MAY_15_2015);
    assert_eq!(i.updated_at, MAY_15_2015);
    assert_eq!(i.file_path.as_deref(), Some("notes/x.md"));
    assert_eq!(i.parent_id.as_deref(), Some("p"));
}

#[test]
fn untracked_files_are_the_unknown_ones() {
    let tree = vec![item("a", Some("docs/a.md")), item("b", None)];
    let listing = strings(&["docs/a.md", "docs/new.md", "docs/other.md"]);
    assert_eq!(untracked_files(&tree, &listing), strings(&["docs/new.md", "docs/other.md"]));
}

#[test]
fn chrono_texts() {
    assert_eq!(day_text(MAY_15_2015).as_deref(), Some("2015-05-15"));
    assert_eq!(backup_stamp(Timestamp { secs: 1431648000 + 3723, nanos: 0 }).as_deref(), Some("20150515-010203"));
    assert_eq!(stored_time(MAY_15_2015).as_deref(), Some("2015-05-15T00:00:00+00:00"));
    assert_eq!(read_time("2015-05-15T02:00:00+02:00", Timestamp { secs: 0, nanos: 0 }), MAY_15_2015);
    let fb = Timestamp { secs: 9, nanos: 9 };
    assert_eq!(read_time("yesterday", fb), fb);
    assert_eq!(day_text(Timestamp { secs: i64::MAX, nanos: 0 }), None);
}

#[test]
fn rows_round_trip() {
    let i = item("a", None);
    let row = item_row(&i).unwrap();
    assert_eq!(row.item_type, "task");
    assert_eq!(row.status.as_deref(), Some("in_progress"));
    assert_eq!(row.priority.as_deref(), Some("high"));
    assert_eq!(row.deleted, 0);
    assert_eq!(row.content.as_deref(), Some("body"));
    let back = item_from_row(row, Timestamp { secs: 0, nanos: 0 });
    assert_eq!(back.id, i.id);
    assert_eq!(back.item_type, i.item_type);
    assert_eq!(back.status, i.status);
    assert_eq!(back.priority, i.priority);
    assert_eq!(back.created_at, i.created_at);
    assert_eq!(back.updated_at, i.updated_at);
    let filed = item("b", Some("docs/b.md"));
    assert_eq!(item_row(&filed).unwrap().content, None);
}

#[test]
fn rows_with_unknown_values_read_with_defaults() {
    let now = Timestamp { secs: 42, nanos: 0 };
    let row = ItemRow {
        id: "x".into(),
        title: "t".into(),
        item_type: "widget".into(),
        parent_id: None,
        sort_order: 1,
        content: None,
        status: Some("later".into()),
        priority: Some("low".into()),
        file_path: None,
        created_at: "not a time".into(),
        updated_at: "2015-05-15T00:00:00Z".into(),
        deleted: 2,
    };
    let i = item_from_row(row, now);
    assert_eq!(i.item_type, ItemType::Document);
    assert_eq!(i.status, None);
    assert_eq!(i.priority, Some(TaskPriority::Low));
    assert_eq!(i.created_at, now);
    assert_eq!(i.updated_at, MAY_15_2015);
    assert!(i.deleted);
    assert_eq!(item_type_or_document("note"), ItemType::Note);
}

#[test]
fn search_queries_are_quoted() {
    assert_eq!(fts_quote("hello world"), "\"hello world\"");
    assert_eq!(fts_quote("say \"hi\""), "\"say \"\"hi\"\"\"");
    assert_eq!(fts_quote(""), "\"\"");
    assert_eq!(fts_quote("a OR b*"), "\"a OR b*\"");
}

#[test]
fn file_manager_rejects_traversal() {
    let fm = FileManager::new("/ws/mote-data");
    assert_eq!(fm.workspace_path(), "/ws/mote-data");
    assert_eq!(fm.safe_resolve("docs/a.md"), Ok("/ws/mote-data/docs/a.md".to_string()));
    assert_eq!(fm.safe_resolve("../etc/passwd"), Err(PathError::Traversal));
    assert_eq!(fm.safe_resolve("docs/a..b.md"), Err(PathError::Traversal));
    assert_eq!(fm.safe_resolve("/"), Err(PathError::Escapes("/".to_string())));
    assert_eq!(fm.safe_resolve("/etc/passwd"), Err(PathError::Escapes("/etc/passwd".to_string())));
    assert_eq!(fm.safe_resolve("/ws/mote-data-other/x"), Err(PathError::Escapes("/ws/mote-data-other/x".to_string())));
    assert_eq!(fm.safe_resolve("/ws/mote-data/notes/n.md"), Ok("/ws/mote-data/notes/n.md".to_string()));
    assert_eq!(
        fm.check_contained("docs/a.md", "/ws/mote-data/docs/a.md".into(), "/real/ws/mote-data/docs/a.md", "/real/ws/mote-data"),
        Ok("/ws/mote-data/docs/a.md".to_string())
    );
    assert_eq!(
        fm.check_contained("docs/link.md", "/ws/mote-data/docs/link.md".into(), "/etc/shadow", "/real/ws/mote-data"),
        Err(PathError::Escapes("docs/link.md".to_string()))
    );
    let (d, n, p) = fm.content_dirs();
    assert_eq!(d, "/ws/mote-data/docs");
    assert_eq!(n, "/ws/mote-data/notes");
    assert_eq!(p, "/ws/mote-data/projects");
}

#[test]
fn backup_names_and_entries() {
    assert_eq!(backup_file_name(Some("ws"), MAY_15_2015).as_deref(), Some("mote-backup-ws-20150515-000000.zip"));
    assert_eq!(backup_file_name(None, MAY_15_2015).as_deref(), Some("mote-backup-workspace-20150515-000000.zip"));
    assert_eq!(backup_entry("docs", false, true), BackupEntry::Dir("docs/".into()));
    assert_eq!(backup_entry("docs/a.md", false, false), BackupEntry::File("docs/a.md".into()));
    assert_eq!(backup_entry("docs/link", true, false), BackupEntry::Skip);
    assert_eq!(backup_entry("target", false, true), BackupEntry::Skip);
    assert_eq!(backup_entry(".git", false, true), BackupEntry::Skip);
    assert_eq!(backup_entry(".gitignore", false, false), BackupEntry::Skip);
    assert_eq!(backup_entry("old.zip", false, false), BackupEntry::Skip);
}

#[test]
fn restore_limits_and_validation() {
    assert_eq!(check_entry_count(MAX_RESTORE_ENTRIES), Ok(()));
    assert_eq!(check_entry_count(MAX_RESTORE_ENTRIES + 1), Err(RestoreError::TooManyEntries(50_001)));
    assert_eq!(validate_entry_names("/ws", &strings(&["docs/", "docs/a.md", ".mote.db"])), Ok(()));
    assert_eq!(
        validate_entry_names("/ws", &strings(&["docs/a.md", "../x", "/etc/passwd"])),
        Err(RestoreError::Traversal("../x".into()))
    );
    assert_eq!(
        validate_entry_names("/ws", &strings(&["docs/a.md", "/etc/passwd"])),
        Err(RestoreError::Escapes("/etc/passwd".into()))
    );
    assert!(kept_when_clearing(".git"));
    assert!(!kept_when_clearing(".gitignore"));
    assert_eq!(add_extracted(1, 2), Ok(3));
    assert_eq!(add_extracted(MAX_RESTORE_BYTES - 1, 1), Ok(MAX_RESTORE_BYTES));
    assert_eq!(add_extracted(MAX_RESTORE_BYTES, 1), Err(RestoreError::TooLarge));
    assert_eq!(add_extracted(u64::MAX, u64::MAX), Err(RestoreError::TooLarge));
}

#[test]
fn import_skips_existing_ids() {
    let existing = vec![item("a", None), item("b", None)];
    let incoming = vec![item("b", None), item("c", None), item("a", None), item("d", None)];
    let r = items_to_import(&existing, incoming);
    let ids: Vec<_> = r.iter().map(|i| i.id.as_str()).collect();
    assert_eq!(ids, vec!["c", "d"]);
}

#[test]
fn siblings_are_renumbered_by_hundreds() {
    assert_eq!(sibling_sort_order(0), 0);
    assert_eq!(sibling_sort_order(1), 100);
    assert_eq!(sibling_sort_order(2), 200);
    assert_eq!(sibling_sort_order(21474836), 2147483600);
}

fn note_request(title: &str) -> CreateItemRequest {
    CreateItemRequest {
        title: title.into(),
        item_type: ItemType::Note,
        parent_id: None,
        content: Some(format!("# {title}\n\n")),
        status: None,
        priority: None,
    }
}

#[test]
fn created_note_is_filed_under_its_day() {
    let id = "0123abcd-0000-4000-8000-000000000000".to_string();
    let item = item_for(note_request("Daily Log"), id.clone(), MAY_15_2015, None).unwrap();
    assert_eq!(item.id, id);
    assert_eq!(item.title, "Daily Log");
    assert_eq!(item.file_path.as_deref(), Some("notes/2015-05-15-daily-log-0123abcd.md"));
    assert_eq!(item.content.as_deref(), Some("# Daily Log\n\n"));
    assert_eq!(item.sort_order, 0);
    assert_eq!(item.created_at, MAY_15_2015);
    assert_eq!(item.updated_at, MAY_15_2015);
    assert!(!item.deleted);
}

#[test]
fn created_document_goes_beside_its_parent() {
    let req = CreateItemRequest {
        title: "Child Page".into(),
        item_type: ItemType::Document,
        parent_id: Some("p".into()),
        content: None,
        status: None,
        priority: None,
    };
    let item = item_for(req, "feedbeef-rest".into(), MAY_15_2015, Some("docs/guides/parent.md")).unwrap();
    assert_eq!(item.file_path.as_deref(), Some("docs/guides/child-page-feedbeef.md"));
    assert_eq!(item.parent_id.as_deref(), Some("p"));
}

#[test]
fn created_task_has_no_file() {
    let req = CreateItemRequest {
        title: "T".into(),
        item_type: ItemType::Task,
        parent_id: None,
        content: None,
        status: Some(TaskStatus::Todo),
        priority: Some(TaskPriority::Unset),
    };
    let item = item_for(req, "12345678".into(), MAY_15_2015, None).unwrap();
    assert_eq!(item.file_path, None);
    assert_eq!(item.status, Some(TaskStatus::Todo));
}

#[test]
fn creation_fails_without_a_calendar_day() {
    let far = Timestamp { secs: i64::MAX, nanos: 0 };
    assert!(item_for(note_request("N"), "12345678".into(), far, None).is_none());
}

#[test]
fn prepared_items_get_fresh_uuid_ids() {
    let a = prepare_item(note_request("Idea"), None).unwrap();
    let b = prepare_item(note_request("Idea"), None).unwrap();
    assert_ne!(a.id, b.id);
    assert_eq!(a.id.len(), 36);
    for (i, c) in a.id.chars().enumerate() {
        if [8, 13, 18, 23].contains(&i) {
            assert_eq!(c, '-');
        } else {
            assert!(c.is_ascii_digit() || ('a'..='f').contains(&c));
        }
    }
    assert_eq!(a.id.as_bytes()[14], b'4');
    assert!(b"89ab".contains(&a.id.as_bytes()[19]));
    let day = day_text(a.created_at).unwrap();
    let expected = format!("notes/{day}-idea-{}.md", &a.id[..8]);
    assert_eq!(a.file_path.as_deref(), Some(expected.as_str()));
    assert_eq!(a.created_at, a.updated_at);
}

#[test]
fn ascii_titles_slug_plainly() {
    assert_eq!(slugify("Hello, World 2!"), "hello-world-2");
    assert_eq!(slugify("--A__b--"), "a-b");
    assert_eq!(slugify("***"), "");
}

#[test]
fn a_second_sync_imports_nothing() {
    let tree = vec![item("a", Some("docs/a.md"))];
    let listing = strings(&["docs/a.md", "docs/b.md", "notes/c.md"]);
    let first = untracked_files(&tree, &listing);
    assert_eq!(first, strings(&["docs/b.md", "notes/c.md"]));
    let mut after = tree.clone();
    for (i, p) in first.iter().enumerate() {
        after.push(item(&format!("new{i}"), Some(p)));
    }
    assert!(untracked_files(&after, &listing).is_empty());
}

#[test]
fn importing_into_an_empty_workspace_adds_everything() {
    let exported = vec![item("a", None), item("b", Some("docs/b.md")), item("c", None)];
    let added = items_to_import(&Vec::new(), exported.clone());
    let ids: Vec<&str> = added.iter().map(|i| i.id.as_str()).collect();
    assert_eq!(ids, vec!["a", "b", "c"]);
}

#[test]
fn what_a_backup_keeps_a_restore_accepts() {
    let mut names = Vec::new();
    for (n, dir) in [("docs", true), ("docs/a.md", false), ("notes/2026-01-01-x.md", false), (".mote.db", false)] {
        match backup_entry(n, false, dir) {
            BackupEntry::Dir(d) => names.push(d),
            BackupEntry::File(f) => names.push(f),
            BackupEntry::Skip => {}
        }
    }
    assert_eq!(names.len(), 4);
    assert_eq!(validate_entry_names("/other/ws", &names), Ok(()));
}

#[test]
fn a_created_item_reads_back_from_its_row() {
    let req = CreateItemRequest {
        title: "Plan".into(),
        item_type: ItemType::Project,
        parent_id: None,
        content: Some("# Plan".into()),
        status: None,
        priority: None,
    };
    let made = item_for(req, "abcdef12-x".into(), MAY_15_2015, None).unwrap();
    let row = item_row(&made).unwrap();
    let back = item_from_row(row, Timestamp { secs: 0, nanos: 0 });
    assert_eq!(back.id, made.id);
    assert_eq!(back.title, "Plan");
    assert_eq!(back.item_type, ItemType::Project);
    assert_eq!(back.file_path.as_deref(), Some("projects/plan-abcdef12.md"));
    assert_eq!(back.content, None);
    assert_eq!(back.sort_order, 0);
    assert_eq!(back.created_at, MAY_15_2015);
    assert!(!back.deleted);
}
