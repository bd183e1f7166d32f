use mote::models::{Item, ItemType, TaskFilter, TaskPriority, TaskStatus, Timestamp};
use mote::ui::app::children_of;
use mote::storage::ReorderPos;
use mote::ui::browser::{navigate, normalize_url, open_tab, push_history, url_to_title, BrowserTab};
use mote::ui::editor::{
    apply_slash, apply_toolbar, line_count, opens_slash_menu, palette_on_input, palette_on_key,
    queue_on_switch, save_on_switch, slash_menu, slash_selection, take_pending, word_count,
    EditorMode, PaletteKey, SlashCommand, ToolbarAction,
};
use mote::ui::file_explorer::{
    close_tab, escape_tab_id, escape_template, file_icon, is_active_entry, is_text_file,
    language_for, mount_script, sort_dir_entries, switch_script, tab_position, untitled_name,
    DirEntry, FileTab,
};
use mote::ui::markdown::render_markdown;
use mote::ui::settings::{backup_output_dir, workspace_stats};
use mote::ui::sidebar::{
    can_accept_children, drop_zones, is_dragged, new_item_request, node_icon, section_items, Section,
};
use mote::ui::task_view::{
    drop_sort_order, priority_after_click, shows_progress, shows_progress_bar, status_after_click, status_badge, subtask_request,
    task_children, task_counts, toggled_done, visible_tasks,
};

fn it(id: &str, t: ItemType, parent: Option<&str>, order: i32, created: i64, status: Option<TaskStatus>, deleted: bool) -> Item {
    Item {
        id: id.into(),
        title: id.into(),
        item_type: t,
        parent_id: parent.map(|p| p.into()),
        sort_order: order,
        content: None,
        status,
        priority: None,
        file_path: None,
        created_at: Timestamp { secs: created, nanos: 0 },
        updated_at: Timestamp { secs: created, nanos: 0 },
        deleted,
    }
}

fn ids(v: &[Item]) -> Vec<&str> {
    v.iter().map(|i| i.id.as_str()).collect()
}

fn tree() -> Vec<Item> {
    vec![
        it("p", ItemType::Project, None, 0, 1, None, false),
        it("t3", ItemType::Task, Some("p"), 20, 5, Some(TaskStatus::Done), false),
        it("t1", ItemType::Task, Some("p"), 10, 9, Some(TaskStatus::Todo), false),
        it("t2", ItemType::Task, Some("p"), 10, 3, Some(TaskStatus::InProgress), false),
        it("gone", ItemType::Task, Some("p"), 0, 1, Some(TaskStatus::Done), true),
        it("d", ItemType::Document, None, 0, 2, None, false),
        it("n", ItemType::Note, None, 0, 0, None, false),
        it("f", ItemType::Folder, None, 0, 0, None, false),
        it("t4", ItemType::Task, Some("p"), 10, 3, Some(TaskStatus::Done), false),
    ]
}

#[test]
fn children_sorted_by_order_then_creation_stably() {
    let t = tree();
    assert_eq!(ids(&children_of(&t, Some("p"))), vec!["t2", "t4", "t1", "t3"]);
    assert_eq!(ids(&children_of(&t, None)), vec!["n", "f", "p", "d"]);
    assert!(children_of(&t, Some("nobody")).is_empty());
}

#[test]
fn task_lists_and_counts() {
    let t = tree();
    let kids = task_children(&t, "p");
    assert_eq!(ids(&kids), vec!["t3", "t1", "t2", "t4"]);
    assert_eq!(ids(&visible_tasks(&kids, TaskFilter::Done)), vec!["t3", "t4"]);
    assert_eq!(ids(&visible_tasks(&kids, TaskFilter::All)).len(), 4);
    let c = task_counts(&kids);
    assert_eq!((c.total, c.done, c.in_progress, c.todo), (4, 2, 1, 1));
}

#[test]
fn workspace_statistics() {
    let s = workspace_stats(&tree());
    assert_eq!((s.total, s.docs, s.tasks, s.notes, s.projects, s.done), (8, 1, 4, 1, 1, 2));
}

#[test]
fn task_buttons() {
    assert_eq!(status_after_click(None), TaskStatus::Todo);
    assert_eq!(status_after_click(Some(TaskStatus::Done)), TaskStatus::Cancelled);
    assert_eq!(priority_after_click(None), TaskPriority::Unset);
    assert_eq!(priority_after_click(Some(TaskPriority::Urgent)), TaskPriority::Unset);
    assert_eq!(toggled_done(Some(TaskStatus::Done)), TaskStatus::Todo);
    assert_eq!(toggled_done(Some(TaskStatus::Cancelled)), TaskStatus::Done);
    assert_eq!(toggled_done(None), TaskStatus::Done);
    assert_eq!(status_badge(None), "○ Todo");
    assert_eq!(status_badge(Some(TaskStatus::InProgress)), "◐ In Progress");
    assert_eq!(drop_sort_order(3), 30);
}

#[test]
fn subtasks_from_input() {
    assert!(subtask_request("   ", "p").is_none());
    let r = subtask_request("  Buy milk \n", "p").unwrap();
    assert_eq!(r.title, "Buy milk");
    assert_eq!(r.item_type, ItemType::Task);
    assert_eq!(r.parent_id.as_deref(), Some("p"));
    assert_eq!(r.status, Some(TaskStatus::Todo));
    assert_eq!(r.priority, Some(TaskPriority::Unset));
}

#[test]
fn sidebar_sections_and_new_items() {
    let t = tree();
    let roots = children_of(&t, None);
    assert_eq!(ids(&section_items(&roots, Section::Docs)), vec!["f", "d"]);
    assert_eq!(ids(&section_items(&roots, Section::Tasks)), vec!["p"]);
    assert_eq!(ids(&section_items(&roots, Section::Notes)), vec!["n"]);
    assert!(section_items(&roots, Section::Settings).is_empty());
    assert!(can_accept_children(&ItemType::Project));
    assert!(can_accept_children(&ItemType::Folder));
    assert!(!can_accept_children(&ItemType::Task));
    assert_eq!(node_icon(ItemType::Folder, None), "F");
    assert_eq!(node_icon(ItemType::Task, Some(TaskStatus::Done)), "●");
    assert_eq!(node_icon(ItemType::Task, None), "○");
    let d = new_item_request(ItemType::Document, "2026-03-18");
    assert_eq!(d.title, "Untitled");
    assert_eq!(d.content.as_deref(), Some("# Untitled\n\n"));
    let n = new_item_request(ItemType::Note, "2026-03-18");
    assert_eq!(n.title, "2026-03-18 Note");
    assert_eq!(n.content.as_deref(), Some("# 2026-03-18 Note\n\n"));
    let t = new_item_request(ItemType::Task, "x");
    assert_eq!(t.title, "New Task");
    assert_eq!(t.status, Some(TaskStatus::Todo));
    assert_eq!(new_item_request(ItemType::Folder, "x").title, "New Folder");
    assert_eq!(new_item_request(ItemType::Project, "x").title, "New Project");
}

#[test]
fn backup_directory_choice() {
    assert_eq!(backup_output_dir("", "/home/u/ws"), "/home/u");
    assert_eq!(backup_output_dir("/tmp/b", "/home/u/ws"), "/tmp/b");
    assert_eq!(backup_output_dir("", "/"), "/");
}

#[test]
fn urls_are_normalized() {
    assert_eq!(normalize_url("  example.com "), "https://example.com");
    assert_eq!(normalize_url("rust lang book"), "https://duckduckgo.com/?q=rust+lang+book");
    assert_eq!(normalize_url(""), "https://duckduckgo.com");
    assert_eq!(normalize_url("http://x.org/a b"), "http://x.org/a b");
    assert_eq!(normalize_url("localhost"), "https://duckduckgo.com/?q=localhost");
    assert_eq!(normalize_url("a.b c"), "https://duckduckgo.com/?q=a.b+c");
}

#[test]
fn window_titles() {
    assert_eq!(url_to_title("https://example.com/path/x"), "example.com");
    assert_eq!(url_to_title("https://host"), "host");
    assert_eq!(url_to_title("no-scheme"), "Browser");
    assert_eq!(url_to_title("a:///x"), "");
}

#[test]
fn history_is_most_recent_first() {
    let h: Vec<String> = (0..25).map(|i| format!("u{i}")).collect();
    let r = push_history(h, "u3".to_string());
    assert_eq!(r.len(), 20);
    assert_eq!(r[0], "u3");
    assert_eq!(r.iter().filter(|u| *u == "u3").count(), 1);
    assert_eq!(r[1], "u0");
    assert_eq!(push_history(vec![], "a".into()), vec!["a".to_string()]);
}

#[test]
fn editor_counts_and_toolbar() {
    assert_eq!(word_count("hello  world\nfoo"), 3);
    assert_eq!(word_count("   "), 0);
    assert_eq!(line_count(""), 0);
    assert_eq!(line_count("a\nb\n"), 2);
    assert_eq!(line_count("a\n\nb"), 3);
    assert_eq!(line_count("\n"), 1);
    assert_eq!(apply_toolbar("abc", ToolbarAction::Heading1), "abc\n# ");
    assert_eq!(apply_toolbar("", ToolbarAction::Heading2), "## ");
    assert_eq!(apply_toolbar("x\n", ToolbarAction::Heading3), "x\n### ");
    assert_eq!(apply_toolbar("x", ToolbarAction::Bold), "x**bold**");
    assert_eq!(apply_toolbar("x", ToolbarAction::Link), "x[text](url)");
    assert!(save_on_switch("id", "new", "old"));
    assert!(!save_on_switch("", "new", "old"));
    assert!(!save_on_switch("id", "same", "same"));
}

#[test]
fn markdown_preview_is_rendered_and_sanitized() {
    assert_eq!(render_markdown("**hi**"), "<p><strong>hi</strong></p>\n");
    let t = render_markdown("| a |\n|---|\n| b |\n");
    assert!(t.contains("<table>"));
    assert!(render_markdown("~~x~~").contains("<del>x</del>"));
    let x = render_markdown("hi <script>alert(1)</script>");
    assert!(!x.contains("<script"));
}

#[test]
fn template_escaping() {
    assert_eq!(escape_template("a`b\\c${d}$x"), "a\\`b\\\\c\\${d}$x");
    assert_eq!(escape_tab_id("p`q\\${r}"), "p\\`q\\\\${r}");
    let content = "x`y";
    let original = content.replace('\\', "\\\\").replace('`', "\\`").replace("${", "\\${");
    assert_eq!(escape_template(content), original);
    assert_eq!(
        mount_script("c", "rust", "/a/b.rs"),
        "setTimeout(function(){window.__moteMonacoMount(`c`,'rust',`/a/b.rs`);},100);"
    );
    assert_eq!(
        switch_script("c", "md", "t"),
        "setTimeout(function(){window.__moteMonacoSetContent(`c`,'md',`t`);},0);"
    );
}

#[test]
fn text_files_and_languages() {
    assert!(is_text_file("a/B.MD", Some(10)));
    assert!(!is_text_file("x.bin", None));
    assert!(is_text_file("dir/Makefile", None));
    assert!(is_text_file(".gitignore", None));
    assert!(!is_text_file("big.txt", Some(20_000_000)));
    assert!(is_text_file("ten.txt", Some(10 * 1024 * 1024)));
    assert_eq!(language_for("src/main.rs"), "rust");
    assert_eq!(language_for("a.yml"), "yaml");
    assert_eq!(language_for("X.RS"), "plaintext");
    assert_eq!(language_for("Makefile"), "plaintext");
    assert_eq!(file_icon(true), ("\u{25B8}", "rgba(255,255,255,0.3)"));
    assert_eq!(file_icon(false).0, "\u{2012}");
}

#[test]
fn untitled_names() {
    assert_eq!(untitled_name(0), "untitled.md");
    assert_eq!(untitled_name(1), "untitled-1.md");
    assert_eq!(untitled_name(120), "untitled-120.md");
}

fn tab(p: &str) -> FileTab {
    FileTab { path: p.into(), content: String::new(), dirty: false }
}

#[test]
fn closing_tabs_keeps_active_valid() {
    let mut tabs = vec![tab("a"), tab("b"), tab("c")];
    let mut active = Some(2);
    close_tab(&mut tabs, &mut active, 0);
    assert_eq!(tabs.len(), 2);
    assert_eq!(active, Some(1));
    assert_eq!(tabs[1].path, "c");
    close_tab(&mut tabs, &mut active, 1);
    assert_eq!(active, Some(0));
    close_tab(&mut tabs, &mut active, 5);
    assert_eq!(tabs.len(), 1);
    close_tab(&mut tabs, &mut active, 0);
    assert!(tabs.is_empty());
    assert_eq!(active, None);
    let mut t2 = vec![tab("a"), tab("b")];
    let mut none = None;
    close_tab(&mut t2, &mut none, 1);
    assert_eq!(none, None);
}

#[test]
fn tabs_lookup() {
    let tabs = vec![tab("a"), tab("b"), tab("a")];
    assert_eq!(tab_position(&tabs, "a"), Some(0));
    assert_eq!(tab_position(&tabs, "z"), None);
    assert!(is_active_entry(&tabs, Some(1), "b"));
    assert!(!is_active_entry(&tabs, Some(0), "b"));
    assert!(!is_active_entry(&tabs, Some(9), "b"));
    assert!(!is_active_entry(&tabs, None, "a"));
}

#[test]
fn directory_listing_order() {
    let e = |n: &str, d: bool| DirEntry { name: n.into(), path: format!("/r/{n}"), is_dir: d };
    let v = vec![e("b.md", false), e("Zeta", true), e("A.md", false), e("alpha", true), e("a.md", false)];
    let r = sort_dir_entries(&v);
    let names: Vec<_> = r.iter().map(|x| x.name.as_str()).collect();
    assert_eq!(names, vec!["alpha", "Zeta", "A.md", "a.md", "b.md"]);
}

#[test]
fn progress_shows_for_projects_and_tasks_with_subtasks() {
    assert!(shows_progress(ItemType::Project, false));
    assert!(shows_progress(ItemType::Project, true));
    assert!(shows_progress(ItemType::Task, true));
    assert!(!shows_progress(ItemType::Task, false));
    assert!(!shows_progress(ItemType::Document, true));
    let t = tree();
    let counts = task_counts(&task_children(&t, "p"));
    assert_eq!(shows_progress_bar(counts), counts.total > 0);
    let none = task_counts(&Vec::new());
    assert!(!shows_progress_bar(none));
}

#[test]
fn drop_zones_during_a_drag() {
    assert_eq!(drop_zones(ItemType::Project, Some("x"), "p"), vec![ReorderPos::Before, ReorderPos::Into, ReorderPos::After]);
    assert_eq!(drop_zones(ItemType::Folder, Some("x"), "f"), vec![ReorderPos::Before, ReorderPos::Into, ReorderPos::After]);
    assert_eq!(drop_zones(ItemType::Task, Some("x"), "t"), vec![ReorderPos::Before, ReorderPos::After]);
    assert_eq!(drop_zones(ItemType::Project, Some("p"), "p"), vec![]);
    assert_eq!(drop_zones(ItemType::Document, None, "d"), vec![]);
    assert!(is_dragged(Some("d"), "d"));
    assert!(!is_dragged(Some("e"), "d"));
    assert!(!is_dragged(None, "d"));
}

#[test]
fn browser_tabs_open_navigate_close() {
    let mut tabs: Vec<BrowserTab> = Vec::new();
    let mut active = None;
    assert!(!navigate(&mut tabs, &mut active, "   "));
    assert!(tabs.is_empty());
    assert_eq!(active, None);
    assert!(navigate(&mut tabs, &mut active, "example.com/page"));
    assert_eq!(tabs.len(), 1);
    assert_eq!(tabs[0].url, "https://example.com/page");
    assert_eq!(tabs[0].title, "example.com");
    assert_eq!(active, Some(0));
    open_tab(&mut tabs, &mut active);
    assert_eq!(tabs.len(), 2);
    assert_eq!(tabs[1].url, "https://duckduckgo.com");
    assert_eq!(tabs[1].title, "duckduckgo.com");
    assert_eq!(active, Some(1));
    navigate(&mut tabs, &mut active, "rust verus");
    assert_eq!(tabs[1].url, "https://duckduckgo.com/?q=rust+verus");
    assert_eq!(tabs[0].url, "https://example.com/page");
    assert_eq!(active, Some(1));
    close_tab(&mut tabs, &mut active, 1);
    assert_eq!(tabs.len(), 1);
    assert_eq!(active, Some(0));
    close_tab(&mut tabs, &mut active, 0);
    assert!(tabs.is_empty());
    assert_eq!(active, None);
}

#[test]
fn normalizing_twice_changes_nothing() {
    for s in ["", "  example.org ", "http://a.b/c", "hello world", "x.y z", "https://q"] {
        let r = normalize_url(s);
        assert!(r.starts_with("http://") || r.starts_with("https://"));
        assert_eq!(normalize_url(&r), r);
    }
}

#[test]
fn toolbar_block_buttons_start_a_line() {
    assert_eq!(apply_toolbar("x", ToolbarAction::Strikethrough), "x~~text~~");
    assert_eq!(apply_toolbar("x", ToolbarAction::List), "x\n- ");
    assert_eq!(apply_toolbar("x\n", ToolbarAction::TaskList), "x\n- [ ] ");
    assert_eq!(apply_toolbar("", ToolbarAction::CodeBlock), "```\ncode\n```\n");
    assert_eq!(apply_toolbar("a", ToolbarAction::Table), "a\n| Column | Column |\n| --- | --- |\n| Cell | Cell |\n");
    assert_eq!(apply_toolbar("a", ToolbarAction::Quote), "a\n> ");
    assert_eq!(apply_toolbar("a", ToolbarAction::Divider), "a\n---\n");
}

#[test]
fn slash_palette_lists_and_filters_fifteen_blocks() {
    let all = slash_menu("");
    assert_eq!(all.len(), 15);
    assert_eq!(all[0], SlashCommand::Heading1);
    assert_eq!(all[14], SlashCommand::Strikethrough);
    assert_eq!(slash_menu("HEAD"), vec![SlashCommand::Heading1, SlashCommand::Heading2, SlashCommand::Heading3]);
    assert_eq!(slash_menu("list"), vec![SlashCommand::BulletList, SlashCommand::NumberedList, SlashCommand::TaskList]);
    assert!(slash_menu("zzz").is_empty());
    assert_eq!(SlashCommand::CodeBlock.name(), "code block");
}

#[test]
fn slash_palette_opens_and_inserts() {
    assert!(opens_slash_menu("/"));
    assert!(opens_slash_menu("text\n/"));
    assert!(opens_slash_menu("word /"));
    assert!(!opens_slash_menu("a/"));
    assert!(!opens_slash_menu(""));
    assert_eq!(apply_slash("intro\n/quo", "quo", SlashCommand::Quote), "intro\n> ");
    assert_eq!(apply_slash("text /ta", "ta", SlashCommand::Table), "text \n| Column | Column |\n| --- | --- |\n| Cell | Cell |\n");
    assert_eq!(apply_slash("see /", "", SlashCommand::Image), "see ![alt](url)");
    assert_eq!(apply_slash("/num", "num", SlashCommand::NumberedList), "1. ");
    assert_eq!(slash_selection(0, 3, true), 1);
    assert_eq!(slash_selection(2, 3, true), 0);
    assert_eq!(slash_selection(0, 3, false), 2);
    assert_eq!(slash_selection(2, 3, false), 1);
}

#[test]
fn editor_modes() {
    assert!(EditorMode::Edit.shows_source() && !EditorMode::Edit.shows_preview());
    assert!(EditorMode::Split.shows_source() && EditorMode::Split.shows_preview());
    assert!(!EditorMode::Preview.shows_source() && EditorMode::Preview.shows_preview());
}

#[test]
fn palette_state_steps() {
    assert_eq!(palette_on_input(None, "text"), None);
    assert_eq!(palette_on_input(None, "ab\n/"), Some((3, 0)));
    assert_eq!(palette_on_input(Some((3, 1)), "ab\n/ta"), Some((3, 1)));
    assert_eq!(palette_on_input(Some((3, 1)), "ab\n"), None);
    assert_eq!(palette_on_key(Some((3, 0)), PaletteKey::Down, 3), (Some((3, 1)), None));
    assert_eq!(palette_on_key(Some((3, 0)), PaletteKey::Up, 3), (Some((3, 2)), None));
    assert_eq!(palette_on_key(Some((3, 7)), PaletteKey::Down, 3), (Some((3, 0)), None));
    assert_eq!(palette_on_key(Some((3, 2)), PaletteKey::Up, 0), (Some((3, 2)), None));
    assert_eq!(palette_on_key(Some((3, 1)), PaletteKey::Enter, 3), (None, Some(1)));
    assert_eq!(palette_on_key(Some((3, 4)), PaletteKey::Enter, 3), (None, None));
    assert_eq!(palette_on_key(Some((3, 1)), PaletteKey::Escape, 3), (None, None));
    assert_eq!(palette_on_key(None, PaletteKey::Enter, 3), (None, None));
}

#[test]
fn switching_items_saves_an_edit_once() {
    let mut slot: Option<(String, String)> = None;
    queue_on_switch(&mut slot, "doc1", "edited", "saved");
    assert_eq!(slot, Some(("doc1".to_string(), "edited".to_string())));
    assert_eq!(take_pending(&mut slot), Some(("doc1".to_string(), "edited".to_string())));
    assert_eq!(take_pending(&mut slot), None);
    queue_on_switch(&mut slot, "doc1", "same", "same");
    assert_eq!(slot, None);
    queue_on_switch(&mut slot, "", "edited", "saved");
    assert_eq!(slot, None);
}
