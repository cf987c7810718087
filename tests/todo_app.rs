use todomvc::entry::{parse_checkbox_value, KeyPress, TodoEntry};
use todomvc::state::TodoApp;
use todomvc::todos::{Filter, TodoCollection, TodoItem};

fn app_with(drafts: &[&str]) -> TodoApp {
    let mut app = TodoApp::new();
    for d in drafts {
        app.set_draft(d.to_string());
        app.submit_draft();
    }
    app
}

fn item(id: u32, checked: bool, contents: &str) -> TodoItem {
    TodoItem { id, checked, contents: contents.to_string() }
}

#[test]
fn submit_then_empty_submit() {
    let mut app = TodoApp::new();
    app.set_draft("Buy milk".to_string());
    app.submit_draft();
    assert_eq!(app.todos.len(), 1);
    assert_eq!(app.todos.get(0), Some(&item(0, false, "Buy milk")));
    assert_eq!(app.draft, "");
    assert_eq!(app.next_id, 1);

    app.set_draft(String::new());
    app.submit_draft();
    assert_eq!(app.todos.len(), 1);
    assert_eq!(app.next_id, 1);
    assert_eq!(app.todos.get(0), Some(&item(0, false, "Buy milk")));
}

#[test]
fn submits_get_consecutive_ids() {
    let app = app_with(&["a", "b", "c", "d"]);
    assert_eq!(app.todos.len(), 4);
    assert_eq!(app.next_id, 4);
    assert_eq!(app.todos.get(0), Some(&item(0, false, "a")));
    assert_eq!(app.todos.get(1), Some(&item(1, false, "b")));
    assert_eq!(app.todos.get(2), Some(&item(2, false, "c")));
    assert_eq!(app.todos.get(3), Some(&item(3, false, "d")));
    assert_eq!(app.visible_ids(), vec![0, 1, 2, 3]);
}

#[test]
fn ids_are_not_reused_after_clear() {
    let mut app = app_with(&["a", "b"]);
    app.todos.set_checked(1, true);
    app.clear_completed();
    app.set_draft("c".to_string());
    app.submit_draft();
    assert_eq!(app.todos.get(1), None);
    assert_eq!(app.todos.get(2), Some(&item(2, false, "c")));
    assert_eq!(app.visible_ids(), vec![0, 2]);
}

#[test]
fn whitespace_draft_is_accepted() {
    let app = app_with(&["   "]);
    assert_eq!(app.todos.get(0), Some(&item(0, false, "   ")));
}

#[test]
fn enter_key_submits_other_keys_do_not() {
    let mut app = TodoApp::new();
    app.set_draft("x".to_string());
    app.on_draft_keydown(KeyPress::Tab);
    assert_eq!(app.todos.len(), 0);
    assert_eq!(app.draft, "x");
    app.on_draft_keydown(KeyPress::Enter);
    assert_eq!(app.todos.get(0), Some(&item(0, false, "x")));
    assert_eq!(app.draft, "");
    app.on_draft_keydown(KeyPress::Enter);
    assert_eq!(app.todos.len(), 1);
    assert_eq!(app.next_id, 1);
}

#[test]
fn items_left_ignores_filter() {
    let mut app = app_with(&["A", "B"]);
    app.todos.set_checked(1, true);
    app.set_filter(Filter::Completed);
    assert_eq!(app.visible_ids(), vec![1]);
    assert_eq!(app.items_left(), 1);
    assert_eq!(app.items_label(), "item");
}

#[test]
fn items_label_plural() {
    let mut app = TodoApp::new();
    assert_eq!(app.items_left(), 0);
    assert_eq!(app.items_label(), "items");
    app = app_with(&["a", "b"]);
    assert_eq!(app.items_left(), 2);
    assert_eq!(app.items_label(), "items");
}

#[test]
fn visible_ids_per_filter() {
    let mut app = app_with(&["a", "b", "c", "d", "e"]);
    app.todos.set_checked(0, true);
    app.todos.set_checked(3, true);
    assert_eq!(app.visible_ids(), vec![0, 1, 2, 3, 4]);
    app.set_filter(Filter::Active);
    assert_eq!(app.visible_ids(), vec![1, 2, 4]);
    app.set_filter(Filter::Completed);
    assert_eq!(app.visible_ids(), vec![0, 3]);
}

#[test]
fn visible_ids_sorted_for_many_items() {
    let mut app = TodoApp::new();
    for i in 0..200u32 {
        app.set_draft(format!("t{}", i));
        app.submit_draft();
    }
    let ids = app.visible_ids();
    let expected: Vec<u32> = (0..200).collect();
    assert_eq!(ids, expected);
}

#[test]
fn visible_ids_of_empty_collection() {
    let app = TodoApp::new();
    assert_eq!(app.visible_ids(), Vec::<u32>::new());
    assert!(!app.show_footer());
    assert!(!app.show_clear_completed());
}

#[test]
fn clear_completed_scenario() {
    let mut app = app_with(&["keep", "done"]);
    app.todos.set_checked(1, true);
    assert!(app.show_clear_completed());
    app.clear_completed();
    assert_eq!(app.todos.get(1), None);
    assert_eq!(app.todos.get(0), Some(&item(0, false, "keep")));
    assert!(!app.show_clear_completed());
    assert!(app.show_footer());
}

#[test]
fn clear_completed_twice_is_once() {
    let mut app = app_with(&["a", "b", "c"]);
    app.todos.set_checked(0, true);
    app.todos.set_checked(2, true);
    app.clear_completed();
    let once = app.visible_ids();
    app.clear_completed();
    assert_eq!(app.visible_ids(), once);
    assert_eq!(once, vec![1]);
    assert_eq!(app.todos.get(1), Some(&item(1, false, "b")));
}

#[test]
fn clear_completed_with_nothing_done() {
    let mut app = app_with(&["a", "b"]);
    app.clear_completed();
    assert_eq!(app.todos.len(), 2);
    assert_eq!(app.visible_ids(), vec![0, 1]);
}

#[test]
fn toggle_does_not_change_editing() {
    let mut app = app_with(&["a"]);
    let mut entry = TodoEntry::new(0);
    entry.begin_edit(&app.todos);
    assert!(entry.editing);
    entry.toggle_checked(&mut app.todos, true);
    assert!(entry.editing);
    assert_eq!(app.todos.get(0), Some(&item(0, true, "a")));
    entry.toggle_checked(&mut app.todos, false);
    assert!(entry.editing);
    assert_eq!(app.todos.get(0), Some(&item(0, false, "a")));
}

#[test]
fn escape_keeps_edited_text() {
    let mut app = app_with(&["old"]);
    let mut entry = TodoEntry::new(0);
    entry.begin_edit(&app.todos);
    entry.edit_contents(&mut app.todos, "new text".to_string());
    assert_eq!(app.todos.get(0), Some(&item(0, false, "new text")));
    entry.on_edit_keydown(KeyPress::Escape);
    assert!(!entry.editing);
    assert_eq!(app.todos.get(0), Some(&item(0, false, "new text")));
}

#[test]
fn edit_keys_end_editing() {
    let app = app_with(&["a"]);
    for key in [KeyPress::Enter, KeyPress::Tab, KeyPress::Escape] {
        let mut entry = TodoEntry::new(0);
        entry.begin_edit(&app.todos);
        entry.on_edit_keydown(KeyPress::Other);
        assert!(entry.editing);
        entry.on_edit_keydown(key);
        assert!(!entry.editing);
    }
}

#[test]
fn focus_out_ends_editing() {
    let app = app_with(&["a"]);
    let mut entry = TodoEntry::new(0);
    entry.begin_edit(&app.todos);
    entry.on_focus_out();
    assert!(!entry.editing);
}

#[test]
fn checked_item_cannot_enter_edit() {
    let mut app = app_with(&["a"]);
    app.todos.set_checked(0, true);
    let mut entry = TodoEntry::new(0);
    entry.begin_edit(&app.todos);
    assert!(!entry.editing);
}

#[test]
fn missing_id_is_a_no_op() {
    let mut todos = TodoCollection::new();
    todos.insert(item(3, false, "x"));
    todos.set_checked(7, true);
    todos.set_contents(7, "y".to_string());
    assert_eq!(todos.len(), 1);
    assert_eq!(todos.get(7), None);
    let mut entry = TodoEntry::new(7);
    entry.begin_edit(&todos);
    assert!(!entry.editing);
    entry.edit_contents(&mut todos, "z".to_string());
    assert_eq!(todos.get(3), Some(&item(3, false, "x")));
}

#[test]
fn collection_insert_replaces_and_lists_ids() {
    let mut todos = TodoCollection::new();
    assert!(todos.is_empty());
    todos.insert(item(5, false, "a"));
    todos.insert(item(2, true, "b"));
    todos.insert(item(5, true, "c"));
    assert_eq!(todos.len(), 2);
    assert!(!todos.is_empty());
    assert_eq!(todos.get(5), Some(&item(5, true, "c")));
    let mut ids = todos.ids();
    ids.sort();
    assert_eq!(ids, vec![2, 5]);
    assert_eq!(todos.items_left(), 0);
    assert_eq!(todos.visible_ids(Filter::All), vec![2, 5]);
}

#[test]
fn checkbox_values_parse() {
    assert_eq!(parse_checkbox_value("true"), Some(true));
    assert_eq!(parse_checkbox_value("false"), Some(false));
    assert_eq!(parse_checkbox_value("on"), None);
    assert_eq!(parse_checkbox_value("True"), None);
    assert_eq!(parse_checkbox_value(""), None);
}
