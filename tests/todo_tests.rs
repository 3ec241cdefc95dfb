use todo::command::{parse_command, parse_position, AddCommand, Command, ListCommand, RemoveCommand, Reply};
use todo::document::{tasks_from_entries, StoreError};
use todo::store::Todo;

fn with_tasks(items: &[&str]) -> Todo {
    let mut t = Todo::new();
    for s in items {
        t.add_task(s.to_string());
    }
    t
}

fn round_trip(items: &[&str]) {
    let t = with_tasks(items);
    let text = t.save_tasks();
    let back = Todo::load_tasks(&text).ok().expect("reads back");
    assert_eq!(back.tasks, t.tasks);
}

#[test]
fn empty_list_shows_no_tasks() {
    let t = Todo::new();
    assert_eq!(t.display_tasks(), "No tasks.\n");
    assert_eq!(ListCommand::execute(&t), "No tasks.\n");
}

#[test]
fn add_then_list_shows_one_entry() {
    let mut t = Todo::new();
    t.add_task("X".to_string());
    assert_eq!(t.len(), 1);
    assert_eq!(t.display_tasks(), "Tasks:\n1. X\n");
}

#[test]
fn listing_numbers_past_nine() {
    let items: Vec<String> = (1..=11).map(|i| format!("t{}", i)).collect();
    let refs: Vec<&str> = items.iter().map(|s| s.as_str()).collect();
    let t = with_tasks(&refs);
    let shown = t.display_tasks();
    assert!(shown.starts_with("Tasks:\n1. t1\n"));
    assert!(shown.ends_with("10. t10\n11. t11\n"));
}

#[test]
fn round_trip_keeps_order_and_content() {
    round_trip(&[]);
    round_trip(&["Buy milk", "Walk the dog"]);
    round_trip(&["dup", "dup", "b"]);
    round_trip(&["", "- not a list", "key: value", "123", "true", "null", "multi\nline", "  padded  ", "ünïcödé"]);
}

#[test]
fn saved_document_has_tasks_key() {
    let t = with_tasks(&["Buy milk", "Walk the dog"]);
    let text = t.save_tasks();
    assert_eq!(text, "tasks:\n- Buy milk\n- Walk the dog\n");
}

#[test]
fn load_reads_example_document() {
    let t = Todo::load_tasks("tasks:\n- Buy milk\n- Walk the dog\n").ok().expect("reads");
    assert_eq!(t.tasks, vec!["Buy milk".to_string(), "Walk the dog".to_string()]);
}

#[test]
fn load_rejects_wrong_shapes() {
    assert!(matches!(Todo::load_tasks("tasks: [a"), Err(StoreError::Format)));
    assert!(matches!(Todo::load_tasks("tasks: 5"), Err(StoreError::Format)));
    assert!(matches!(Todo::load_tasks("other: [a]"), Err(StoreError::Format)));
    assert!(matches!(Todo::load_tasks("tasks: [a]\nextra: [b]\n"), Err(StoreError::Format)));
    assert!(matches!(Todo::load_tasks("- a\n- b\n"), Err(StoreError::Format)));
}

#[test]
fn entries_need_single_tasks_key() {
    let ok = tasks_from_entries(vec![("tasks".to_string(), vec!["a".to_string()])]);
    assert_eq!(ok.ok().expect("accepted").tasks, vec!["a".to_string()]);
    let wrong_key = tasks_from_entries(vec![("task".to_string(), vec!["a".to_string()])]);
    assert!(matches!(wrong_key, Err(StoreError::Format)));
    let two = tasks_from_entries(vec![
        ("tasks".to_string(), vec![]),
        ("zzz".to_string(), vec![]),
    ]);
    assert!(matches!(two, Err(StoreError::Format)));
    assert!(matches!(tasks_from_entries(vec![]), Err(StoreError::Format)));
}

#[test]
fn load_fallback_on_invalid_text() {
    let (t, warn) = Todo::load_or_empty(Some("tasks: [unclosed"));
    assert!(t.tasks.is_empty());
    assert!(warn);
    let (t, warn) = Todo::load_or_empty(None);
    assert!(t.tasks.is_empty());
    assert!(!warn);
    let (t, warn) = Todo::load_or_empty(Some("tasks:\n- a\n"));
    assert_eq!(t.tasks, vec!["a".to_string()]);
    assert!(!warn);
}

#[test]
fn remove_in_range_shifts_down() {
    let mut t = with_tasks(&["a", "b", "c"]);
    assert!(t.remove_task(0));
    assert_eq!(t.tasks, vec!["b".to_string(), "c".to_string()]);
    assert!(!t.remove_task(2));
    assert_eq!(t.tasks, vec!["b".to_string(), "c".to_string()]);
}

#[test]
fn remove_command_positions() {
    let mut t = with_tasks(&["a", "b"]);
    assert!(matches!(RemoveCommand::execute(&mut t, Some("0".to_string())), Reply::InvalidIndex));
    assert!(matches!(RemoveCommand::execute(&mut t, Some("3".to_string())), Reply::InvalidIndex));
    assert!(matches!(RemoveCommand::execute(&mut t, Some("x".to_string())), Reply::InvalidIndex));
    assert!(matches!(RemoveCommand::execute(&mut t, Some("-1".to_string())), Reply::InvalidIndex));
    assert!(matches!(RemoveCommand::execute(&mut t, None), Reply::RemoveUsage));
    assert_eq!(t.tasks, vec!["a".to_string(), "b".to_string()]);
    assert!(matches!(RemoveCommand::execute(&mut t, Some("+2".to_string())), Reply::TaskRemoved));
    assert_eq!(t.tasks, vec!["a".to_string()]);
}

#[test]
fn add_command_needs_text() {
    let mut t = Todo::new();
    assert!(matches!(AddCommand::execute(&mut t, None), Reply::AddUsage));
    assert!(t.tasks.is_empty());
    assert!(matches!(AddCommand::execute(&mut t, Some("x y".to_string())), Reply::TaskAdded));
    assert_eq!(t.tasks, vec!["x y".to_string()]);
}

#[test]
fn position_parsing() {
    assert_eq!(parse_position("1"), Some(1));
    assert_eq!(parse_position("+7"), Some(7));
    assert_eq!(parse_position("007"), Some(7));
    assert_eq!(parse_position("18446744073709551615"), Some(usize::MAX));
    assert_eq!(parse_position("18446744073709551616"), None);
    assert_eq!(parse_position("99999999999999999999x"), None);
    assert_eq!(parse_position(""), None);
    assert_eq!(parse_position("+"), None);
    assert_eq!(parse_position("-1"), None);
    assert_eq!(parse_position(" 1"), None);
    assert_eq!(parse_position("1a"), None);
}

#[test]
fn command_line_splitting() {
    match parse_command("  add buy milk and eggs \n") {
        Command::Add(Some(s)) => assert_eq!(s, "buy milk and eggs"),
        _ => panic!("expected add"),
    }
    assert!(matches!(parse_command("add"), Command::Add(None)));
    assert!(matches!(parse_command("add   "), Command::Add(None)));
    match parse_command("add  x") {
        Command::Add(Some(s)) => assert_eq!(s, " x"),
        _ => panic!("expected add"),
    }
    assert!(matches!(parse_command("list"), Command::List));
    assert!(matches!(parse_command("list extra"), Command::List));
    assert!(matches!(parse_command("\tsave\t"), Command::Save));
    assert!(matches!(parse_command("exit"), Command::Exit));
    match parse_command("remove 2") {
        Command::Remove(Some(s)) => assert_eq!(s, "2"),
        _ => panic!("expected remove"),
    }
    assert!(matches!(parse_command("remove"), Command::Remove(None)));
    assert!(matches!(parse_command(""), Command::Unknown));
    assert!(matches!(parse_command("ADD x"), Command::Unknown));
    assert!(matches!(parse_command("addx"), Command::Unknown));
}

#[test]
fn unknown_verb_changes_nothing() {
    let mut t = with_tasks(&["a", "b"]);
    assert!(matches!(t.dispatch("frobnicate 1"), Reply::InvalidCommand));
    assert!(matches!(t.dispatch(""), Reply::InvalidCommand));
    assert_eq!(t.tasks, vec!["a".to_string(), "b".to_string()]);
}

#[test]
fn session_add_list_remove_exit() {
    let (mut t, warn) = Todo::load_or_empty(None);
    assert!(!warn);
    assert!(matches!(t.dispatch("add buy milk"), Reply::TaskAdded));
    assert!(matches!(t.dispatch("add walk dog"), Reply::TaskAdded));
    match t.dispatch("list") {
        Reply::Listing(s) => assert_eq!(s, "Tasks:\n1. buy milk\n2. walk dog\n"),
        _ => panic!("expected a listing"),
    }
    assert!(matches!(t.dispatch("remove 1"), Reply::TaskRemoved));
    match t.dispatch("list") {
        Reply::Listing(s) => assert_eq!(s, "Tasks:\n1. walk dog\n"),
        _ => panic!("expected a listing"),
    }
    assert!(matches!(t.dispatch("exit"), Reply::Exit));
    let text = t.save_tasks();
    let back = Todo::load_tasks(&text).ok().expect("reads back");
    assert_eq!(back.tasks, vec!["walk dog".to_string()]);
}

#[test]
fn session_remove_out_of_range() {
    let mut t = with_tasks(&["buy milk", "walk dog"]);
    assert!(matches!(t.dispatch("remove 5"), Reply::InvalidIndex));
    assert_eq!(t.tasks, vec!["buy milk".to_string(), "walk dog".to_string()]);
    assert!(matches!(t.dispatch("remove"), Reply::RemoveUsage));
    assert!(matches!(t.dispatch("add"), Reply::AddUsage));
    assert!(matches!(t.dispatch("save"), Reply::Save));
    assert_eq!(t.tasks.len(), 2);
}

#[test]
fn save_after_session_gives_remaining_task() {
    let mut t = Todo::new();
    t.add_task("buy milk".to_string());
    t.add_task("walk dog".to_string());
    assert!(t.remove_task(0));
    assert_eq!(t.save_tasks(), "tasks:\n- walk dog\n");
}
