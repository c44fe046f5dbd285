use cmd_launcher::catalog::{CommandItem, CommandList};
use cmd_launcher::controller::{Action, App, AppState, KeyCode, KeyPress, RunState};
use cmd_launcher::output::{OutputBuffer, OUTPUT_CAPACITY};
use cmd_launcher::process::ChildProc;

fn lines(v: &[&str]) -> Vec<String> {
    v.iter().map(|s| s.to_string()).collect()
}

fn key(code: KeyCode) -> KeyPress {
    KeyPress { code, control: false }
}

fn ctrl(c: char) -> KeyPress {
    KeyPress { code: KeyCode::Char(c), control: true }
}

fn app_of(v: &[&str]) -> App {
    App::new(CommandList::new(&lines(v)))
}

#[test]
fn tokenize_three_words() {
    let item = CommandItem::new("echo hello world".to_string()).unwrap();
    assert_eq!(item.program(), "echo");
    assert_eq!(item.args(), &lines(&["hello", "world"]));
}

#[test]
fn tokenize_collapses_space_runs() {
    let item = CommandItem::new("ls   -la".to_string()).unwrap();
    assert_eq!(item.program(), "ls");
    assert_eq!(item.args(), &lines(&["-la"]));
}

#[test]
fn parse_string_matches_std_split() {
    for s in ["  a\tb\r\n c  ", "", "   ", "x", "a\u{3000}b\u{a0}c", "\u{2003}q"] {
        let expected: Vec<String> = s.split_whitespace().map(|w| w.to_string()).collect();
        assert_eq!(CommandItem::parse_string(s.to_string()), expected);
    }
}

#[test]
fn blank_line_gives_no_command() {
    assert!(CommandItem::new("".to_string()).is_none());
    assert!(CommandItem::new(" \t ".to_string()).is_none());
}

#[test]
fn display_text_joins_with_single_spaces() {
    let item = CommandItem::new("  git   log  --oneline ".to_string()).unwrap();
    assert_eq!(item.display_text(), "git log --oneline");
}

#[test]
fn catalog_round_trip_three_lines() {
    let src = lines(&["echo hello world", "ls -la", "date"]);
    let list = CommandList::new(&src);
    assert_eq!(list.len(), 3);
    assert_eq!(list.item_texts(), src);
    assert_eq!(list.get(1).program(), "ls");
    assert_eq!(list.selected(), None);
}

#[test]
fn catalog_skips_blank_lines_keeps_order() {
    let list = CommandList::new(&lines(&["b 1", "", "   ", "a 2"]));
    assert_eq!(list.item_texts(), lines(&["b 1", "a 2"]));
}

#[test]
fn output_buffer_keeps_last_twenty() {
    let mut buf = OutputBuffer::new();
    for i in 1..=25 {
        buf.push(format!("L{}", i));
        assert!(buf.len() <= OUTPUT_CAPACITY);
    }
    let expected: Vec<String> = (6..=25).map(|i| format!("L{}", i)).collect();
    assert_eq!(buf.lines(), &expected);
}

#[test]
fn output_buffer_push_all_in_order() {
    let mut buf = OutputBuffer::new();
    buf.push("x".to_string());
    buf.push_all(lines(&["a", "b"]));
    assert_eq!(buf.lines(), &lines(&["x", "a", "b"]));
}

#[test]
fn drain_keeps_arrival_order() {
    let mut child = ChildProc::new();
    let tx = child.sender();
    tx.send("A".to_string()).unwrap();
    tx.send("B".to_string()).unwrap();
    tx.send("C".to_string()).unwrap();
    let got = child.drain();
    assert_eq!(got, lines(&["A", "B", "C"]));
    assert_eq!(child.output().lines(), &lines(&["A", "B", "C"]));
    assert!(child.drain().is_empty());
    assert_eq!(child.output().len(), 3);
}

#[test]
fn drain_on_empty_channel_returns_at_once() {
    let mut child = ChildProc::new();
    assert!(child.drain().is_empty());
    assert_eq!(child.output().len(), 0);
}

#[test]
fn navigation_clamps_at_both_ends() {
    let mut app = app_of(&["a", "b", "c"]);
    assert_eq!(app.handle_key_event(key(KeyCode::Down)), Action::Nothing);
    assert_eq!(app.command_list().selected(), Some(0));
    for _ in 0..5 {
        app.handle_key_event(key(KeyCode::Down));
    }
    assert_eq!(app.command_list().selected(), Some(2));
    for _ in 0..5 {
        app.handle_key_event(key(KeyCode::Up));
    }
    assert_eq!(app.command_list().selected(), Some(0));
}

#[test]
fn up_from_nothing_selects_last() {
    let mut app = app_of(&["a", "b", "c"]);
    app.select_previous();
    assert_eq!(app.command_list().selected(), Some(2));
}

#[test]
fn select_by_index_clamps() {
    let mut app = app_of(&["a", "b"]);
    app.select_by_index(7);
    assert_eq!(app.command_list().selected(), Some(1));
    app.select_by_index(0);
    assert_eq!(app.command_list().selected(), Some(0));
}

#[test]
fn empty_catalog_enter_is_noop() {
    let mut app = app_of(&[]);
    for code in [KeyCode::Enter, KeyCode::Down, KeyCode::Up, KeyCode::Enter] {
        assert_eq!(app.handle_key_event(key(code)), Action::Nothing);
        assert_eq!(app.run_state(), RunState::Idle);
        assert_eq!(app.command_list().selected(), None);
    }
    assert!(app.is_running());
}

#[test]
fn enter_launches_selected_entry() {
    let mut app = app_of(&["a", "b"]);
    app.handle_key_event(key(KeyCode::Down));
    app.handle_key_event(key(KeyCode::Down));
    assert_eq!(app.handle_key_event(key(KeyCode::Enter)), Action::Launch(1));
    assert_eq!(app.run_state(), RunState::Running);
}

#[test]
fn keys_ignored_while_running() {
    let mut app = app_of(&["a", "b"]);
    app.handle_key_event(key(KeyCode::Down));
    app.handle_key_event(key(KeyCode::Enter));
    assert_eq!(app.handle_key_event(key(KeyCode::Down)), Action::Nothing);
    assert_eq!(app.handle_key_event(key(KeyCode::Enter)), Action::Nothing);
    assert_eq!(app.command_list().selected(), Some(0));
    assert_eq!(app.run_state(), RunState::Running);
}

#[test]
fn quit_while_running() {
    let mut app = app_of(&["a"]);
    app.handle_key_event(key(KeyCode::Down));
    app.handle_key_event(key(KeyCode::Enter));
    assert_eq!(app.handle_key_event(ctrl('c')), Action::Quit);
    assert_eq!(app.exit(), AppState::Quiting);
    assert!(!app.is_running());
}

#[test]
fn quit_needs_control() {
    let mut app = app_of(&["a"]);
    assert_eq!(app.handle_key_event(key(KeyCode::Char('q'))), Action::Nothing);
    assert!(app.is_running());
    assert_eq!(app.handle_key_event(ctrl('x')), Action::Nothing);
    assert_eq!(app.handle_key_event(ctrl('q')), Action::Quit);
    assert!(!app.is_running());
}

#[test]
fn failed_spawn_returns_to_idle() {
    let mut app = app_of(&["no-such-program-here --flag", "ls"]);
    app.handle_key_event(key(KeyCode::Down));
    assert_eq!(app.handle_key_event(key(KeyCode::Enter)), Action::Launch(0));
    assert_eq!(app.run_state(), RunState::Running);
    app.finish_run();
    assert_eq!(app.run_state(), RunState::Idle);
    assert_eq!(app.command_list().selected(), Some(0));
    assert_eq!(app.command_list().len(), 2);
    assert!(app.is_running());
}

#[test]
fn app_drains_output_in_order_and_clears_on_launch() {
    let mut app = app_of(&["echo x"]);
    app.handle_key_event(key(KeyCode::Down));
    assert_eq!(app.handle_key_event(key(KeyCode::Enter)), Action::Launch(0));
    let tx = app.output_sender();
    for l in ["A", "B", "C"] {
        tx.send(l.to_string()).unwrap();
    }
    assert_eq!(app.drain_output(), lines(&["A", "B", "C"]));
    assert_eq!(app.output().lines(), &lines(&["A", "B", "C"]));
    app.finish_run();
    assert_eq!(app.output().len(), 3);
    app.handle_key_event(key(KeyCode::Enter));
    assert_eq!(app.output().len(), 0);
    assert!(app.drain_output().is_empty());
}

#[test]
fn app_output_window_evicts_oldest() {
    let mut app = app_of(&["yes"]);
    app.handle_key_event(key(KeyCode::Down));
    app.handle_key_event(key(KeyCode::Enter));
    let tx = app.output_sender();
    for i in 1..=25 {
        tx.send(format!("L{}", i)).unwrap();
    }
    app.drain_output();
    let expected: Vec<String> = (6..=25).map(|i| format!("L{}", i)).collect();
    assert_eq!(app.output().lines(), &expected);
}

#[test]
fn refresh_finishes_run_after_last_output() {
    let mut app = app_of(&["echo hi"]);
    app.handle_key_event(key(KeyCode::Down));
    app.handle_key_event(key(KeyCode::Enter));
    assert!(!app.input_may_block());
    let tx = app.output_sender();
    tx.send("hi".to_string()).unwrap();
    assert_eq!(app.refresh(false), lines(&["hi"]));
    assert_eq!(app.run_state(), RunState::Running);
    tx.send("bye".to_string()).unwrap();
    assert_eq!(app.refresh(true), lines(&["bye"]));
    assert_eq!(app.run_state(), RunState::Idle);
    assert!(app.input_may_block());
    assert_eq!(app.output().lines(), &lines(&["hi", "bye"]));
}
