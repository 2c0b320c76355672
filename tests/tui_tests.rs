use circuitchat::storage::MessageDirection;
use circuitchat::tui::{App, Key, KeyCode, TransferProgress};

fn press(code: KeyCode) -> Key {
    Key { code, ctrl: false, alt: false, press: true }
}

fn type_text(app: &mut App, s: &str) {
    for c in s.chars() {
        assert_eq!(app.handle_key(press(KeyCode::Char(c))), None);
    }
}

#[test]
fn new_app_is_empty() {
    let app = App::new("connected");
    assert_eq!(app.status, "connected");
    assert!(app.messages.is_empty());
    assert!(app.input.is_empty());
    assert_eq!(app.cursor_position, 0);
    assert!(!app.should_quit && !app.show_menu);
    assert!(app.send_progress.is_none() && app.recv_progress.is_none());
}

#[test]
fn typing_and_submitting() {
    let mut app = App::new("");
    type_text(&mut app, "héllo");
    assert_eq!(app.input, "héllo");
    assert_eq!(app.cursor_position, 5);
    assert_eq!(app.handle_key(press(KeyCode::Enter)), Some("héllo".to_string()));
    assert!(app.input.is_empty());
    assert_eq!(app.cursor_position, 0);
    assert_eq!(app.handle_key(press(KeyCode::Enter)), None);
}

#[test]
fn cursor_editing() {
    let mut app = App::new("");
    type_text(&mut app, "abc");
    app.handle_key(press(KeyCode::Left));
    app.handle_key(press(KeyCode::Backspace));
    assert_eq!(app.input, "ac");
    assert_eq!(app.cursor_position, 1);
    app.handle_key(press(KeyCode::Home));
    app.handle_key(press(KeyCode::Delete));
    assert_eq!(app.input, "c");
    app.handle_key(press(KeyCode::Char('é')));
    assert_eq!(app.input, "éc");
    app.handle_key(press(KeyCode::End));
    assert_eq!(app.cursor_position, 2);
    app.handle_key(press(KeyCode::Right));
    assert_eq!(app.cursor_position, 2);
    app.handle_key(press(KeyCode::Delete));
    assert_eq!(app.input, "éc");
    app.handle_key(press(KeyCode::Home));
    app.handle_key(press(KeyCode::Backspace));
    assert_eq!(app.input, "éc");
}

#[test]
fn releases_are_ignored() {
    let mut app = App::new("");
    let k = Key { code: KeyCode::Char('a'), ctrl: false, alt: false, press: false };
    assert_eq!(app.handle_key(k), None);
    assert!(app.input.is_empty());
}

#[test]
fn ctrl_c_and_ctrl_d_quit() {
    let mut app = App::new("");
    app.handle_key(Key { code: KeyCode::Char('c'), ctrl: true, alt: false, press: true });
    assert!(app.should_quit);
    let mut app = App::new("");
    app.handle_key(Key { code: KeyCode::Char('d'), ctrl: true, alt: false, press: true });
    assert!(app.should_quit);
    assert!(app.input.is_empty());
}

#[test]
fn menu_keys() {
    let mut app = App::new("");
    let alt_m = Key { code: KeyCode::Char('m'), ctrl: false, alt: true, press: true };
    app.handle_key(alt_m);
    assert!(app.show_menu);
    app.handle_key(press(KeyCode::Char('x')));
    assert!(app.input.is_empty());
    app.handle_key(press(KeyCode::Char('s')));
    assert!(!app.show_menu);
    assert_eq!(app.input, "/send ");
    assert_eq!(app.cursor_position, 6);
    app.handle_key(alt_m);
    app.handle_key(press(KeyCode::Esc));
    assert!(!app.show_menu);
    app.handle_key(alt_m);
    app.handle_key(press(KeyCode::Char('q')));
    assert!(app.should_quit);
}

#[test]
fn menu_is_bypassed_while_receiving() {
    let mut app = App::new("");
    app.set_recv_progress("f".to_string(), 10);
    app.show_menu = true;
    app.handle_key(press(KeyCode::Char('q')));
    assert!(!app.should_quit);
    assert_eq!(app.input, "q");
}

#[test]
fn messages_scroll_to_bottom() {
    let mut app = App::new("");
    app.visible_height = 3;
    for i in 0..5 {
        app.add_message(MessageDirection::Received, format!("m{}", i), "t".to_string());
    }
    assert_eq!(app.messages.len(), 5);
    assert_eq!(app.messages[4].content, "m4");
    assert_eq!(app.scroll_offset, 2);
    app.handle_key(press(KeyCode::Up));
    assert_eq!(app.scroll_offset, 1);
    app.handle_key(press(KeyCode::PageUp));
    assert_eq!(app.scroll_offset, 0);
    app.handle_key(press(KeyCode::PageDown));
    assert_eq!(app.scroll_offset, 2);
    app.handle_key(press(KeyCode::Down));
    assert_eq!(app.scroll_offset, 2);
}

#[test]
fn progress_updates() {
    let mut app = App::new("");
    app.update_send_progress(5);
    assert!(app.send_progress.is_none());
    app.set_send_progress("a".to_string(), 200);
    app.update_send_progress(50);
    let p = app.send_progress.as_ref().unwrap();
    assert_eq!((p.name.as_str(), p.size, p.transferred), ("a", 200, 50));
    assert_eq!(p.pct(), 25);
    app.clear_send_progress();
    assert!(app.send_progress.is_none());
    app.set_recv_progress("b".to_string(), 0);
    app.update_recv_progress(0);
    assert_eq!(app.recv_progress.as_ref().unwrap().pct(), 100);
    app.clear_recv_progress();
    assert!(app.recv_progress.is_none());
}

#[test]
fn percent_and_bar() {
    let t = TransferProgress { name: "x".to_string(), size: 3, transferred: 1 };
    assert_eq!(t.pct(), 33);
    assert_eq!(t.filled_cells(44), 14);
    let done = TransferProgress { name: "x".to_string(), size: 3, transferred: 3 };
    assert_eq!(done.pct(), 100);
    assert_eq!(done.filled_cells(44), 44);
    let huge = TransferProgress { name: "x".to_string(), size: u64::MAX, transferred: u64::MAX - 1 };
    assert_eq!(huge.pct(), 99);
}

#[test]
fn progress_leaves_status_alone() {
    let mut app = App::new("ready");
    app.set_send_progress("a".to_string(), 10);
    app.update_send_progress(3);
    app.set_recv_progress("b".to_string(), 10);
    app.update_recv_progress(4);
    app.clear_send_progress();
    app.clear_recv_progress();
    assert_eq!(app.status, "ready");
}
