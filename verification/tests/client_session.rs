//! Participant-side behaviour: the state machine, the input buffer, the
//! typing metrics and the network-task decisions.

use chaos_type::client::{
    idle_step, App, AppEvent, AppState, IdleDirective, Key, WireDirective, WireEvent,
};

fn b(s: &str) -> Vec<u8> {
    s.as_bytes().to_vec()
}

fn connected_app() -> App {
    let mut app = App::new("ws://127.0.0.1:9001".to_string());
    app.connect();
    app.set_connected();
    app
}

#[test]
fn fresh_session_is_welcome() {
    let app = App::new("ws://10.0.0.2:9001".to_string());
    assert_eq!(app.state, AppState::Welcome);
    assert_eq!(app.connection_status, "Not connected");
    assert_eq!(app.server_url, "ws://10.0.0.2:9001");
    assert_eq!(app.users_count, 1);
    assert_eq!(app.chars_typed, 0);
    assert_eq!(app.typing_speed, 0);
    assert!(app.current_input.is_empty());
    assert!(app.sentence.is_empty());
    assert!(app.error_message.is_none());
    assert!(!app.should_quit);
    assert!(!app.show_help);
}

#[test]
fn default_session_points_at_loopback() {
    let app = App::default();
    assert_eq!(app.server_url, "ws://127.0.0.1:9001");
    assert_eq!(app.state, AppState::Welcome);
}

#[test]
fn connect_clears_stale_error() {
    let mut app = App::new("ws://127.0.0.1:9001".to_string());
    app.set_disconnected(Some("boom".to_string()));
    assert_eq!(app.state, AppState::Disconnected);
    assert_eq!(app.error_message.as_deref(), Some("boom"));
    app.connect();
    assert_eq!(app.state, AppState::Connecting);
    assert_eq!(app.connection_status, "Connecting...");
    assert!(app.error_message.is_none());
}

#[test]
fn disconnect_without_reason_keeps_old_error() {
    let mut app = App::new("ws://127.0.0.1:9001".to_string());
    app.set_disconnected(Some("first".to_string()));
    app.set_disconnected(None);
    assert_eq!(app.error_message.as_deref(), Some("first"));
    assert_eq!(app.connection_status, "Disconnected");
}

#[test]
fn submitting_a_word_trims_and_counts() {
    let mut app = connected_app();
    app.current_input = b("  hello ");
    let word = app.send_word(0);
    assert_eq!(word, Some(b("hello")));
    assert!(app.current_input.is_empty());
    // Five characters plus the implicit separator.
    assert_eq!(app.chars_typed, 6);
}

#[test]
fn submitting_whitespace_changes_nothing() {
    let mut app = connected_app();
    app.current_input = b("   \t ");
    let before_chars = app.chars_typed;
    let word = app.send_word(5);
    assert_eq!(word, None);
    assert_eq!(app.chars_typed, before_chars);
    assert_eq!(app.current_input, b("   \t "));
    assert_eq!(app.typing_speed, 0);
}

#[test]
fn typing_speed_formula() {
    // 50 cumulative characters over 10 seconds: (50 / 5) / (10 / 60)
    // = 60 words per minute.
    let mut app = connected_app();
    app.chars_typed = 50;
    app.update_typing_speed(10);
    assert_eq!(app.typing_speed, 60);
}

#[test]
fn typing_speed_needs_running_timer_and_time() {
    let mut app = App::new("ws://127.0.0.1:9001".to_string());
    app.chars_typed = 50;
    app.update_typing_speed(10);
    assert_eq!(app.typing_speed, 0, "timer not started yet");
    let mut app = connected_app();
    app.chars_typed = 50;
    app.update_typing_speed(0);
    assert_eq!(app.typing_speed, 0, "no time elapsed yet");
}

#[test]
fn snapshot_arrival_replaces_replica() {
    let mut app = connected_app();
    app.update_sentence(b("hello world"));
    assert_eq!(app.sentence, b("hello world"));
    app.update_sentence(b("hello world again"));
    assert_eq!(app.sentence, b("hello world again"));
}

#[test]
fn welcome_keys() {
    let mut app = App::new("ws://127.0.0.1:9001".to_string());
    assert_eq!(app.handle_key(Key::Char(b'h'), 0), None);
    assert!(app.show_help);
    assert_eq!(app.handle_key(Key::Char(b'H'), 0), None);
    assert!(!app.show_help);
    assert_eq!(app.handle_key(Key::Enter, 0), Some(AppEvent::Connect));
    assert_eq!(app.state, AppState::Connecting);
}

#[test]
fn quit_key_from_welcome() {
    let mut app = App::new("ws://127.0.0.1:9001".to_string());
    assert_eq!(app.handle_key(Key::Char(b'q'), 0), None);
    assert!(app.should_quit);
}

#[test]
fn connected_typing_and_submit() {
    let mut app = connected_app();
    for &c in b"hi  ".iter() {
        assert_eq!(app.handle_key(Key::Char(c), 0), None);
    }
    assert_eq!(app.handle_key(Key::Backspace, 0), None);
    assert_eq!(app.current_input, b("hi "));
    let emitted = app.handle_key(Key::Enter, 0);
    assert_eq!(emitted, Some(AppEvent::SendWord(b("hi"))));
    assert!(app.current_input.is_empty());
    assert_eq!(app.chars_typed, 3);
}

#[test]
fn connected_submit_of_blank_buffer_sends_nothing() {
    let mut app = connected_app();
    assert_eq!(app.handle_key(Key::Char(b' '), 0), None);
    assert_eq!(app.handle_key(Key::Enter, 0), None);
    assert_eq!(app.chars_typed, 0);
}

#[test]
fn escape_leaves_the_session() {
    let mut app = connected_app();
    app.current_input = b("half");
    let emitted = app.handle_key(Key::Esc, 0);
    assert_eq!(emitted, Some(AppEvent::Disconnect));
    assert_eq!(app.state, AppState::Welcome);
    assert!(app.current_input.is_empty());
}

#[test]
fn help_toggle_while_connected() {
    let mut app = connected_app();
    assert_eq!(app.handle_key(Key::F(1), 0), None);
    assert!(app.show_help);
    assert_eq!(app.handle_key(Key::F(2), 0), None);
    assert!(app.show_help);
}

#[test]
fn disconnected_keys() {
    let mut app = App::new("ws://127.0.0.1:9001".to_string());
    app.set_disconnected(Some("gone".to_string()));
    let mut retry = App::new("ws://127.0.0.1:9001".to_string());
    retry.set_disconnected(Some("gone".to_string()));
    assert_eq!(retry.handle_key(Key::Enter, 0), Some(AppEvent::Connect));
    assert_eq!(retry.state, AppState::Connecting);
    assert_eq!(app.handle_key(Key::Esc, 0), None);
    assert_eq!(app.state, AppState::Welcome);
}

#[test]
fn connecting_can_be_cancelled() {
    let mut app = App::new("ws://127.0.0.1:9001".to_string());
    app.connect();
    assert_eq!(app.handle_key(Key::Esc, 0), None);
    assert_eq!(app.state, AppState::Welcome);
}

#[test]
fn wire_connect_outcomes() {
    let mut app = App::new("ws://127.0.0.1:9001".to_string());
    app.connect();
    assert!(matches!(app.wire_step(WireEvent::ConnectOk), WireDirective::Continue));
    assert_eq!(app.state, AppState::Connected);
    assert!(app.timer_running);

    let mut app = App::new("ws://127.0.0.1:9001".to_string());
    app.connect();
    let d = app.wire_step(WireEvent::ConnectFailed("Connection failed: refused".to_string()));
    assert!(matches!(d, WireDirective::EndConnection));
    assert_eq!(app.state, AppState::Disconnected);
    assert_eq!(app.error_message.as_deref(), Some("Connection failed: refused"));
}

#[test]
fn wire_inbound_updates_replica() {
    let mut app = connected_app();
    let d = app.wire_step(WireEvent::Inbound(b("hello")));
    assert!(matches!(d, WireDirective::Continue));
    assert_eq!(app.sentence, b("hello"));
}

#[test]
fn wire_link_loss_disconnects() {
    let mut app = connected_app();
    let d = app.wire_step(WireEvent::InboundClosed);
    assert!(matches!(d, WireDirective::EndConnection));
    assert_eq!(app.state, AppState::Disconnected);
    assert_eq!(app.error_message.as_deref(), Some("Connection lost"));
}

#[test]
fn wire_send_and_send_failure() {
    let mut app = connected_app();
    match app.wire_step(WireEvent::UserSend(b("word"))) {
        WireDirective::Forward(v) => assert_eq!(v, b("word")),
        other => panic!("expected a forward directive, got {:?}", other),
    }
    assert_eq!(app.state, AppState::Connected);
    let d = app.wire_step(WireEvent::SendFailed);
    assert!(matches!(d, WireDirective::EndConnection));
    assert_eq!(app.error_message.as_deref(), Some("Failed to send message"));
}

#[test]
fn wire_user_commands() {
    let mut app = connected_app();
    assert!(matches!(app.wire_step(WireEvent::UserConnect), WireDirective::Continue));
    assert!(matches!(app.wire_step(WireEvent::UserDisconnect), WireDirective::EndConnection));
    assert!(matches!(app.wire_step(WireEvent::UserQuit), WireDirective::EndTask));
    assert!(matches!(app.wire_step(WireEvent::ChannelClosed), WireDirective::EndConnection));
}

#[test]
fn idle_commands() {
    assert_eq!(idle_step(&AppEvent::Connect), IdleDirective::Attempt);
    assert_eq!(idle_step(&AppEvent::Quit), IdleDirective::EndTask);
    assert_eq!(idle_step(&AppEvent::Disconnect), IdleDirective::Ignore);
    assert_eq!(idle_step(&AppEvent::SendWord(b("w"))), IdleDirective::Ignore);
}
