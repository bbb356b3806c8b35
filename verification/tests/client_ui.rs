use chamber::client_ui::is_blank;
use chamber::client_ui::App;
use chamber::client_ui::AppFocus;
use chamber::client_ui::Command;
use chamber::client_ui::Key;
use chamber::consts::MSG_BUF_SIZE;
use chamber::message::Message;
use chamber::message::MessageType;

fn typed(text: &str, block_width: u16) -> App {
    let mut app = App::default();
    app.fit_to_block(block_width);
    for ch in text.chars() {
        assert_eq!(app.handle_key(Key::Char(ch)), Command::Nothing);
    }
    app
}

fn text(sender: &str, content: &str) -> Message {
    Message {
        msg_type: MessageType::TextMessage,
        msg_sender: sender.to_string(),
        msg_content: content.to_string(),
    }
}

#[test]
fn a_new_client_is_empty() {
    let app = App::default();
    assert_eq!(app.focus(), AppFocus::Editor);
    assert_eq!(app.input_buffer(), "");
    assert_eq!(app.cursor_position(), 0);
    assert_eq!(app.editor_width(), 0);
    assert!(app.received_messages().is_empty());
}

#[test]
fn the_editor_is_the_block_without_its_border() {
    let mut app = App::default();
    app.fit_to_block(12);
    assert_eq!(app.editor_width(), 10);
    app.fit_to_block(2);
    assert_eq!(app.editor_width(), 0);
}

#[test]
fn typing_puts_characters_at_the_cursor() {
    let mut app = typed("ac", 12);
    assert_eq!(app.input_buffer(), "ac");
    assert_eq!(app.cursor_position(), 2);
    app.handle_key(Key::Left);
    assert!(app.insert_char('b'));
    assert_eq!(app.input_buffer(), "abc");
    assert_eq!(app.cursor_position(), 2);
    app.handle_key(Key::Left);
    app.handle_key(Key::Left);
    app.handle_key(Key::Char('啊'));
    assert_eq!(app.input_buffer(), "啊abc");
    assert_eq!(app.cursor_position(), 1);
}

#[test]
fn a_full_line_takes_no_more() {
    let mut app = App::default();
    for _ in 0..MSG_BUF_SIZE {
        assert!(app.insert_char('a'));
    }
    assert!(!app.insert_char('a'));
    assert_eq!(app.input_buffer().len(), MSG_BUF_SIZE);
    assert_eq!(app.cursor_position(), MSG_BUF_SIZE);
}

#[test]
fn the_limit_of_the_line_counts_bytes() {
    let mut app = App::default();
    // three bytes each: 341 of them are one byte short of the limit
    for _ in 0..342 {
        assert!(app.insert_char('啊'));
    }
    assert!(!app.insert_char('啊'));
    assert!(!app.insert_char('a'));
    assert_eq!(app.input_buffer().len(), 1026);
    assert_eq!(app.cursor_position(), 342);
}

#[test]
fn backspace_removes_the_character_before_the_cursor() {
    let mut app = typed("a啊c", 12);
    app.handle_key(Key::Backspace);
    assert_eq!(app.input_buffer(), "a啊");
    assert_eq!(app.cursor_position(), 2);
    app.handle_key(Key::Left);
    app.remove_a_char_before_cursor();
    assert_eq!(app.input_buffer(), "啊");
    assert_eq!(app.cursor_position(), 0);
    app.remove_a_char_before_cursor();
    assert_eq!(app.input_buffer(), "啊");
    assert_eq!(app.cursor_position(), 0);
}

#[test]
fn the_cursor_stays_in_the_line() {
    let mut app = typed("ab", 12);
    app.move_cursor_right();
    assert_eq!(app.cursor_position(), 2);
    app.move_cursor_left();
    app.move_cursor_left();
    assert_eq!(app.cursor_position(), 0);
    app.move_cursor_left();
    assert_eq!(app.cursor_position(), 0);
    app.move_cursor_right();
    assert_eq!(app.cursor_position(), 1);
}

#[test]
fn the_text_before_the_cursor_has_bytes_and_columns() {
    let mut app = typed("啊a", 12);
    assert_eq!(app.len_of_str_before_cursor(), 4);
    assert_eq!(app.width_of_str_before_cursor(), 3);
    app.move_cursor_left();
    assert_eq!(app.len_of_str_before_cursor(), 3);
    assert_eq!(app.width_of_str_before_cursor(), 2);
    app.move_cursor_left();
    assert_eq!(app.len_of_str_before_cursor(), 0);
    assert_eq!(app.width_of_str_before_cursor(), 0);
}

#[test]
fn the_occupied_width_counts_the_empty_column() {
    let mut app = typed("123456789十", 12);
    assert_eq!(app.width_of_str_before_cursor(), 11);
    assert_eq!(app.width_occupied_by_str_before_cursor(), 12);
    app.move_cursor_left();
    assert_eq!(app.width_occupied_by_str_before_cursor(), 9);
}

#[test]
fn up_and_down_move_by_a_line() {
    let mut app = typed("abcdefghijklmnopqrstuvwxyz", 12);
    assert_eq!(app.cursor_position(), 26);
    app.handle_key(Key::Up);
    assert_eq!(app.cursor_position(), 16);
    app.handle_key(Key::Up);
    assert_eq!(app.cursor_position(), 6);
    app.handle_key(Key::Up);
    assert_eq!(app.cursor_position(), 0);
    app.handle_key(Key::Up);
    assert_eq!(app.cursor_position(), 0);
    app.handle_key(Key::Down);
    assert_eq!(app.cursor_position(), 10);
    app.handle_key(Key::Down);
    assert_eq!(app.cursor_position(), 20);
    app.handle_key(Key::Down);
    assert_eq!(app.cursor_position(), 26);
    app.handle_key(Key::Down);
    assert_eq!(app.cursor_position(), 26);
    assert_eq!(app.input_buffer(), "abcdefghijklmnopqrstuvwxyz");
}

#[test]
fn up_and_down_pass_wide_characters() {
    let mut app = typed("十十十十十十十十", 7);
    assert_eq!(app.editor_width(), 5);
    app.move_cursor_up();
    assert_eq!(app.cursor_position(), 6);
    let mut app = typed("十十十十十", 7);
    app.move_cursor_up();
    assert_eq!(app.cursor_position(), 2);
    app.move_cursor_down();
    assert_eq!(app.cursor_position(), 4);
    app.move_cursor_left();
    app.move_cursor_left();
    app.move_cursor_left();
    app.move_cursor_left();
    app.move_cursor_down();
    assert_eq!(app.cursor_position(), 3);
}

#[test]
fn enter_and_escape_are_for_the_caller() {
    let mut app = typed("hi", 12);
    assert_eq!(app.handle_key(Key::Enter), Command::Send);
    assert_eq!(app.handle_key(Key::Esc), Command::Quit);
    assert_eq!(app.handle_key(Key::Other), Command::Nothing);
    assert_eq!(app.input_buffer(), "hi");
    assert_eq!(app.cursor_position(), 2);
}

#[test]
fn a_line_is_taken_to_be_sent() {
    let mut app = typed("hi, all", 12);
    let msg = app.take_outgoing("127.0.0.1:4000").expect("the line is not blank");
    assert_eq!(msg.to_string(), "TextMessage,127.0.0.1:4000,hi, all");
    assert_eq!(app.input_buffer(), "");
    assert_eq!(app.cursor_position(), 0);
    assert!(app.take_outgoing("127.0.0.1:4000").is_none());
}

#[test]
fn a_blank_line_is_not_sent() {
    let mut app = typed("  \t\u{3000} ", 12);
    assert!(app.take_outgoing("me").is_none());
    assert_eq!(app.input_buffer(), "  \t\u{3000} ");
    assert_eq!(app.cursor_position(), 5);
    app.insert_char('x');
    let msg = app.take_outgoing("me").expect("the line is not blank");
    assert_eq!(msg.msg_content, "  \t\u{3000} x");
}

#[test]
fn blank_is_nothing_but_white_space() {
    assert!(is_blank(""));
    assert!(is_blank(" "));
    assert!(is_blank(" \t\r\n\u{a0}\u{2003}\u{3000}"));
    assert!(!is_blank("a"));
    assert!(!is_blank("  a  "));
    assert!(!is_blank("\u{200b}"));
    assert!(!is_blank("_"));
}

#[test]
fn only_text_messages_are_kept() {
    let mut app = App::default();
    assert!(app.receive(text("0", "hello")));
    assert!(!app.receive(Message::convert_to_msg("garbage")));
    assert!(!app.receive(Message::convert_to_msg("ClientListUpdate,0,")));
    assert!(!app.receive(Message::convert_to_msg("ClientLogin,0,")));
    assert!(!app.receive(Message::convert_to_msg("ClientExit,0,")));
    assert!(app.receive(text("1", "a,b")));
    let kept: Vec<String> = app.received_messages().iter().map(|m| m.to_brief_string()).collect();
    assert_eq!(kept, vec!["0: hello", "1: a,b"]);
}

#[test]
fn the_received_messages_take_their_lines() {
    let mut app = App::default();
    app.fit_to_block(12);
    assert_eq!(app.lines_occupied_by_msg_received(), 0);
    app.receive(text("0", "hello"));
    assert_eq!(app.lines_occupied_by_msg_received(), 1);
    app.receive(text("1", "xxxxxxxxxxxxxxxxxxxxxx"));
    assert_eq!(app.lines_occupied_by_msg_received(), 4);
    app.receive(text("1234567", "十"));
    assert_eq!(app.lines_occupied_by_msg_received(), 6);
    app.receive(text("", ""));
    assert_eq!(app.lines_occupied_by_msg_received(), 7);
}

#[test]
fn a_joined_emoji_is_narrower_than_its_characters() {
    // three emoji of two columns each, joined into one of two columns
    let mut app = typed("👨\u{200d}👩\u{200d}👧", 12);
    assert_eq!(app.cursor_position(), 5);
    assert_eq!(app.width_of_str_before_cursor(), 2);
    assert_eq!(app.width_occupied_by_str_before_cursor(), 6);
    // the way up cannot be told: the cursor stays
    app.move_cursor_up();
    assert_eq!(app.cursor_position(), 5);
    app.move_cursor_left();
    app.move_cursor_left();
    app.move_cursor_down();
    assert_eq!(app.cursor_position(), 5);
}
