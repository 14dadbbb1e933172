use sparrow_agent::console::{
    accept_input, apply_key, decode_key, is_exit_command, render_editable_line,
    render_input_prompt, utf8_sequence_width, EditOutcome, EditableLine, InputKey,
};

#[test]
fn tty_prompt_does_not_place_footer_under_editing_line() {
    let output = render_input_prompt(">>> ", Some("context> 10 / 100 tokens"), true);

    assert_eq!(output, "\x1b[2Kcontext> 10 / 100 tokens\n\x1b[2K>>> ");
    assert!(!output.contains("\x1b[1A"));
    assert!(!output.contains("\x1b[4C"));
}

#[test]
fn tty_prompt_without_footer_keeps_single_clean_prompt_line() {
    let output = render_input_prompt(">>> ", None, true);

    assert_eq!(output, "\x1b[2K>>> ");
}

#[test]
fn non_tty_prompt_avoids_ansi_sequences() {
    let output = render_input_prompt(">>> ", Some("context> 10 / 100 tokens"), false);

    assert_eq!(output, "context> 10 / 100 tokens\n>>> ");
}

#[test]
fn editable_line_backspace_removes_a_complete_chinese_character() {
    let mut line = EditableLine::default();
    line.insert_str("中文");

    assert!(line.backspace());

    assert_eq!(line.as_string(), "中");
    assert_eq!(line.cursor_display_width(">>> "), 6);
}

#[test]
fn redraw_line_clears_and_repositions_by_display_width() {
    let mut line = EditableLine::default();
    line.insert_str("中a");
    line.move_left();

    let output = render_editable_line(">>> ", &line);

    assert_eq!(output, "\r\x1b[2K>>> 中a\r\x1b[6C");
}

#[test]
fn editing_at_the_ends_reports_no_change() {
    let mut line = EditableLine::default();
    assert!(!line.backspace());
    assert!(!line.delete());
    assert!(!line.move_left());
    assert!(!line.move_right());
    line.insert_str("ab");
    assert!(!line.move_right());
    assert!(line.move_left());
    assert!(line.delete());
    assert_eq!(line.as_string(), "a");
    assert_eq!(line.end_display_width(">>> "), 5);
    assert_eq!(line.into_string(), "a");
}

#[test]
fn exit_commands_are_case_insensitive() {
    assert!(is_exit_command("exit"));
    assert!(is_exit_command("QUIT"));
    assert!(!is_exit_command("exit now"));
}

#[test]
fn utf8_lead_bytes_give_sequence_widths() {
    assert_eq!(utf8_sequence_width(b'a'), 0);
    assert_eq!(utf8_sequence_width(0xC3), 2);
    assert_eq!(utf8_sequence_width(0xE4), 3);
    assert_eq!(utf8_sequence_width(0xF0), 4);
}

#[test]
fn keys_are_decoded_from_raw_bytes() {
    assert_eq!(decode_key(b"\r", false), Some(InputKey::Enter));
    assert_eq!(decode_key(b"\n", false), Some(InputKey::Enter));
    assert_eq!(decode_key(&[0x03], false), Some(InputKey::CtrlC));
    assert_eq!(decode_key(&[0x7f], false), Some(InputKey::Backspace));
    assert_eq!(decode_key(b"a", false), Some(InputKey::Text("a".into())));
    assert_eq!(decode_key(&[0x01], false), Some(InputKey::Ignore));
    assert_eq!(decode_key(&[], false), None);
    assert_eq!(decode_key(&[], true), Some(InputKey::CtrlD));
    assert_eq!(decode_key(&[0x1b], false), None);
    assert_eq!(decode_key(&[0x1b], true), Some(InputKey::Ignore));
    assert_eq!(decode_key(b"\x1b[C", false), Some(InputKey::Right));
    assert_eq!(decode_key(b"\x1b[D", false), Some(InputKey::Left));
    assert_eq!(decode_key(b"\x1b[3", false), None);
    assert_eq!(decode_key(b"\x1b[3~", false), Some(InputKey::Delete));
    assert_eq!(decode_key(b"\x1bx", false), Some(InputKey::Ignore));
    assert_eq!(decode_key(&[0xE4, 0xB8], false), None);
    assert_eq!(
        decode_key("中".as_bytes(), false),
        Some(InputKey::Text("中".into()))
    );
    assert_eq!(decode_key(&[0xE4, 0x41, 0x41], false), Some(InputKey::Ignore));
    assert_eq!(decode_key(&[0xE4, 0xB8], true), Some(InputKey::Ignore));
    assert_eq!(decode_key(&[0xFF], false), Some(InputKey::Ignore));
}

#[test]
fn keys_edit_the_line() {
    let mut line = EditableLine::default();
    assert_eq!(apply_key(&mut line, InputKey::CtrlD), EditOutcome::EndOfInput);
    assert_eq!(apply_key(&mut line, InputKey::Text("hi".into())), EditOutcome::Redraw);
    assert_eq!(apply_key(&mut line, InputKey::CtrlD), EditOutcome::Unchanged);
    assert_eq!(apply_key(&mut line, InputKey::Left), EditOutcome::Redraw);
    assert_eq!(apply_key(&mut line, InputKey::Delete), EditOutcome::Redraw);
    assert_eq!(apply_key(&mut line, InputKey::Right), EditOutcome::Unchanged);
    assert_eq!(apply_key(&mut line, InputKey::Ignore), EditOutcome::Unchanged);
    assert_eq!(apply_key(&mut line, InputKey::CtrlC), EditOutcome::Interrupted);
    assert_eq!(
        apply_key(&mut line, InputKey::Enter),
        EditOutcome::Submit("h".into())
    );
    assert_eq!(apply_key(&mut line, InputKey::Backspace), EditOutcome::Redraw);
    assert_eq!(apply_key(&mut line, InputKey::Backspace), EditOutcome::Unchanged);
}

#[test]
fn blank_input_is_not_accepted() {
    assert_eq!(accept_input("  hello \n"), Some("hello".into()));
    assert_eq!(accept_input(" \n"), None);
}
