use editor_core::buffer::{BufferType, Key, Mode, PathContent};
use editor_core::editor::{make_motion_string, Editor, KeyAction};
use editor_core::statemachine::{StateMachine, States};

fn editor_with_file(text: &str) -> Editor {
    let mut e = Editor::new();
    e.resize((20, 10));
    e.new_buffer(&String::from("note.txt"), PathContent::FileText(String::from(text)));
    e
}

#[test]
fn test_make_motion_string() {
    assert_eq!(
        make_motion_string(&vec![
            "45".to_string(),
            "d".to_string(),
            "7".to_string(),
            "j".to_string()
        ]),
        String::from("45d7j")
    );
    assert_eq!(
        make_motion_string(&vec![
            "a".to_string(),
            "b".to_string(),
            "c".to_string(),
            "123".to_string(),
            "j".to_string()
        ]),
        String::from("abc123j")
    );
    assert_eq!(
        make_motion_string(&vec!["123".to_string(), "a".to_string()]),
        String::from("123a")
    );
    assert_eq!(make_motion_string(&vec!["j".to_string()]), String::from("j"));
    assert_eq!(make_motion_string(&vec![":".to_string()]), String::from(":"));
    assert_eq!(
        make_motion_string(&vec!["2".to_string(), ":".to_string()]),
        String::from("2:")
    );
}

#[test]
fn test_motion() {}

#[test]
fn test_start_and_close() {}

#[test]
fn new_editor_is_empty() {
    let editor = Editor::new();
    assert_eq!(editor.buffers.len(), 0);
    assert!(!editor.should_quit);
    let mut editor = editor;
    editor.new_buffer(&String::from("note.txt"), PathContent::FileText(String::from("x\n")));
    assert_eq!(editor.buffers.len(), 1);
    assert_eq!(editor.buf_ptr, 0);
}

#[test]
fn motions_drive_the_active_buffer() {
    let mut e = editor_with_file("abc\ndef\n");
    e.motion_func(&String::from("j"));
    assert_eq!(e.buffers[0].cursor.current.1, 1);
    e.motion_func(&String::from("k"));
    assert_eq!(e.buffers[0].cursor.current.1, 0);
    e.motion_func(&String::from("l"));
    assert_eq!(e.buffers[0].cursor.current.0, 1);
    e.motion_func(&String::from("h"));
    assert_eq!(e.buffers[0].cursor.current.0, 0);
    e.motion_func(&String::from("$"));
    assert_eq!(e.buffers[0].cursor.current.0, 2);
    e.motion_func(&String::from("0"));
    assert_eq!(e.buffers[0].cursor.current.0, 0);
    e.motion_func(&String::from("i"));
    assert_eq!(e.buffers[0].mode, Mode::Insert);
}

#[test]
fn a_enters_insert_after_the_cursor() {
    let mut e = editor_with_file("abc\n");
    e.motion_func(&String::from("a"));
    assert_eq!(e.buffers[0].mode, Mode::Insert);
    assert_eq!(e.buffers[0].cursor.current.0, 1);
}

#[test]
fn parse_repeats_the_terminal_motion() {
    // "2j" moves down twice; the leading token multiplies into a count
    let mut e = editor_with_file("a\nb\nc\nd\n");
    let r = e.parse(vec![String::from("2"), String::from("j")]);
    assert!(r.is_ok());
    assert_eq!(e.buffers[0].cursor.current.1, 2);

    // counts multiply: "2 2 j" is four times
    let mut e = editor_with_file("a\nb\nc\nd\ne\nf\n");
    e.parse(vec![String::from("2"), String::from("2"), String::from("j")]).unwrap();
    assert_eq!(e.buffers[0].ptr_y + e.buffers[0].cursor.current.1, 4);
}

#[test]
fn parse_single_token_runs_once() {
    let mut e = editor_with_file("a\nb\n");
    e.parse(vec![String::from("j")]).unwrap();
    assert_eq!(e.buffers[0].cursor.current.1, 1);
}

#[test]
fn parse_stops_repeating_after_leaving_normal_mode() {
    // "3i" enters Insert on the first step and stops there
    let mut e = editor_with_file("a\nb\nc\nd\n");
    e.parse(vec![String::from("3"), String::from("i")]).unwrap();
    assert_eq!(e.buffers[0].mode, Mode::Insert);
    assert_eq!(e.buffers[0].cursor.current.1, 0);
}

#[test]
fn keys_in_normal_mode_feed_the_motion_parser() {
    let mut e = editor_with_file("abc\n");
    assert_eq!(e.key_press(Key::Char('j')), KeyAction::SendMotion('j'));
    assert_eq!(e.key_press(Key::Ctrl('c')), KeyAction::ClearMotion);
    assert_eq!(e.key_press(Key::Ctrl('s')), KeyAction::Save);
}

#[test]
fn keys_in_insert_mode_edit_the_buffer() {
    let mut e = editor_with_file("");
    e.motion_func(&String::from("i"));
    assert_eq!(e.key_press(Key::Char('h')), KeyAction::Nothing);
    assert_eq!(e.key_press(Key::Char('i')), KeyAction::Nothing);
    e.key_press(Key::Esc);
    assert_eq!(e.buffers[0].content_string(), "hi");
    assert_eq!(e.buffers[0].mode, Mode::Normal);
    assert_eq!(e.buffers[0].cursor.current.0, 1);
}

#[test]
fn enter_on_a_directory_asks_to_open_the_hovered_entry() {
    let mut e = Editor::new();
    e.resize((20, 10));
    e.new_buffer(
        &String::from("src"),
        PathContent::DirEntries(vec![String::from("alpha.rs")]),
    );
    e.motion_func(&String::from("j"));
    e.motion_func(&String::from("j"));
    let act = e.key_press(Key::Enter);
    assert_eq!(act, KeyAction::OpenHover(String::from("alpha.rs")));
    // the caller probes the path and opens it into the same buffer
    e.open_path(&String::from("alpha.rs"), PathContent::FileText(String::from("fn x(){}\n")));
    assert_eq!(e.buffers[0].buffer_type, BufferType::File);
    assert_eq!(e.buffers[0].content_string(), "fn x(){}\n");
}

#[test]
fn the_command_line_collects_text_and_confirms() {
    let mut e = editor_with_file("a\nb\nc\nd\n");
    e.key_press(Key::Char(':'));
    // ':' reaches the editor through the motion channel
    e.motion_func(&String::from(":"));
    assert_eq!(e.buffers[0].mode, Mode::Command);
    assert_eq!(e.mode_display(), ":");
    e.key_press(Key::Char('3'));
    assert_eq!(e.command.text, "3");
    assert_eq!(e.mode_display(), ":3");
    let act = e.key_press(Key::Enter);
    assert_eq!(act, KeyAction::Nothing);
    assert_eq!(e.buffers[0].mode, Mode::Normal);
    assert_eq!(e.buffers[0].ptr_y + e.buffers[0].cursor.current.1, 2);
}

#[test]
fn save_and_quit_from_the_command_line() {
    let mut e = editor_with_file("text\n");
    e.motion_func(&String::from(":"));
    e.key_press(Key::Char('w'));
    e.key_press(Key::Char('q'));
    let act = e.key_press(Key::Enter);
    assert_eq!(act, KeyAction::SaveAndQuit);
    assert!(e.should_quit);
    let payload = e.save().expect("file buffer saves");
    assert_eq!(payload.0, "note.txt");
    assert_eq!(payload.1, "text\n");
}

#[test]
fn buffer_cycling_and_counting() {
    let mut e = editor_with_file("one\n");
    e.new_buffer(&String::from("two.txt"), PathContent::FileText(String::from("two\n")));
    assert_eq!(e.buffers.len(), 2);
    assert_eq!(e.buf_ptr, 1);
    e.next_buf();
    assert_eq!(e.buf_ptr, 0);
    e.prev_buf();
    assert_eq!(e.buf_ptr, 1);
    let act = e.handle_command(Some(editor_core::command::CommandKey::BufCount));
    assert_eq!(act, KeyAction::Nothing);
    assert_eq!(e.message, Some(String::from("2 open buffers")));
    // cycling reports the new active index for the debug sink
    let act = e.handle_command(Some(editor_core::command::CommandKey::NextBuf));
    assert_eq!(e.buf_ptr, 0);
    assert_eq!(act, KeyAction::SendLog(String::from("buf: 0")));
    let act = e.handle_command(Some(editor_core::command::CommandKey::PrevBuf));
    assert_eq!(e.buf_ptr, 1);
    assert_eq!(act, KeyAction::SendLog(String::from("buf: 1")));
}

#[test]
fn closing_buffers_quits_on_the_last() {
    let mut e = editor_with_file("one\n");
    e.new_buffer(&String::from("two.txt"), PathContent::FileText(String::from("two\n")));
    e.close_buffer();
    assert_eq!(e.buffers.len(), 1);
    assert!(!e.should_quit);
    e.close_buffer();
    assert_eq!(e.buffers.len(), 1);
    assert!(e.should_quit);
}

#[test]
fn mode_display_texts() {
    let mut e = editor_with_file("a\n");
    assert_eq!(e.mode_display(), "-- Normal --");
    e.set_message(Some(String::from("Wrote 2 bytes")));
    assert_eq!(e.mode_display(), "Wrote 2 bytes");
    e.set_message(None);
    e.motion_func(&String::from("i"));
    assert_eq!(e.mode_display(), "-- Insert --");
}

#[test]
fn resize_reaches_every_buffer() {
    let mut e = editor_with_file("a\n");
    e.new_buffer(&String::from("b.txt"), PathContent::FileText(String::from("b\n")));
    e.resize((80, 24));
    assert_eq!(e.size, (80, 24));
    assert_eq!(e.buffers[0].size, (80, 24));
    assert_eq!(e.buffers[1].size, (80, 24));
}

#[test]
fn typed_characters_flow_through_the_parser_into_a_motion() {
    // the normal-mode pipeline: keys feed the parser one by one; the
    // completed token sequence drives the dispatcher with its count
    let mut e = editor_with_file("a\nb\nc\nd\ne\n");
    let mut sm = StateMachine::new();
    let mut done: Option<Vec<String>> = None;
    for c in ['2', 'j'] {
        let act = e.key_press(Key::Char(c));
        assert_eq!(act, KeyAction::SendMotion(c));
        if sm.recv(c) == States::End {
            done = Some(sm.fetch());
            sm.refresh();
        }
    }
    let tokens = done.expect("the motion completed");
    assert_eq!(tokens, vec![String::from("2"), String::from("j")]);
    e.parse(tokens).unwrap();
    assert_eq!(e.buffers[0].ptr_y + e.buffers[0].cursor.current.1, 2);
}
