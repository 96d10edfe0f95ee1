use editor_core::buffer::{save_refusal, save_report, Buffer, BufferType, Key, Mode, PathContent};

fn file_buffer(text: &str, size: (u16, u16)) -> Buffer {
    let mut b = Buffer::new(size);
    b.open_with(&String::from("note.txt"), PathContent::FileText(String::from(text)));
    b
}

#[test]
fn normal_mode_right_moves_saturate_at_last_char() {
    // one line of length 5: in Normal mode the column saturates at 4
    let mut b = file_buffer("hello\n", (20, 10));
    for _ in 0..10 {
        b.move_right();
    }
    assert_eq!(b.cursor.current.0, 4);
}

#[test]
fn insert_mode_right_moves_saturate_at_append_position() {
    // one line of length 5: in Insert mode the column saturates at 5
    let mut b = file_buffer("hello\n", (20, 10));
    b.change_mode(Mode::Insert);
    for _ in 0..10 {
        b.move_right();
    }
    assert_eq!(b.cursor.current.0, 5);
}

#[test]
fn open_then_save_reproduces_the_text() {
    // round trip: an unmodified file buffer saves byte-identical content
    let before = "alpha\nbeta\ngamma\n";
    let b = file_buffer(before, (20, 10));
    let (path, content) = b.save_content().expect("a file buffer saves");
    assert_eq!(path, "note.txt");
    assert_eq!(content, before);
}

#[test]
fn directory_listing_starts_with_dot_lines() {
    // the synthesized content begins with "." and "..", then each entry once
    let mut b = Buffer::new((20, 10));
    b.open_with(
        &String::from("src"),
        PathContent::DirEntries(vec![String::from("alpha.rs"), String::from("beta.rs")]),
    );
    assert_eq!(b.buffer_type, BufferType::Directory);
    assert_eq!(b.content_string(), ".\n..\nalpha.rs\nbeta.rs\n");
    // hovering line by line reads back exactly the listing
    assert_eq!(b.get_hover_file(), ".");
    b.move_down((20, 10));
    assert_eq!(b.get_hover_file(), "..");
}

#[test]
fn hover_reads_an_entry_line() {
    let mut b = Buffer::new((20, 10));
    b.open_with(
        &String::from("src"),
        PathContent::DirEntries(vec![String::from("alpha.rs"), String::from("beta.rs")]),
    );
    b.move_down((20, 10));
    b.move_down((20, 10));
    assert_eq!(b.get_hover_file(), "alpha.rs");
}

#[test]
fn typing_into_an_empty_buffer() {
    // pressing i, typing "hi", pressing Esc yields the line "hi" in Normal
    // mode with the cursor clamped from the append position 2 back to 1
    let mut b = file_buffer("", (20, 10));
    b.change_mode(Mode::Insert);
    assert_eq!(b.mode, Mode::Insert);
    b.insert_key_file(Key::Char('h'), (20, 10));
    b.insert_key_file(Key::Char('i'), (20, 10));
    assert_eq!(b.cursor.current.0, 2);
    b.insert_key_file(Key::Esc, (20, 10));
    assert_eq!(b.content_string(), "hi");
    assert_eq!(b.mode, Mode::Normal);
    assert_eq!(b.cursor.current.0, 1);
}

#[test]
fn enter_splits_the_line_at_the_cursor() {
    let mut b = file_buffer("abcd\n", (20, 10));
    b.change_mode(Mode::Insert);
    b.move_right();
    b.move_right();
    b.insert_key_file(Key::Enter, (20, 10));
    assert_eq!(b.content_string(), "ab\ncd\n");
    assert_eq!(b.cursor.current.1, 1);
    assert_eq!(b.cursor.current.0, 0);
}

#[test]
fn backspace_joins_and_deletes() {
    let mut b = file_buffer("ab\ncd\n", (20, 10));
    b.change_mode(Mode::Insert);
    b.move_down((20, 10));
    // at the start of the second line: backspace joins with the first
    b.insert_key_file(Key::Backspace, (20, 10));
    assert_eq!(b.content_string(), "abcd\n");
    assert_eq!(b.cursor.current.1, 0);
    assert_eq!(b.cursor.current.0, 2);
    // in the middle of a line: backspace removes the character before
    b.insert_key_file(Key::Backspace, (20, 10));
    assert_eq!(b.content_string(), "acd\n");
    assert_eq!(b.cursor.current.0, 1);
    // at the very start of the text: backspace is a no-op
    b.insert_key_file(Key::Backspace, (20, 10));
    b.insert_key_file(Key::Backspace, (20, 10));
    assert_eq!(b.content_string(), "cd\n");
    assert_eq!(b.cursor.current.0, 0);
}

#[test]
fn vertical_moves_remember_the_desired_column() {
    // moving through a short line and back restores the column
    let mut b = file_buffer("longline\nab\nlongline\n", (20, 10));
    for _ in 0..6 {
        b.move_right();
    }
    assert_eq!(b.cursor.current.0, 6);
    b.move_down((20, 10));
    assert_eq!(b.cursor.current.0, 1);
    b.move_down((20, 10));
    assert_eq!(b.cursor.current.0, 6);
}

#[test]
fn moving_down_scrolls_the_viewport() {
    let mut b = file_buffer("a\nb\nc\nd\ne\nf\n", (20, 3));
    for _ in 0..5 {
        b.move_down((20, 3));
    }
    // the cursor stands on the last line and the viewport followed it
    assert_eq!(b.ptr_y + b.cursor.current.1, 5);
    assert!(b.cursor.current.1 < 3);
    // and stays there
    b.move_down((20, 3));
    assert_eq!(b.ptr_y + b.cursor.current.1, 5);
    b.move_up((20, 3));
    assert_eq!(b.ptr_y + b.cursor.current.1, 4);
}

#[test]
fn word_motions_cross_line_boundaries() {
    let mut b = file_buffer("foo\nbar\n", (20, 10));
    b.move_next_word((20, 10));
    assert_eq!(b.cursor.current.1, 1);
    assert_eq!(b.cursor.current.0, 0);
    b.move_back_word((20, 10));
    assert_eq!(b.cursor.current.1, 0);
    assert_eq!(b.cursor.current.0, 0);
    b.move_end_word((20, 10));
    assert_eq!(b.cursor.current.1, 0);
    assert_eq!(b.cursor.current.0, 2);
}

#[test]
fn line_ends_and_new_lines() {
    let mut b = file_buffer("hello\n", (20, 10));
    b.move_end_of_line();
    assert_eq!(b.cursor.current.0, 4);
    b.move_begin_of_line();
    assert_eq!(b.cursor.current.0, 0);
    b.new_line_below((20, 10));
    assert_eq!(b.content_string(), "hello\n\n");
    assert_eq!(b.mode, Mode::Insert);
    assert_eq!(b.cursor.current.1, 1);
    b.change_mode(Mode::Normal);
    b.new_line_above((20, 10));
    assert_eq!(b.content_string(), "hello\n\n\n");
    assert_eq!(b.cursor.current.1, 1);
    assert_eq!(b.cursor.current.0, 0);
}

#[test]
fn missing_path_yields_an_empty_buffer() {
    let mut b = file_buffer("something", (20, 10));
    b.open_with(&String::from("absent"), PathContent::Missing);
    assert_eq!(b.buffer_type, BufferType::Empty);
    assert_eq!(b.content_string(), "");
    assert!(b.save_content().is_none());
}

#[test]
fn directories_are_not_editable() {
    let mut b = Buffer::new((20, 10));
    b.open_with(&String::from("."), PathContent::DirEntries(vec![String::from("x")]));
    b.change_mode(Mode::Insert);
    assert_eq!(b.mode, Mode::Normal);
    assert!(b.save_content().is_none());
    let before = b.content_string();
    b.insert_key_dir(Key::Char('z'));
    assert_eq!(b.content_string(), before);
}

#[test]
fn save_reports() {
    assert_eq!(save_report(true, 5), "Wrote 5 bytes");
    assert_eq!(save_report(true, 120), "Wrote 120 bytes");
    assert_eq!(save_report(false, 5), "Writing to file didn't work");
}

#[test]
fn buffers_without_a_file_refuse_to_save() {
    let mut b = Buffer::new((20, 10));
    b.open_with(&String::from("."), PathContent::DirEntries(vec![]));
    assert_eq!(save_refusal(&b), "Can't write to directory");
    let mut b = Buffer::new((20, 10));
    b.open_with(&String::from("gone"), PathContent::Missing);
    assert_eq!(save_refusal(&b), "Can't write to directory");
}

#[test]
fn paste_inserts_at_the_cursor() {
    let mut b = file_buffer("ad\n", (20, 10));
    b.move_right();
    b.paste("bc");
    assert_eq!(b.content_string(), "abcd\n");
}

#[test]
fn basic_text_shows_the_visible_slice() {
    let mut b = file_buffer("aa\nbb\ncc\ndd\n", (20, 2));
    let (nums, text) = b.basic_text();
    assert_eq!(text, "aa\nbb\n");
    // the cursor line shows its absolute one-based number padded to two
    // columns; other lines show their distance
    assert_eq!(nums, "1 \n\r1\n\r");
    b.move_down((20, 2));
    b.move_down((20, 2));
    let (nums2, text2) = b.basic_text();
    assert_eq!(text2, "bb\ncc\n");
    assert_eq!(nums2, "1\n\r3 \n\r");
}
