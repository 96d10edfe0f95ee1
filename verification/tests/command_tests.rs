use editor_core::command::{parse_usize, Command, CommandKey};

#[test]
fn bare_numbers_go_to_a_line() {
    let mut c = Command::new();
    c.text = String::from("123");
    assert_eq!(c.confirm(), Some(CommandKey::Line(123)));
    assert_eq!(c.text, "");
    assert_eq!(c.history, vec![String::from("123")]);
}

#[test]
fn named_commands() {
    let cases: Vec<(&str, Option<CommandKey>)> = vec![
        ("w", Some(CommandKey::Save)),
        ("q", Some(CommandKey::Quit)),
        ("wq", Some(CommandKey::SaveAndQuit)),
        ("x", Some(CommandKey::SaveAndQuit)),
        ("history", Some(CommandKey::History)),
        ("logger", Some(CommandKey::Logger)),
        ("bufn", Some(CommandKey::NextBuf)),
        ("bufp", Some(CommandKey::PrevBuf)),
        ("newbuf", Some(CommandKey::NewBuf)),
        ("bufcount", Some(CommandKey::BufCount)),
        ("nonsense", None),
        ("", None),
    ];
    for (text, expected) in cases {
        let mut c = Command::new();
        c.text = String::from(text);
        assert_eq!(c.confirm(), expected);
    }
}

#[test]
fn send_takes_the_rest_of_the_line() {
    let mut c = Command::new();
    c.text = String::from("send hello world");
    assert_eq!(c.confirm(), Some(CommandKey::Send(String::from("hello world"))));

    let mut c = Command::new();
    c.text = String::from("send");
    assert_eq!(c.confirm(), Some(CommandKey::Send(String::new())));
}

#[test]
fn unrecognized_input_is_still_recorded() {
    let mut c = Command::new();
    c.text = String::from("frobnicate");
    assert_eq!(c.confirm(), None);
    assert_eq!(c.history, vec![String::from("frobnicate")]);
    c.text = String::from("q");
    c.confirm();
    assert_eq!(c.history, vec![String::from("frobnicate"), String::from("q")]);
}

#[test]
fn parse_usize_accepts_digits_only() {
    assert_eq!(parse_usize("0"), Some(0));
    assert_eq!(parse_usize("907"), Some(907));
    assert_eq!(parse_usize(""), None);
    assert_eq!(parse_usize("12a"), None);
    assert_eq!(parse_usize("+5"), None);
    assert_eq!(parse_usize("99999999999999999999999999"), None);
}
