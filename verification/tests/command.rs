use brongnal::command::parse_command;

#[test]
fn parses_a_message_command() {
    let command = parse_command(b"message bob hello there").unwrap();
    assert_eq!(command.to, b"bob".to_vec());
    assert_eq!(command.msg, b"hello there".to_vec());
}

#[test]
fn command_white_space_may_be_any_run() {
    let command = parse_command(b"message \t Bob42\r\n  hi  ").unwrap();
    assert_eq!(command.to, b"Bob42".to_vec());
    assert_eq!(command.msg, b"hi  ".to_vec());
}

#[test]
fn command_text_may_be_empty() {
    let command = parse_command(b"message bob ").unwrap();
    assert_eq!(command.to, b"bob".to_vec());
    assert_eq!(command.msg, Vec::<u8>::new());
}

#[test]
fn rejects_what_is_no_command() {
    assert!(parse_command(b"").is_none());
    assert!(parse_command(b"message").is_none());
    assert!(parse_command(b"message ").is_none());
    assert!(parse_command(b"message bob").is_none());
    assert!(parse_command(b"messagebob hi").is_none());
    assert!(parse_command(b"massage bob hi").is_none());
    assert!(parse_command(b"message b-b hi").is_none());
    assert!(parse_command(b"message -bob hi").is_none());
    assert!(parse_command(b" message bob hi").is_none());
}
