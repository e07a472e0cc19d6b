use smtpbis::command::{parse_command, Command};
use smtpbis::error::ServerError;

#[test]
fn parses_ehlo() {
    let cmd = parse_command(&b"EHLO mail.example.org\r\n".to_vec()).unwrap();
    assert!(matches!(cmd, Command::Ehlo(_)));
}

#[test]
fn parses_helo() {
    let cmd = parse_command(&b"HELO mail.example.org\r\n".to_vec()).unwrap();
    assert!(matches!(cmd, Command::Helo(_)));
}

#[test]
fn parses_mail_with_parameters() {
    let cmd = parse_command(&b"MAIL FROM:<s@x.org> BODY=8BIT\r\n".to_vec()).unwrap();
    match cmd {
        Command::Mail(_, params) => assert_eq!(params.len(), 1),
        _ => panic!("expected MAIL"),
    }
}

#[test]
fn parses_rcpt() {
    let cmd = parse_command(&b"RCPT TO:<r@y.org>\r\n".to_vec()).unwrap();
    assert!(matches!(cmd, Command::Rcpt(_, _)));
}

#[test]
fn parses_data_rset_quit_noop() {
    assert!(matches!(parse_command(&b"DATA\r\n".to_vec()).unwrap(), Command::Data));
    assert!(matches!(parse_command(&b"RSET\r\n".to_vec()).unwrap(), Command::Rset));
    assert!(matches!(parse_command(&b"QUIT\r\n".to_vec()).unwrap(), Command::Quit));
    assert!(matches!(parse_command(&b"NOOP\r\n".to_vec()).unwrap(), Command::Noop(_)));
}

#[test]
fn parses_starttls_case_insensitively() {
    assert!(matches!(parse_command(&b"STARTTLS\r\n".to_vec()).unwrap(), Command::StartTls));
    assert!(matches!(parse_command(&b"starttls\r\n".to_vec()).unwrap(), Command::StartTls));
    assert!(matches!(parse_command(&b"StartTls\r\n".to_vec()).unwrap(), Command::StartTls));
}

#[test]
fn rejects_unknown_verb_with_the_line() {
    let line = b"FOO BAR\r\n".to_vec();
    match parse_command(&line) {
        Err(ServerError::SyntaxError(l)) => assert_eq!(l, line),
        _ => panic!("expected a syntax error"),
    }
}

#[test]
fn rejects_missing_terminator() {
    assert!(parse_command(&b"QUIT".to_vec()).is_err());
}

#[test]
fn rejects_starttls_with_residue() {
    assert!(parse_command(&b"STARTTLS extra\r\n".to_vec()).is_err());
}

#[test]
fn accepts_utf8_addresses() {
    let line = "MAIL FROM:<p\u{00e8}re@example.org>\r\n".as_bytes().to_vec();
    let cmd = parse_command(&line).unwrap();
    assert!(matches!(cmd, Command::Mail(_, _)));
}

#[test]
fn rejects_residue_after_a_parsed_command() {
    // The base grammar consumes "NOOP\r\n" and leaves residue, so the
    // adapter must reject the whole line.
    let line = b"NOOP\r\nextra".to_vec();
    match parse_command(&line) {
        Err(ServerError::SyntaxError(l)) => assert_eq!(l, line),
        _ => panic!("residue after a parsed command must be a syntax error"),
    }
}
