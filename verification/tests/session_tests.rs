use rustyknife::rfc5321::ReversePath;
use smtpbis::body::BodyReader;
use smtpbis::codec::LineCodec;
use smtpbis::command::{parse_command, Command};
use smtpbis::error::ServerError;
use smtpbis::reply::render;
use smtpbis::session::{
    apply_data_start, apply_tls_request, banner_reply, ehlo_reply, starttls_check,
    syntax_error_reply, Action, Control, Decision, Session, State,
};

/// How a driven session ended.
#[derive(Debug, PartialEq)]
enum Exit {
    Quit,
    OutOfInput,
    Framing,
    Pipelining,
    Upgrade,
    DataAbort,
}

struct Outcome {
    codes: Vec<u16>,
    exit: Exit,
    body: Vec<Vec<u8>>,
}

/// Drive a session over a fixed input with an accept-all policy, the way
/// the embedding application does: frame, parse, dispatch, apply.
fn drive(input: &[u8]) -> Outcome {
    let mut codec = LineCodec::new(1000, false);
    codec.feed(&input.to_vec());
    let mut session = Session::start(false);
    let mut codes = vec![banner_reply("localhost ESMTP").code];
    let mut body: Vec<Vec<u8>> = Vec::new();
    loop {
        let line = match codec.next_line() {
            Ok(Some(l)) => l,
            Ok(None) => return Outcome { codes, exit: Exit::OutOfInput, body },
            Err(_) => return Outcome { codes, exit: Exit::Framing, body },
        };
        let cmd = match parse_command(&line) {
            Ok(c) => c,
            Err(ServerError::SyntaxError(_)) => {
                codes.push(syntax_error_reply().code);
                continue;
            }
            Err(_) => unreachable!(),
        };
        match session.handle_command(cmd) {
            Action::Send(r) => codes.push(r.code),
            Action::SendQuit(r) => {
                codes.push(r.code);
                return Outcome { codes, exit: Exit::Quit, body };
            }
            Action::CallMail(_path, _params) => {
                let r = session.apply_mail(Ok(None));
                codes.push(r.code);
            }
            Action::CallRcpt(_path, _params) => {
                let r = session.apply_rcpt(Ok(None));
                codes.push(r.code);
            }
            Action::CallDataStart => match apply_data_start(Ok(None)) {
                Ok(go) => {
                    codes.push(go.code);
                    let mut reader = BodyReader::new();
                    let mut exhausted = false;
                    loop {
                        match codec.next_line() {
                            Ok(Some(l)) => match reader.feed(l) {
                                Some(b) => body.push(b),
                                None => {
                                    exhausted = true;
                                    break;
                                }
                            },
                            Ok(None) => break,
                            Err(_) => return Outcome { codes, exit: Exit::Framing, body },
                        }
                    }
                    let (fin, abort) = session.finish_data(None, exhausted);
                    codes.push(fin.code);
                    if abort {
                        return Outcome { codes, exit: Exit::DataAbort, body };
                    }
                }
                Err(r) => codes.push(r.code),
            },
            Action::CallTlsRequest => match apply_tls_request(true) {
                Some(r) => codes.push(r.code),
                None => match starttls_check(&codec.buf) {
                    Ok(r220) => {
                        codes.push(r220.code);
                        return Outcome { codes, exit: Exit::Upgrade, body };
                    }
                    Err(_) => return Outcome { codes, exit: Exit::Pipelining, body },
                },
            },
        }
    }
}

#[test]
fn minimal_transaction() {
    let out = drive(b"EHLO a\r\nMAIL FROM:<s@x>\r\nRCPT TO:<r@y>\r\nDATA\r\nhi\r\n.\r\nQUIT\r\n");
    assert_eq!(out.codes, vec![220, 250, 250, 250, 354, 250, 250]);
    assert_eq!(out.exit, Exit::Quit);
    assert_eq!(out.body, vec![b"hi\r\n".to_vec()]);
}

#[test]
fn bad_sequence() {
    let out = drive(b"EHLO a\r\nRCPT TO:<r@y>\r\nQUIT\r\n");
    assert_eq!(out.codes, vec![220, 250, 503, 250]);
    assert_eq!(out.exit, Exit::Quit);
}

#[test]
fn syntax_recovery() {
    let out = drive(b"HELO a\r\nFOO BAR\r\nQUIT\r\n");
    assert_eq!(out.codes, vec![220, 250, 500, 250]);
    assert_eq!(out.exit, Exit::Quit);
}

#[test]
fn dot_stuffing_transaction() {
    let out = drive(b"EHLO a\r\nMAIL FROM:<s@x>\r\nRCPT TO:<r@y>\r\nDATA\r\n..a\r\n.\r\nQUIT\r\n");
    assert_eq!(out.codes, vec![220, 250, 250, 250, 354, 250, 250]);
    assert_eq!(out.body, vec![b".a\r\n".to_vec()]);
}

#[test]
fn starttls_pipelining_violation() {
    let out = drive(b"STARTTLS\r\nEHLO a\r\n");
    assert_eq!(out.codes, vec![220]);
    assert_eq!(out.exit, Exit::Pipelining);
}

#[test]
fn starttls_alone_upgrades() {
    let out = drive(b"STARTTLS\r\n");
    assert_eq!(out.codes, vec![220, 220]);
    assert_eq!(out.exit, Exit::Upgrade);
}

#[test]
fn oversize_command_line_is_fatal() {
    let data = vec![b'x'; 10_000];
    let out = drive(&data);
    assert_eq!(out.codes, vec![220]);
    assert_eq!(out.exit, Exit::Framing);
}

#[test]
fn data_before_mail() {
    let out = drive(b"EHLO a\r\nDATA\r\nQUIT\r\n");
    assert_eq!(out.codes, vec![220, 250, 503, 250]);
}

#[test]
fn data_without_recipient() {
    let out = drive(b"EHLO a\r\nMAIL FROM:<s@x>\r\nDATA\r\nQUIT\r\n");
    assert_eq!(out.codes, vec![220, 250, 250, 503, 250]);
}

#[test]
fn mail_twice_is_bad_sequence() {
    let out = drive(b"EHLO a\r\nMAIL FROM:<s@x>\r\nMAIL FROM:<t@x>\r\nQUIT\r\n");
    assert_eq!(out.codes, vec![220, 250, 250, 503, 250]);
}

#[test]
fn empty_body_is_valid() {
    let out = drive(b"EHLO a\r\nMAIL FROM:<s@x>\r\nRCPT TO:<r@y>\r\nDATA\r\n.\r\nQUIT\r\n");
    assert_eq!(out.codes, vec![220, 250, 250, 250, 354, 250, 250]);
    assert_eq!(out.body.len(), 0);
}

#[test]
fn null_reverse_path_is_offered_to_the_handler() {
    let line = b"MAIL FROM:<>\r\n".to_vec();
    let cmd = parse_command(&line).unwrap();
    assert!(matches!(cmd, Command::Mail(ReversePath::Null, _)));
    let mut session = Session::start(false);
    match session.handle_command(cmd) {
        Action::CallMail(path, params) => {
            assert_eq!(path, ReversePath::Null);
            assert!(params.is_empty());
        }
        _ => panic!("MAIL with a null path must reach the handler"),
    }
}

#[test]
fn ehlo_helo_rset_reset_state() {
    for reset in ["EHLO b\r\n", "HELO b\r\n", "RSET\r\n"] {
        let mut session = Session::start(false);
        let mail = parse_command(&b"MAIL FROM:<s@x>\r\n".to_vec()).unwrap();
        session.handle_command(mail);
        session.apply_mail(Ok(None));
        assert_eq!(session.state, State::Mail);
        let cmd = parse_command(&reset.as_bytes().to_vec()).unwrap();
        session.handle_command(cmd);
        assert_eq!(session.state, State::Initial);
    }
}

#[test]
fn starttls_advertised_only_before_tls() {
    let clear = ehlo_reply(false);
    let tls = ehlo_reply(true);
    assert!(clear.lines.iter().any(|l| l == b"STARTTLS"));
    assert!(!tls.lines.iter().any(|l| l == b"STARTTLS"));
}

#[test]
fn ehlo_reply_renders_sorted_keywords() {
    let wire = String::from_utf8(render(&ehlo_reply(false))).unwrap();
    assert_eq!(
        wire,
        "250-localhost\r\n250-CHUNKING\r\n250-ENHANCEDSTATUSCODES\r\n250-PIPELINING\r\n250-SMTPUTF8\r\n250 STARTTLS\r\n"
    );
}

#[test]
fn nested_starttls_is_not_implemented() {
    let mut session = Session::start(true);
    let cmd = parse_command(&b"STARTTLS\r\n".to_vec()).unwrap();
    match session.handle_command(cmd) {
        Action::Send(r) => assert_eq!(r.code, 502),
        _ => panic!("STARTTLS under TLS must be refused"),
    }
}

#[test]
fn handler_abort_tears_the_session_down() {
    let mut session = Session::start(false);
    session.state = State::Rcpt;
    let (r, abort) = session.finish_data(None, false);
    assert_eq!(r.code, 550);
    assert!(abort);
    assert_eq!(session.state, State::Rcpt);
}

#[test]
fn replies_correspond_to_commands_one_to_one() {
    let lines: [&[u8]; 5] = [
        b"EHLO a\r\n",
        b"MAIL FROM:<s@x>\r\n",
        b"RCPT TO:<r@y>\r\n",
        b"RSET\r\n",
        b"NOOP\r\n",
    ];
    let mut cmds = Vec::new();
    let mut ds = Vec::new();
    for l in lines {
        let cmd = parse_command(&l.to_vec()).unwrap();
        let d = match &cmd {
            Command::Mail(..) => Decision::MailD(Ok(None)),
            Command::Rcpt(..) => Decision::RcptD(Ok(None)),
            Command::Data => Decision::DataD(Ok(None), None, true),
            Command::StartTls => Decision::TlsD(true),
            _ => Decision::Pure,
        };
        cmds.push(cmd);
        ds.push(d);
    }
    let mut session = Session::start(false);
    let out = session.run_commands(cmds, ds);
    assert_eq!(out.len(), 5);
    let codes: Vec<Vec<u16>> = out.iter().map(|b| b.iter().map(|r| r.code).collect()).collect();
    assert_eq!(codes, vec![vec![250], vec![250], vec![250], vec![250], vec![250]]);
}

#[test]
fn run_commands_stops_after_quit() {
    let lines: [&[u8]; 3] = [b"NOOP\r\n", b"QUIT\r\n", b"NOOP\r\n"];
    let mut cmds = Vec::new();
    let mut ds = Vec::new();
    for l in lines {
        cmds.push(parse_command(&l.to_vec()).unwrap());
        ds.push(Decision::Pure);
    }
    let mut session = Session::start(false);
    let out = session.run_commands(cmds, ds);
    assert_eq!(out.len(), 2);
}

#[test]
fn respond_to_accepted_data_gives_two_replies() {
    let mut session = Session::start(false);
    session.state = State::Rcpt;
    let cmd = parse_command(&b"DATA\r\n".to_vec()).unwrap();
    let (rs, ctl) = session.respond_to(cmd, Decision::DataD(Ok(None), None, true));
    assert_eq!(rs.len(), 2);
    assert_eq!(rs[0].code, 354);
    assert_eq!(rs[1].code, 250);
    assert_eq!(ctl, Control::Continue);
    assert_eq!(session.state, State::Initial);
}
