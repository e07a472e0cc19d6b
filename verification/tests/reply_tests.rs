use smtpbis::reply::{parse_reply_code, render, EnhancedCode, Reply};

fn rendered(r: &Reply) -> String {
    String::from_utf8(render(r)).unwrap()
}

#[test]
fn render_single_line() {
    let r = Reply::new(250, None, "ok");
    assert_eq!(rendered(&r), "250 ok\r\n");
}

#[test]
fn render_multi_line() {
    let r = Reply::new(250, None, "localhost\nPIPELINING\nSMTPUTF8");
    assert_eq!(rendered(&r), "250-localhost\r\n250-PIPELINING\r\n250 SMTPUTF8\r\n");
}

#[test]
fn render_trailing_newline_dropped() {
    let r = Reply::new(250, None, "a\nb\n");
    assert_eq!(rendered(&r), "250-a\r\n250 b\r\n");
}

#[test]
fn render_empty_message() {
    let r = Reply::new(250, None, "");
    assert_eq!(rendered(&r), "250 \r\n");
}

#[test]
fn render_enhanced_code() {
    let e = EnhancedCode { class: 2, subject: 1, detail: 5 };
    let r = Reply::new(250, Some(e), "ok");
    assert_eq!(rendered(&r), "250 2.1.5 ok\r\n");
}

#[test]
fn render_enhanced_code_multi_line() {
    let e = EnhancedCode { class: 5, subject: 711, detail: 32 };
    let r = Reply::new(550, Some(e), "no\nway");
    assert_eq!(rendered(&r), "550-5.711.32 no\r\n550 5.711.32 way\r\n");
}

#[test]
fn round_trip_without_enhanced_code() {
    let r = Reply::new(354, None, "send data");
    let wire = render(&r);
    let parsed = parse_reply_code(&wire).unwrap();
    assert_eq!(parsed.0, 354);
    assert_eq!(parsed.1, None);
}

#[test]
fn round_trip_with_enhanced_code() {
    let e = EnhancedCode { class: 4, subject: 99, detail: 100 };
    let r = Reply::new(451, Some(e), "try later");
    let wire = render(&r);
    let parsed = parse_reply_code(&wire).unwrap();
    assert_eq!(parsed.0, 451);
    let back = parsed.1.unwrap();
    assert_eq!(back.class, 4);
    assert_eq!(back.subject, 99);
    assert_eq!(back.detail, 100);
}

#[test]
fn parse_rejects_short_line() {
    let v: Vec<u8> = b"25".to_vec();
    assert_eq!(parse_reply_code(&v), None);
}

#[test]
fn parse_rejects_bad_separator() {
    let v: Vec<u8> = b"250xok\r\n".to_vec();
    assert_eq!(parse_reply_code(&v), None);
}

#[test]
fn parse_plain_code_text_is_not_enhanced() {
    let v: Vec<u8> = b"250 ok\r\n".to_vec();
    let parsed = parse_reply_code(&v).unwrap();
    assert_eq!(parsed.0, 250);
    assert_eq!(parsed.1, None);
}

#[test]
fn text_shaped_like_an_enhanced_code_parses_as_one() {
    // A message that itself begins like an enhanced status code is
    // indistinguishable from one on the wire.
    let r = Reply::new(250, None, "2.1.5 done");
    let parsed = parse_reply_code(&render(&r)).unwrap();
    assert_eq!(parsed.0, 250);
    assert_eq!(parsed.1, Some(EnhancedCode { class: 2, subject: 1, detail: 5 }));
}
