use smtpbis::codec::{LineCodec, LineError};

fn codec_with(max: usize, strict: bool, data: &[u8]) -> LineCodec {
    let mut c = LineCodec::new(max, strict);
    c.feed(&data.to_vec());
    c
}

#[test]
fn frames_one_line() {
    let mut c = codec_with(1000, false, b"EHLO a\r\nrest");
    let line = c.next_line().unwrap().unwrap();
    assert_eq!(line, b"EHLO a\r\n".to_vec());
    assert!(c.next_line().unwrap().is_none());
}

#[test]
fn frames_lines_in_order() {
    let mut c = codec_with(1000, false, b"a\r\nb\r\n");
    assert_eq!(c.next_line().unwrap().unwrap(), b"a\r\n".to_vec());
    assert_eq!(c.next_line().unwrap().unwrap(), b"b\r\n".to_vec());
    assert!(c.next_line().unwrap().is_none());
}

#[test]
fn incomplete_line_waits_for_more() {
    let mut c = codec_with(1000, false, b"EHLO");
    assert!(c.next_line().unwrap().is_none());
    c.feed(&b" a\r\n".to_vec());
    assert_eq!(c.next_line().unwrap().unwrap(), b"EHLO a\r\n".to_vec());
}

#[test]
fn line_of_exactly_max_length_is_accepted() {
    let max = 64;
    let mut data = vec![b'x'; max - 2];
    data.extend_from_slice(b"\r\n");
    let mut c = codec_with(max, false, &data);
    let line = c.next_line().unwrap().unwrap();
    assert_eq!(line.len(), max);
}

#[test]
fn line_one_octet_longer_is_rejected() {
    let max = 64;
    let mut data = vec![b'x'; max - 1];
    data.extend_from_slice(b"\r\n");
    let mut c = codec_with(max, false, &data);
    assert!(matches!(c.next_line(), Err(LineError::LineTooLong)));
}

#[test]
fn oversize_line_without_terminator_is_rejected() {
    let data = vec![b'x'; 10_000];
    let mut c = codec_with(1000, false, &data);
    assert!(matches!(c.next_line(), Err(LineError::LineTooLong)));
}

#[test]
fn resynchronizes_after_overlong_line() {
    let mut data = vec![b'x'; 100];
    data.extend_from_slice(b"\r\nGOOD\r\n");
    let mut c = codec_with(64, false, &data);
    assert!(matches!(c.next_line(), Err(LineError::LineTooLong)));
    assert_eq!(c.next_line().unwrap().unwrap(), b"GOOD\r\n".to_vec());
}

#[test]
fn resynchronizes_across_feeds() {
    let data = vec![b'x'; 100];
    let mut c = codec_with(64, false, &data);
    assert!(matches!(c.next_line(), Err(LineError::LineTooLong)));
    c.feed(&b"junk\r\nGOOD\r\n".to_vec());
    // The first call drops the rest of the overlong line.
    assert!(c.next_line().unwrap().is_none());
    assert_eq!(c.next_line().unwrap().unwrap(), b"GOOD\r\n".to_vec());
}

#[test]
fn lenient_mode_keeps_bare_line_feed_as_content() {
    let mut c = codec_with(1000, false, b"a\nb\r\n");
    assert_eq!(c.next_line().unwrap().unwrap(), b"a\nb\r\n".to_vec());
}

#[test]
fn strict_mode_rejects_bare_line_feed() {
    let mut c = codec_with(1000, true, b"a\nb\r\n");
    assert!(matches!(c.next_line(), Err(LineError::BareLF)));
}

#[test]
fn strict_mode_rejects_bare_carriage_return() {
    let mut c = codec_with(1000, true, b"a\rb\r\n");
    assert!(matches!(c.next_line(), Err(LineError::BareCR)));
}

#[test]
fn strict_mode_accepts_clean_lines() {
    let mut c = codec_with(1000, true, b"MAIL FROM:<s@x>\r\n");
    assert_eq!(c.next_line().unwrap().unwrap(), b"MAIL FROM:<s@x>\r\n".to_vec());
}

#[test]
fn split_carriage_return_line_feed_across_feeds() {
    let mut c = codec_with(1000, false, b"hi\r");
    assert!(c.next_line().unwrap().is_none());
    c.feed(&b"\n".to_vec());
    assert_eq!(c.next_line().unwrap().unwrap(), b"hi\r\n".to_vec());
}
