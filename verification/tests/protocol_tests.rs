use love_display::decimal::push_decimal;
use love_display::reply::{absorb_read, check_status, read_reply, PollError};
use love_display::session::{
    after_attempt, poll_url, wifi_attempt_screen, AttemptOutcome, Poller, ATTEMPTS,
};
use love_display::layout::Screen;
use love_display::reply::Message;

const BASE: &str = "http://my-love.duckdns.org:8080/api/display/a?since=";

fn decimal(n: i64) -> String {
    let mut s = String::new();
    push_decimal(&mut s, n);
    s
}

#[test]
fn decimal_spelling() {
    assert_eq!(decimal(0), "0");
    assert_eq!(decimal(7), "7");
    assert_eq!(decimal(1700000000), "1700000000");
    assert_eq!(decimal(-42), "-42");
    assert_eq!(decimal(i64::MAX), i64::MAX.to_string());
    assert_eq!(decimal(i64::MIN), i64::MIN.to_string());
    for n in [-1000i64, -10, -9, -1, 1, 9, 10, 99, 100, 123456789] {
        assert_eq!(decimal(n).parse::<i64>().unwrap(), n);
    }
}

#[test]
fn poll_urls() {
    assert_eq!(poll_url(0), format!("{}0", BASE));
    assert_eq!(poll_url(1700000123), format!("{}1700000123", BASE));
    assert_eq!(poll_url(-5), format!("{}-5", BASE));
}

#[test]
fn reply_with_message() {
    let body = br#"{"has_message":true,"message":{"content":"Coucou","kind":"text"}}"#;
    let m = read_reply(body, Some(1700000000)).unwrap().unwrap();
    assert_eq!(m.content, "Coucou");
    assert_eq!(m.kind, "text");
    assert_eq!(m.timestamp, 1700000000);
}

#[test]
fn reply_defaults() {
    let body = br#"{"has_message":true,"message":{}}"#;
    let m = read_reply(body, None).unwrap().unwrap();
    assert_eq!((m.content.as_str(), m.kind.as_str(), m.timestamp), ("?", "text", 0));
    let body = br#"{"has_message":true,"message":{"content":5,"kind":"emoji"}}"#;
    let m = read_reply(body, Some(u64::MAX)).unwrap().unwrap();
    assert_eq!((m.content.as_str(), m.kind.as_str(), m.timestamp), ("?", "emoji", -1));
    let body = br#"{"has_message":true}"#;
    let m = read_reply(body, Some(3)).unwrap().unwrap();
    assert_eq!((m.content.as_str(), m.kind.as_str(), m.timestamp), ("?", "text", 3));
}

#[test]
fn reply_without_message() {
    for body in [
        &br#"{"has_message":false,"message":{"content":"x","kind":"text"}}"#[..],
        &br#"{"message":{"content":"x"}}"#[..],
        &br#"{"has_message":"true"}"#[..],
        &br#"[1, 2, 3]"#[..],
        &br#"null"#[..],
    ] {
        assert!(read_reply(body, Some(1)).unwrap().is_none());
    }
}

fn invalid_json(r: Result<Option<Message>, PollError>) -> (String, usize, usize) {
    match r {
        Err(PollError::InvalidJson { message, line, column }) => (message, line, column),
        other => panic!("unexpected {:?}", other),
    }
}

fn serde_error(body: &[u8]) -> (String, usize, usize) {
    let e = serde_json::from_slice::<serde_json::Value>(body).unwrap_err();
    (e.to_string(), e.line(), e.column())
}

#[test]
fn reply_not_json() {
    assert_eq!(
        invalid_json(read_reply(b"", None)),
        ("EOF while parsing a value at line 1 column 0".to_string(), 1, 0)
    );
    for body in [
        &b"not json"[..],
        &b"ok"[..],
        &br#"{"has_message":true"#[..],
        &b"{\n  \"has_message\": tru\n}"[..],
        &b"{} {}"[..],
    ] {
        assert_eq!(invalid_json(read_reply(body, Some(1))), serde_error(body));
    }
    assert_eq!(invalid_json(read_reply(b"{\n  \"has_message\": x\n}", None)).1, 2);
}

#[test]
fn error_texts() {
    assert_eq!(PollError::Status(404).describe(), "HTTP 404");
    assert_eq!(PollError::Status(500).describe(), "HTTP 500");
    let e = read_reply(b"", None).unwrap_err();
    assert_eq!(e.describe(), "EOF while parsing a value at line 1 column 0");
    assert_eq!(PollError::Connection("timeout".to_string()).describe(), "timeout");
}

#[test]
fn status_codes() {
    assert!(check_status(200).is_ok());
    assert!(matches!(check_status(404), Err(PollError::Status(404))));
    assert!(matches!(check_status(500), Err(PollError::Status(500))));
}

#[test]
fn body_reads() {
    let mut body = Vec::new();
    assert!(absorb_read(&mut body, Some(b"abc")));
    assert!(absorb_read(&mut body, Some(b"de")));
    assert!(!absorb_read(&mut body, Some(b"")));
    assert_eq!(body, b"abcde");
    assert!(!absorb_read(&mut body, None));
    assert_eq!(body, b"abcde");
}

#[test]
fn poller_tracks_last_message() {
    let mut p = Poller::new();
    assert_eq!(p.next_url(), format!("{}0", BASE));
    let m = Message { content: "Salut".to_string(), kind: "text".to_string(), timestamp: 1700000042 };
    let shown = p.receive(Ok(Some(m)));
    assert!(matches!(shown, Some(Screen::Texts { .. })));
    assert_eq!(p.next_url(), format!("{}1700000042", BASE));
    assert!(p.receive(Ok(None)).is_none());
    assert!(p.receive(read_reply(b"nope", Some(9))).is_none());
    assert!(p.receive(Err(PollError::Status(503))).is_none());
    assert!(p.receive(Err(PollError::Connection("refused".to_string()))).is_none());
    assert_eq!(p.last_timestamp, 1700000042);
}

#[test]
fn attempts() {
    assert_eq!(ATTEMPTS, 5);
    assert_eq!(after_attempt(1, true), AttemptOutcome::Connected);
    assert_eq!(after_attempt(5, true), AttemptOutcome::Connected);
    assert_eq!(after_attempt(1, false), AttemptOutcome::Retry);
    assert_eq!(after_attempt(4, false), AttemptOutcome::Retry);
    assert_eq!(after_attempt(5, false), AttemptOutcome::GiveUp);
}

#[test]
fn attempt_screen_label() {
    match wifi_attempt_screen(3) {
        Screen::Texts { items } => {
            assert_eq!(items[0].text, "WiFi...");
            assert_eq!(items[1].text, "Tentative 3/5");
        }
        other => panic!("unexpected {:?}", other),
    }
}
