use helium_gecko::ipc::{assemble_message, is_valid_utf8};
use std::io::BufRead;

fn msg(data: &[u8]) -> Vec<u8> {
    assemble_message(data)
}

#[test]
fn single_line_arrives_unchanged() {
    let sent = br#"{"windows":[],"last_update":"x"}"#;
    assert_eq!(msg(sent), sent.to_vec());
}

#[test]
fn lines_are_joined_without_breaks() {
    assert_eq!(msg(b"ab\ncd\n"), b"abcd".to_vec());
    assert_eq!(msg(b"ab\r\ncd\r\nef"), b"abcdef".to_vec());
    assert_eq!(msg(b"\n\n"), Vec::<u8>::new());
    assert_eq!(msg(b""), Vec::<u8>::new());
}

#[test]
fn carriage_return_kept_without_line_feed() {
    assert_eq!(msg(b"ab\r"), b"ab\r".to_vec());
    assert_eq!(msg(b"a\rb\n"), b"a\rb".to_vec());
}

#[test]
fn invalid_utf8_lines_are_dropped() {
    assert_eq!(msg(b"ok\n\xff\xfe\nend"), b"okend".to_vec());
    assert_eq!(msg(b"\xc3\n"), Vec::<u8>::new());
    let accented = "caf\u{e9}\n\u{1f600}".as_bytes();
    assert_eq!(msg(accented), "caf\u{e9}\u{1f600}".as_bytes().to_vec());
}

#[test]
fn matches_std_lines() {
    let samples: [&[u8]; 5] = [b"a\r\nb", b"x\n\xed\xa0\x80\ny", b"\xf0\x9f\x98\x80\r\n", b"\xc0\xaf\nz", b"\r\n\r"];
    for data in samples {
        let mut expected = String::new();
        for line in std::io::Cursor::new(data).lines() {
            if let Ok(line) = line {
                expected.push_str(&line);
            }
        }
        assert_eq!(msg(data), expected.into_bytes());
    }
}

#[test]
fn utf8_validity() {
    let d = "h\u{e9}\u{800}\u{10ffff}".as_bytes();
    assert!(is_valid_utf8(d, 0, d.len()));
    assert!(!is_valid_utf8(b"\xed\xa0\x80", 0, 3));
    assert!(!is_valid_utf8(b"\xc0\x80", 0, 2));
    assert!(!is_valid_utf8(b"\xf4\x90\x80\x80", 0, 4));
    assert!(is_valid_utf8(b"\xff", 0, 0));
    assert!(!is_valid_utf8("\u{e9}".as_bytes(), 0, 1));
}

#[test]
fn assembled_message_has_no_line_feed_and_is_stable() {
    let samples: [&[u8]; 4] = [b"a\nb\r\nc", b"\xff\n\xe2\x82\xac\n", b"\r\r\n\n", b"{\"k\":\"v\"}\n"];
    for data in samples {
        let once = assemble_message(data);
        assert!(!once.contains(&b'\n'));
        assert!(String::from_utf8(once.clone()).is_ok());
        assert_eq!(assemble_message(&once), once);
    }
}

#[test]
fn line_breaks_between_lines_vanish() {
    assert_eq!(msg(b"{\"a\":1,\r\n\"b\":[2,\n3]}"), b"{\"a\":1,\"b\":[2,3]}".to_vec());
    assert_eq!(msg(b"x\r\ny\nz"), msg(b"xyz"));
}

#[test]
fn pretty_and_compact_json_assemble_to_the_same_value() {
    let text = r#"{"windows":[{"url":"https://a.b","opacity":0.5,"x":1,"y":2,"width":3,"height":4}],"last_update":"t"}"#;
    let value: serde_json::Value = serde_json::from_str(text).unwrap();
    let compact = serde_json::to_string(&value).unwrap();
    let pretty = serde_json::to_string_pretty(&value).unwrap();
    assert_eq!(msg(compact.as_bytes()), compact.as_bytes().to_vec());
    let from_pretty: serde_json::Value = serde_json::from_slice(&msg(pretty.as_bytes())).unwrap();
    let from_compact: serde_json::Value = serde_json::from_slice(&msg(compact.as_bytes())).unwrap();
    assert_eq!(from_pretty, value);
    assert_eq!(from_compact, value);
}
