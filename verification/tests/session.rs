use helium_gecko::config::{Opacity, StoredFile};
use helium_gecko::session::{SessionState, WindowState};

fn window(url: &str, x: i32) -> WindowState {
    WindowState { url: url.to_string(), opacity: Opacity { bits: 1.0f32.to_bits() }, x, y: 5, width: 800, height: 600 }
}

#[test]
fn default_session_is_empty() {
    let s = SessionState::default();
    assert!(s.windows.is_empty());
    assert_eq!(s.last_update, "");
}

#[test]
fn load_or_default_cases() {
    assert!(SessionState::load_or_default(StoredFile::Missing).windows.is_empty());
    assert!(SessionState::load_or_default(StoredFile::Invalid).windows.is_empty());
    let stored = SessionState { windows: vec![window("a", 1)], last_update: "t".to_string() };
    let s = SessionState::load_or_default(StoredFile::Parsed(stored));
    assert_eq!(s.windows.len(), 1);
    assert_eq!(s.windows[0].url, "a");
    assert_eq!(s.last_update, "t");
}

#[test]
fn record_window_appends() {
    let mut s = SessionState { windows: vec![window("a", 1)], last_update: "t".to_string() };
    s.record_window(window("b", 2));
    assert_eq!(s.windows.len(), 2);
    assert_eq!(s.windows[0].url, "a");
    assert_eq!(s.windows[1].url, "b");
    assert_eq!(s.windows[1].x, 2);
    assert_eq!(s.last_update, "t");
}

#[test]
fn accept_update_replaces_or_keeps() {
    let mut s = SessionState { windows: vec![window("a", 1)], last_update: "t".to_string() };
    assert!(!s.accept_update(None));
    assert_eq!(s.windows.len(), 1);
    let received = SessionState { windows: vec![], last_update: "later".to_string() };
    assert!(s.accept_update(Some(received)));
    assert!(s.windows.is_empty());
    assert_eq!(s.last_update, "later");
}

#[test]
fn last_readable_update_wins() {
    let mut s = SessionState::default();
    let first = SessionState { windows: vec![window("a", 1)], last_update: "1".to_string() };
    let second = SessionState { windows: vec![window("b", 2), window("c", 3)], last_update: "2".to_string() };
    assert!(s.accept_update(Some(first)));
    assert!(s.accept_update(Some(second)));
    assert!(!s.accept_update(None));
    assert_eq!(s.last_update, "2");
    assert_eq!(s.windows.len(), 2);
    assert_eq!(s.windows[0].url, "b");
}
