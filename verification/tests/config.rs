use helium_gecko::config::{Config, Opacity, StoredFile, DEFAULT_OPACITY_BITS};

fn assert_default(c: &Config, cache_dir: &[u8]) {
    assert_eq!(f32::from_bits(c.default_opacity.bits), 0.92f32);
    assert!(c.always_on_top);
    assert!(c.frameless);
    assert!(c.enable_transparency);
    assert_eq!(c.start_url, "https://www.youtube.com");
    assert_eq!(c.cache_dir, cache_dir);
    assert_eq!(c.window_width, 1200);
    assert_eq!(c.window_height, 900);
    assert_eq!(c.shortcuts.len(), 2);
    assert_eq!(c.shortcuts[0].keys, "Ctrl+Q");
    assert_eq!(c.shortcuts[0].action, "quit");
    assert_eq!(c.shortcuts[1].keys, "Ctrl+Shift+O");
    assert_eq!(c.shortcuts[1].action, "toggle_opacity_slider");
}

#[test]
fn default_settings() {
    let c = Config::default_with_cache_dir(b"/home/u/.cache/helium".to_vec());
    assert_default(&c, b"/home/u/.cache/helium");
    assert_eq!(DEFAULT_OPACITY_BITS, 0.92f32.to_bits());
}

#[test]
fn load_missing_gives_defaults_to_write() {
    let (c, write) = Config::load(StoredFile::Missing, b"/c".to_vec());
    assert_default(&c, b"/c");
    assert!(write);
}

#[test]
fn load_invalid_gives_defaults_not_written() {
    let (c, write) = Config::load(StoredFile::Invalid, b"/c".to_vec());
    assert_default(&c, b"/c");
    assert!(!write);
}

#[test]
fn load_parsed_keeps_file() {
    let mut stored = Config::default_with_cache_dir(b"/stored".to_vec());
    stored.window_width = 640;
    stored.default_opacity = Opacity { bits: 0.5f32.to_bits() };
    stored.shortcuts.clear();
    let (c, write) = Config::load(StoredFile::Parsed(stored), b"/other".to_vec());
    assert!(!write);
    assert_eq!(c.window_width, 640);
    assert_eq!(c.cache_dir, b"/stored".to_vec());
    assert_eq!(f32::from_bits(c.default_opacity.bits), 0.5);
    assert!(c.shortcuts.is_empty());
}

#[test]
fn non_utf8_cache_dir_is_kept() {
    let raw = vec![b'/', b't', 0xff, 0xfe, b'x'];
    let c = Config::default_with_cache_dir(raw.clone());
    assert_eq!(c.cache_dir, raw);
}
