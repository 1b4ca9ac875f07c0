use helium_gecko::shortcuts::{shortcut_action, InputEvent, Key, Modifiers, ShortcutAction, ShortcutHandler};

fn mods(shift: bool, ctrl: bool, alt: bool, logo: bool) -> Modifiers {
    Modifiers { shift, ctrl, alt, logo }
}

fn press(key: Key, modifiers: Modifiers) -> InputEvent {
    InputEvent::Keyboard { key: Some(key), pressed: true, modifiers }
}

fn run(event: &InputEvent) -> (bool, bool, Option<String>) {
    let handler = ShortcutHandler::new(());
    let mut quit = false;
    let mut show_slider = false;
    let mut next_url = Some("https://example.org".to_string());
    handler.process_event(event, "https://current.page", &mut quit, &mut show_slider, &mut next_url);
    (quit, show_slider, next_url)
}

#[test]
fn ctrl_q_quits() {
    let (quit, show, url) = run(&press(Key::Q, mods(false, true, false, false)));
    assert!(quit);
    assert!(!show);
    assert_eq!(url, Some("https://example.org".to_string()));
}

#[test]
fn ctrl_shift_o_shows_slider() {
    let (quit, show, url) = run(&press(Key::O, mods(true, true, false, false)));
    assert!(show);
    assert!(!quit);
    assert_eq!(url, Some("https://example.org".to_string()));
    assert_eq!(shortcut_action(&press(Key::O, mods(true, true, false, false))), Some(ShortcutAction::ShowSlider));
}

#[test]
fn ctrl_o_and_shift_o_alone_do_nothing() {
    let (quit, show, url) = run(&press(Key::O, mods(false, true, false, false)));
    assert!(!quit && !show);
    assert_eq!(url, Some("https://example.org".to_string()));
    let (quit, show, _) = run(&press(Key::O, mods(true, false, false, false)));
    assert!(!quit && !show);
    assert_eq!(shortcut_action(&press(Key::O, mods(true, true, true, false))), None);
}

#[test]
fn extra_modifier_does_nothing() {
    let (quit, show, _) = run(&press(Key::Q, mods(false, true, true, false)));
    assert!(!quit && !show);
    assert_eq!(shortcut_action(&press(Key::Q, mods(false, true, false, true))), None);
}

#[test]
fn shift_q_does_nothing() {
    assert_eq!(shortcut_action(&press(Key::Q, mods(true, false, false, false))), None);
}

#[test]
fn ctrl_n_asks_for_a_window_on_the_current_page() {
    let e = press(Key::N, mods(false, true, false, false));
    assert_eq!(shortcut_action(&e), Some(ShortcutAction::NewWindow));
    let (quit, show, url) = run(&e);
    assert!(!quit && !show);
    assert_eq!(url, Some("https://current.page".to_string()));
    let handler = ShortcutHandler::new(());
    let (mut quit, mut show, mut next) = (false, false, None);
    handler.process_event(&e, "https://a.b", &mut quit, &mut show, &mut next);
    assert_eq!(next, Some("https://a.b".to_string()));
}

#[test]
fn release_and_other_events_do_nothing() {
    let released = InputEvent::Keyboard { key: Some(Key::Q), pressed: false, modifiers: mods(false, true, false, false) };
    assert_eq!(shortcut_action(&released), None);
    let no_code = InputEvent::Keyboard { key: None, pressed: true, modifiers: mods(false, true, false, false) };
    assert_eq!(shortcut_action(&no_code), None);
    assert_eq!(shortcut_action(&InputEvent::Other), None);
    assert_eq!(shortcut_action(&press(Key::Other, mods(false, true, false, false))), None);
}

#[test]
fn flags_are_never_cleared() {
    let handler = ShortcutHandler::new(0u8);
    let mut quit = true;
    let mut show_slider = true;
    let mut next_url = None;
    handler.process_event(&InputEvent::Other, "u", &mut quit, &mut show_slider, &mut next_url);
    handler.process_event(&press(Key::O, mods(false, false, false, false)), "u", &mut quit, &mut show_slider, &mut next_url);
    assert!(quit && show_slider);
    assert_eq!(next_url, None);
}
