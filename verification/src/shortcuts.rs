use vstd::prelude::*;

verus! {

/// The keys that the keyboard shortcuts tell apart; every other key is `Other`.
#[derive(Debug, Clone, Copy, PartialEq, Eq, Structural)]
pub enum Key {
    Q,
    O,
    N,
    Other,
}

/// The modifier keys held during a key event.
#[derive(Debug, Clone, Copy, PartialEq, Eq, Structural)]
pub struct Modifiers {
    pub shift: bool,
    pub ctrl: bool,
    pub alt: bool,
    pub logo: bool,
}

impl Modifiers {
    /// Control alone.
    pub open spec fn is_ctrl_only(self) -> bool {
        self.ctrl && !self.shift && !self.alt && !self.logo
    }

    /// Control and Shift together, and no other modifier.
    pub open spec fn is_ctrl_shift_only(self) -> bool {
        self.ctrl && self.shift && !self.alt && !self.logo
    }
}

/// A window event, reduced to what the shortcut handler reads.
#[derive(Debug, Clone, Copy, PartialEq, Eq, Structural)]
pub enum InputEvent {
    /// A key went down (`pressed`) or up; `key` is `None` when the key has
    /// no virtual key code.
    Keyboard { key: Option<Key>, pressed: bool, modifiers: Modifiers },
    /// Any other event.
    Other,
}

/// What a keyboard shortcut asks for.
#[derive(Debug, Clone, Copy, PartialEq, Eq, Structural)]
pub enum ShortcutAction {
    /// Ctrl+Q: quit the application.
    Quit,
    /// Ctrl+Shift+O: show the opacity slider.
    ShowSlider,
    /// Ctrl+N: open a new window on the current page (the window manager
    /// opens it).
    NewWindow,
}

/// The shortcut that an event triggers, if any.
pub open spec fn spec_shortcut_action(event: InputEvent) -> Option<ShortcutAction> {
    match event {
        InputEvent::Keyboard { key: Some(key), pressed: true, modifiers } => {
            if modifiers.is_ctrl_only() && key == Key::Q {
                Some(ShortcutAction::Quit)
            } else if modifiers.is_ctrl_shift_only() && key == Key::O {
                Some(ShortcutAction::ShowSlider)
            } else if modifiers.is_ctrl_only() && key == Key::N {
                Some(ShortcutAction::NewWindow)
            } else {
                None
            }
        },
        _ => None,
    }
}

/// Whether the event is a press of `key` with Ctrl held, Shift held exactly
/// when `with_shift`, and neither Alt nor the logo key held.
pub open spec fn is_press_with_ctrl(event: InputEvent, key: Key, with_shift: bool) -> bool {
    match event {
        InputEvent::Keyboard { key: k, pressed, modifiers } => {
            &&& k == Some(key)
            &&& pressed
            &&& modifiers.ctrl
            &&& modifiers.shift == with_shift
            &&& !modifiers.alt
            &&& !modifiers.logo
        },
        InputEvent::Other => false,
    }
}

/// Quitting is asked for exactly by a press of Ctrl+Q, with no other
/// modifier: a plain Q, Shift+Q or Ctrl+Alt+Q asks for nothing of the kind.
pub proof fn law_quit_is_ctrl_q(event: InputEvent)
    ensures
        spec_shortcut_action(event) == Some(ShortcutAction::Quit) <==> is_press_with_ctrl(
            event,
            Key::Q,
            false,
        ),
{
}

/// The opacity slider is asked for exactly by a press of Ctrl+Shift+O, with
/// no other modifier: a plain O, Ctrl+O or Shift+O asks for nothing.
pub proof fn law_slider_is_ctrl_shift_o(event: InputEvent)
    ensures
        spec_shortcut_action(event) == Some(ShortcutAction::ShowSlider) <==> is_press_with_ctrl(
            event,
            Key::O,
            true,
        ),
{
}

/// A new window is asked for exactly by a press of Ctrl+N, with no other
/// modifier.
pub proof fn law_new_window_is_ctrl_n(event: InputEvent)
    ensures
        spec_shortcut_action(event) == Some(ShortcutAction::NewWindow) <==> is_press_with_ctrl(
            event,
            Key::N,
            false,
        ),
{
}

/// A key pressed without Ctrl, a released key, a key without a code and any
/// other event trigger no shortcut.
pub proof fn law_no_shortcut_without_ctrl(event: InputEvent)
    ensures
        (match event {
            InputEvent::Keyboard { key, pressed, modifiers } => !modifiers.ctrl || !pressed
                || key is None,
            InputEvent::Other => true,
        }) ==> spec_shortcut_action(event) is None,
{
}

/// Maps a window event to the keyboard shortcut it triggers.
pub fn shortcut_action(event: &InputEvent) -> (action: Option<ShortcutAction>)
    ensures
        action == spec_shortcut_action(*event),
        action == Some(ShortcutAction::Quit) <==> is_press_with_ctrl(*event, Key::Q, false),
        action == Some(ShortcutAction::ShowSlider) <==> is_press_with_ctrl(*event, Key::O, true),
        action == Some(ShortcutAction::NewWindow) <==> is_press_with_ctrl(*event, Key::N, false),
{
    match event {
        InputEvent::Keyboard { key: Some(key), pressed: true, modifiers } => {
            let ctrl_only = modifiers.ctrl && !modifiers.shift && !modifiers.alt && !modifiers.logo;
            let ctrl_shift_only = modifiers.ctrl && modifiers.shift && !modifiers.alt
                && !modifiers.logo;
            if ctrl_only && *key == Key::Q {
                Some(ShortcutAction::Quit)
            } else if ctrl_shift_only && *key == Key::O {
                Some(ShortcutAction::ShowSlider)
            } else if ctrl_only && *key == Key::N {
                Some(ShortcutAction::NewWindow)
            } else {
                None
            }
        },
        _ => None,
    }
}

/// Turns keyboard events into application flags. `S` is the handle on the
/// shared session state that the handler keeps for the window manager.
pub struct ShortcutHandler<S> {
    session: S,
}

impl<S> ShortcutHandler<S> {
    /// A handler that keeps the given session handle.
    pub fn new(session: S) -> (handler: Self)
        ensures
            handler.session() == session,
    {
        ShortcutHandler { session }
    }

    /// The session handle given at construction.
    pub closed spec fn session(&self) -> S {
        self.session
    }

    /// Applies one event: Ctrl+Q sets `quit`, Ctrl+Shift+O sets
    /// `show_slider`, and Ctrl+N asks the window manager for a new window by
    /// setting `next_url` to a copy of `current_url`, the page of the window
    /// that got the event. No event clears a flag; every other event changes
    /// nothing.
    pub fn process_event(
        &self,
        event: &InputEvent,
        current_url: &str,
        quit: &mut bool,
        show_slider: &mut bool,
        next_url: &mut Option<String>,
    )
        ensures
            *final(quit) == (*old(quit) || is_press_with_ctrl(*event, Key::Q, false)),
            *final(show_slider) == (*old(show_slider) || is_press_with_ctrl(*event, Key::O, true)),
            *final(quit) == (*old(quit) || spec_shortcut_action(*event) == Some(ShortcutAction::Quit)),
            *final(show_slider) == (*old(show_slider) || spec_shortcut_action(*event) == Some(
                ShortcutAction::ShowSlider,
            )),
            spec_shortcut_action(*event) == Some(ShortcutAction::NewWindow) ==> match *final(next_url) {
                Some(url) => url@ == current_url@,
                None => false,
            },
            spec_shortcut_action(*event) != Some(ShortcutAction::NewWindow) ==> *final(next_url)
                == *old(next_url),
    {
        match shortcut_action(event) {
            Some(ShortcutAction::Quit) => {
                *quit = true;
            },
            Some(ShortcutAction::ShowSlider) => {
                *show_slider = true;
            },
            Some(ShortcutAction::NewWindow) => {
                *next_url = Some(current_url.to_owned());
            },
            None => {},
        }
    }
}

} // verus!
