use vstd::prelude::*;
use crate::config::Config;
use crate::platform::WindowAttributes;
use crate::session::WindowState;

verus! {

/// The title of every window.
pub open spec fn spec_window_title() -> Seq<char> {
    "Helium"@
}

/// The attributes of a new window under the given settings, before the
/// platform's additions.
pub open spec fn is_window_attributes_for(a: WindowAttributes, config: Config) -> bool {
    &&& a.title@ == spec_window_title()
    &&& a.decorations == !config.frameless
    &&& a.transparent == config.enable_transparency
    &&& a.always_on_top == config.always_on_top
    &&& a.width == config.window_width
    &&& a.height == config.window_height
}

/// Each attribute of a new window is the setting that names it: a frame
/// exactly when the settings are not frameless, and the configured width,
/// height, transparency and always-on-top, whatever the other settings.
pub proof fn law_window_follows_settings(a: WindowAttributes, config: Config)
    requires
        is_window_attributes_for(a, config),
    ensures
        a.decorations == !config.frameless,
        a.width == config.window_width,
        a.height == config.window_height,
        a.transparent == config.enable_transparency,
        a.always_on_top == config.always_on_top,
        a.title@ == "Helium"@,
{
}

/// How a new window is to be built under the given settings: titled
/// "Helium", framed unless the settings make it frameless, transparent and
/// always on top as they say, of their size.
pub fn window_attributes(config: &Config) -> (a: WindowAttributes)
    ensures
        is_window_attributes_for(a, *config),
        a.title@ == "Helium"@,
        a.decorations == !config.frameless,
        a.transparent == config.enable_transparency,
        a.always_on_top == config.always_on_top,
        a.width == config.window_width,
        a.height == config.window_height,
{
    WindowAttributes {
        title: "Helium".to_owned(),
        decorations: !config.frameless,
        transparent: config.enable_transparency,
        always_on_top: config.always_on_top,
        width: config.window_width,
        height: config.window_height,
    }
}

/// What the session records of a window just opened on `url` at (`x`, `y`):
/// the settings' default opacity and window size.
pub fn new_window_state(config: &Config, url: &str, x: i32, y: i32) -> (w: WindowState)
    ensures
        w.url@ == url@,
        w.opacity == config.default_opacity,
        w.x == x,
        w.y == y,
        w.width == config.window_width,
        w.height == config.window_height,
{
    WindowState {
        url: url.to_owned(),
        opacity: config.default_opacity,
        x,
        y,
        width: config.window_width,
        height: config.window_height,
    }
}

} // verus!
