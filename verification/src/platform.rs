use vstd::prelude::*;
use crate::config::Config;

verus! {

/// How a new window is to be built.
#[derive(Debug, Clone)]
pub struct WindowAttributes {
    pub title: String,
    /// Whether the window has a frame and title bar.
    pub decorations: bool,
    pub transparent: bool,
    pub always_on_top: bool,
    pub width: u32,
    pub height: u32,
}

/// The attributes after the platform's additions: a transparent window is
/// asked for whenever the settings enable transparency.
pub open spec fn spec_window_extras(attributes: WindowAttributes, config: Config) -> WindowAttributes {
    if config.enable_transparency {
        WindowAttributes { transparent: true, ..attributes }
    } else {
        attributes
    }
}

/// The platform's extras touch transparency alone: the window becomes
/// transparent when the settings enable it and stays as built otherwise, and
/// its title, frame, always-on-top and size are kept.
pub proof fn law_extras_touch_transparency_only(attributes: WindowAttributes, config: Config)
    ensures
        spec_window_extras(attributes, config).transparent == (attributes.transparent
            || config.enable_transparency),
        spec_window_extras(attributes, config).title == attributes.title,
        spec_window_extras(attributes, config).decorations == attributes.decorations,
        spec_window_extras(attributes, config).always_on_top == attributes.always_on_top,
        spec_window_extras(attributes, config).width == attributes.width,
        spec_window_extras(attributes, config).height == attributes.height,
{
}

/// Adds what the platform needs to the window's attributes.
pub fn apply_window_extras(attributes: WindowAttributes, config: &Config) -> (r: WindowAttributes)
    ensures
        r == spec_window_extras(attributes, *config),
        r.transparent == (attributes.transparent || config.enable_transparency),
        r.title == attributes.title,
        r.decorations == attributes.decorations,
        r.always_on_top == attributes.always_on_top,
        r.width == attributes.width,
        r.height == attributes.height,
{
    let mut attributes = attributes;
    if config.enable_transparency {
        attributes.transparent = true;
    }
    attributes
}

/// Adding the platform's attributes a second time changes nothing.
pub proof fn lemma_window_extras_idempotent(attributes: WindowAttributes, config: Config)
    ensures
        spec_window_extras(spec_window_extras(attributes, config), config) == spec_window_extras(
            attributes,
            config,
        ),
{
}

} // verus!
