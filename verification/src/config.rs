use vstd::prelude::*;

verus! {

/// A window opacity, kept as the bit pattern of an IEEE-754 single-precision
/// number (1.0 is opaque). The library stores and copies opacities; the
/// renderer turns the bits back into a number and computes with it.
#[derive(Debug, Clone, Copy, PartialEq, Eq, Structural)]
pub struct Opacity {
    pub bits: u32,
}

/// The bit pattern of 0.92 in single precision, the opacity of a new window.
pub const DEFAULT_OPACITY_BITS: u32 = 0x3f6b_851f;

/// The page a window opens when no other is given.
pub open spec fn spec_default_start_url() -> Seq<char> {
    "https://www.youtube.com"@
}

/// A key combination and the name of the action that it triggers.
#[derive(Debug, Clone)]
pub struct ShortcutDef {
    pub keys: String,
    pub action: String,
}

/// The user's settings.
#[derive(Debug, Clone)]
pub struct Config {
    pub default_opacity: Opacity,
    pub always_on_top: bool,
    pub frameless: bool,
    pub enable_transparency: bool,
    pub start_url: String,
    /// Where the browser engine keeps its cache: the bytes of the path as the
    /// operating system encodes it, so that any path the system accepts is
    /// kept unchanged.
    pub cache_dir: Vec<u8>,
    pub window_width: u32,
    pub window_height: u32,
    pub shortcuts: Vec<ShortcutDef>,
}

/// What was found where a settings or session file should be.
pub enum StoredFile<T> {
    /// There is no file.
    Missing,
    /// There is a file, but its contents do not describe a value.
    Invalid,
    /// The file describes this value.
    Parsed(T),
}

/// The settings that hold before the user changes any, with the given cache
/// directory: a 0.92-opaque, frameless, transparent, always-on-top
/// 1200 x 900 window on YouTube, where Ctrl+Q quits and Ctrl+Shift+O toggles
/// the opacity slider.
///
/// The shortcut list is descriptive data for the user: the shortcut handler
/// does not consult it, but binds the same keys (see
/// `shortcuts::spec_shortcut_action`).
pub open spec fn is_default_config(c: Config, cache_dir: Seq<u8>) -> bool {
    &&& c.default_opacity == Opacity { bits: DEFAULT_OPACITY_BITS }
    &&& c.always_on_top
    &&& c.frameless
    &&& c.enable_transparency
    &&& c.start_url@ == spec_default_start_url()
    &&& c.cache_dir@ == cache_dir
    &&& c.window_width == 1200
    &&& c.window_height == 900
    &&& c.shortcuts@.len() == 2
    &&& c.shortcuts@[0].keys@ == "Ctrl+Q"@
    &&& c.shortcuts@[0].action@ == "quit"@
    &&& c.shortcuts@[1].keys@ == "Ctrl+Shift+O"@
    &&& c.shortcuts@[1].action@ == "toggle_opacity_slider"@
}

fn shortcut(keys: &str, action: &str) -> (s: ShortcutDef)
    ensures
        s.keys@ == keys@,
        s.action@ == action@,
{
    ShortcutDef { keys: keys.to_owned(), action: action.to_owned() }
}

impl Config {
    /// The default settings, with the engine's cache kept in `cache_dir`.
    pub fn default_with_cache_dir(cache_dir: Vec<u8>) -> (c: Config)
        ensures
            is_default_config(c, cache_dir@),
            c.default_opacity.bits == 0x3f6b_851f,
            c.always_on_top && c.frameless && c.enable_transparency,
            c.start_url@ == "https://www.youtube.com"@,
            c.cache_dir@ == cache_dir@,
            c.window_width == 1200 && c.window_height == 900,
            c.shortcuts@.len() == 2,
    {
        let mut shortcuts: Vec<ShortcutDef> = Vec::new();
        shortcuts.push(shortcut("Ctrl+Q", "quit"));
        shortcuts.push(shortcut("Ctrl+Shift+O", "toggle_opacity_slider"));
        Config {
            default_opacity: Opacity { bits: DEFAULT_OPACITY_BITS },
            always_on_top: true,
            frameless: true,
            enable_transparency: true,
            start_url: "https://www.youtube.com".to_owned(),
            cache_dir,
            window_width: 1200,
            window_height: 900,
            shortcuts,
        }
    }

    /// Decides the settings from what was found in the settings file. The
    /// result's second part says whether the defaults are to be written to
    /// the file, which happens exactly when there was none.
    pub fn load(stored: StoredFile<Config>, cache_dir: Vec<u8>) -> (r: (Config, bool))
        ensures
            match stored {
                StoredFile::Parsed(c) => r == (c, false),
                StoredFile::Invalid => is_default_config(r.0, cache_dir@) && !r.1,
                StoredFile::Missing => is_default_config(r.0, cache_dir@) && r.1,
            },
    {
        match stored {
            StoredFile::Parsed(c) => (c, false),
            StoredFile::Invalid => (Config::default_with_cache_dir(cache_dir), false),
            StoredFile::Missing => (Config::default_with_cache_dir(cache_dir), true),
        }
    }
}

} // verus!
