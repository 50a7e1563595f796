//! Persistent user preferences and the color-mode choice.
//!
//! Volume is kept as a whole percent (`0..=100`): the settings dialog edits it
//! in whole steps and the player moves it by one percent at a time.
use vstd::prelude::*;

verus! {

/// How colors are chosen for the UI.
///
/// The built-in themes are 24-bit RGB, which a tty renders wrongly, so without
/// truecolor the UI falls back to a named-ANSI console theme.
#[derive(Debug, Clone, Copy, PartialEq, Eq, Structural)]
pub enum ColorMode {
    /// Detect truecolor support from the environment.
    Auto,
    /// Force full 24-bit color, using the selected RGB theme.
    Truecolor,
    /// Force the 16-color console fallback theme.
    Ansi16,
}

impl ColorMode {
    pub open spec fn truecolor_spec(self, detected: bool) -> bool {
        match self {
            ColorMode::Auto => detected,
            ColorMode::Truecolor => true,
            ColorMode::Ansi16 => false,
        }
    }

    /// Whether truecolor is effectively active, given what auto-detection found.
    #[verifier::when_used_as_spec(truecolor_spec)]
    pub fn truecolor(self, detected: bool) -> (r: bool)
        ensures
            r == self.truecolor_spec(detected),
    {
        match self {
            ColorMode::Auto => detected,
            ColorMode::Truecolor => true,
            ColorMode::Ansi16 => false,
        }
    }

    pub open spec fn override_for_spec(detected: bool) -> ColorMode {
        if detected {
            ColorMode::Ansi16
        } else {
            ColorMode::Truecolor
        }
    }

    /// The only override worth offering, given what detection found: forcing
    /// the mode detection already picked is indistinguishable from `Auto`.
    pub fn override_for(detected: bool) -> (r: ColorMode)
        ensures
            r == Self::override_for_spec(detected),
            r.truecolor_spec(detected) != detected,
    {
        if detected {
            ColorMode::Ansi16
        } else {
            ColorMode::Truecolor
        }
    }

    pub open spec fn toggle_spec(self, detected: bool) -> ColorMode {
        match self {
            ColorMode::Auto => Self::override_for_spec(detected),
            _ => ColorMode::Auto,
        }
    }

    /// Settings offers two states, so left and right are the same toggle.
    pub fn toggle(self, detected: bool) -> (r: ColorMode)
        ensures
            r == self.toggle_spec(detected),
    {
        match self {
            ColorMode::Auto => Self::override_for(detected),
            _ => ColorMode::Auto,
        }
    }

    /// Name shown in the settings dialog.
    pub fn label(self) -> (r: &'static str)
        ensures
            r@ == (match self {
                ColorMode::Auto => "auto"@,
                ColorMode::Truecolor => "truecolor"@,
                ColorMode::Ansi16 => "16-color"@,
            }),
    {
        match self {
            ColorMode::Auto => "auto",
            ColorMode::Truecolor => "truecolor",
            ColorMode::Ansi16 => "16-color",
        }
    }
}

/// The color-mode toggle: from Auto it switches to the mode detection did
/// not pick, so the effective mode flips; from a forced mode it goes back
/// to Auto, and toggling twice from Auto comes back to Auto.
pub proof fn lemma_color_toggle(m: ColorMode, detected: bool)
    ensures
        m == ColorMode::Auto ==> m.toggle_spec(detected).truecolor_spec(detected) == !detected,
        m == ColorMode::Auto ==> m.toggle_spec(detected).toggle_spec(detected) == ColorMode::Auto,
        m != ColorMode::Auto ==> m.toggle_spec(detected) == ColorMode::Auto,
        ColorMode::Auto.truecolor_spec(detected) == detected,
        ColorMode::Truecolor.truecolor_spec(detected),
        !ColorMode::Ansi16.truecolor_spec(detected),
{
}

impl Default for ColorMode {
    fn default() -> (r: ColorMode)
        ensures
            r == ColorMode::Auto,
    {
        ColorMode::Auto
    }
}

/// Console theme used until one is chosen.
pub fn default_console_theme() -> (r: String)
    ensures
        r@ == "native"@,
{
    "native".to_owned()
}

/// Bumped only on an incompatible change. Informational: every field defaults
/// independently, so a file missing keys simply gains them.
pub const SETTINGS_VERSION: u32 = 1;

pub fn default_version() -> (r: u32)
    ensures
        r == SETTINGS_VERSION,
{
    SETTINGS_VERSION
}

/// Starting volume, in percent.
pub fn default_volume() -> (r: u32)
    ensures
        r == 70,
{
    70
}

pub fn default_seek() -> (r: u64)
    ensures
        r == 1,
{
    1
}

pub fn default_true() -> (r: bool)
    ensures
        r,
{
    true
}

pub fn default_theme() -> (r: String)
    ensures
        r@ == "dark"@,
{
    "dark".to_owned()
}

/// Persistent user preferences.
///
/// Every field defaults independently, so a missing key is filled in without
/// disturbing the rest. Field order matches the settings modal.
#[derive(Debug, Clone)]
pub struct Settings {
    /// Schema version of the file these were read from.
    pub version: u32,
    /// Volume applied when audium starts, in percent (`0..=100`).
    pub default_volume: u32,
    /// How many seconds <- / -> seek by.
    pub seek_step_secs: u64,
    /// Remember the session across restarts.
    pub resume_playback: bool,
    pub color_mode: ColorMode,
    /// Active truecolor theme.
    pub theme_name: String,
    /// Active console theme. Kept apart from `theme_name` so switching color
    /// modes does not overwrite either choice.
    pub console_theme_name: String,
    /// Whether background transparency is enabled.
    pub transparent: bool,
}

impl Default for Settings {
    fn default() -> (r: Settings)
        ensures
            r.version == SETTINGS_VERSION,
            r.default_volume == 70,
            r.seek_step_secs == 1,
            r.resume_playback,
            r.color_mode == ColorMode::Auto,
            r.theme_name@ == "dark"@,
            r.console_theme_name@ == "native"@,
            !r.transparent,
    {
        Settings {
            version: SETTINGS_VERSION,
            default_volume: 70,
            seek_step_secs: 1,
            resume_playback: true,
            color_mode: ColorMode::Auto,
            theme_name: default_theme(),
            console_theme_name: default_console_theme(),
            transparent: false,
        }
    }
}

impl Settings {
    /// Sets the start-up volume, clamped to `0..=100` percent.
    pub fn set_default_volume(&mut self, v: u32)
        ensures
            final(self).default_volume == if v <= 100 {
                v
            } else {
                100
            },
            final(self).seek_step_secs == old(self).seek_step_secs,
            final(self).theme_name == old(self).theme_name,
            final(self).console_theme_name == old(self).console_theme_name,
            final(self).color_mode == old(self).color_mode,
            final(self).transparent == old(self).transparent,
            final(self).resume_playback == old(self).resume_playback,
            final(self).version == old(self).version,
    {
        self.default_volume = if v <= 100 {
            v
        } else {
            100
        };
    }

    /// Sets the seek step, clamped to `1..=120` seconds.
    pub fn set_seek_step_secs(&mut self, s: u64)
        ensures
            final(self).seek_step_secs == if s < 1 {
                1
            } else if s > 120 {
                120
            } else {
                s
            },
            final(self).default_volume == old(self).default_volume,
            final(self).theme_name == old(self).theme_name,
            final(self).console_theme_name == old(self).console_theme_name,
            final(self).color_mode == old(self).color_mode,
            final(self).transparent == old(self).transparent,
            final(self).resume_playback == old(self).resume_playback,
            final(self).version == old(self).version,
    {
        self.seek_step_secs = if s < 1 {
            1
        } else if s > 120 {
            120
        } else {
            s
        };
    }

    pub fn set_theme(&mut self, name: &str)
        ensures
            final(self).theme_name@ == name@,
            final(self).default_volume == old(self).default_volume,
            final(self).seek_step_secs == old(self).seek_step_secs,
            final(self).console_theme_name == old(self).console_theme_name,
            final(self).color_mode == old(self).color_mode,
            final(self).transparent == old(self).transparent,
            final(self).resume_playback == old(self).resume_playback,
            final(self).version == old(self).version,
    {
        self.theme_name = name.to_owned();
    }

    pub fn set_console_theme(&mut self, name: &str)
        ensures
            final(self).console_theme_name@ == name@,
            final(self).default_volume == old(self).default_volume,
            final(self).seek_step_secs == old(self).seek_step_secs,
            final(self).theme_name == old(self).theme_name,
            final(self).color_mode == old(self).color_mode,
            final(self).transparent == old(self).transparent,
            final(self).resume_playback == old(self).resume_playback,
            final(self).version == old(self).version,
    {
        self.console_theme_name = name.to_owned();
    }
}

} // verus!
