//! User settings: the enums that describe a click run, the `Settings` record and
//! the clamping that makes hand-edited values safe for the engine.

use vstd::prelude::*;

verus! {

/// Which mouse button a click presses.
#[derive(Debug, Clone, Copy, PartialEq, Eq, Structural, Default)]
pub enum MouseButton {
    #[default]
    Left,
    Right,
    Middle,
}

impl MouseButton {
    /// The name shown for this button.
    pub open spec fn label_text(self) -> Seq<char> {
        match self {
            MouseButton::Left => "Left"@,
            MouseButton::Right => "Right"@,
            MouseButton::Middle => "Middle"@,
        }
    }

    pub fn label(self) -> (text: &'static str)
        ensures
            text@ == self.label_text(),
    {
        match self {
            MouseButton::Left => "Left",
            MouseButton::Right => "Right",
            MouseButton::Middle => "Middle",
        }
    }
}

/// How one trigger presses the button.
#[derive(Debug, Clone, Copy, PartialEq, Eq, Structural, Default)]
pub enum ClickStyle {
    #[default]
    Single,
    Double,
    Hold,
}

impl ClickStyle {
    /// The name shown for this style.
    pub open spec fn label_text(self) -> Seq<char> {
        match self {
            ClickStyle::Single => "Single"@,
            ClickStyle::Double => "Double"@,
            ClickStyle::Hold => "Hold"@,
        }
    }

    pub fn label(self) -> (text: &'static str)
        ensures
            text@ == self.label_text(),
    {
        match self {
            ClickStyle::Single => "Single",
            ClickStyle::Double => "Double",
            ClickStyle::Hold => "Hold",
        }
    }
}

/// How the gap between two triggers is chosen.
#[derive(Debug, Clone, Copy, PartialEq, Eq, Structural, Default)]
pub enum TimingMode {
    /// Every interval is exactly `interval_ms`.
    #[default]
    Fixed,
    /// Uniformly random between `interval_min_ms` and `interval_max_ms`.
    Uniform,
    /// Normally distributed around `interval_mean_ms` (clamped to +-4 sigma).
    Normal,
}

impl TimingMode {
    /// The name shown for this timing mode.
    pub open spec fn label_text(self) -> Seq<char> {
        match self {
            TimingMode::Fixed => "Fixed"@,
            TimingMode::Uniform => "Random"@,
            TimingMode::Normal => "Human-like"@,
        }
    }

    pub fn label(self) -> (text: &'static str)
        ensures
            text@ == self.label_text(),
    {
        match self {
            TimingMode::Fixed => "Fixed",
            TimingMode::Uniform => "Random",
            TimingMode::Normal => "Human-like",
        }
    }
}

/// Where clicks land.
#[derive(Debug, Clone, Copy, PartialEq, Eq, Structural, Default)]
pub enum PositionMode {
    /// Follow the pointer: click wherever it already is, without moving it.
    #[default]
    Cursor,
    /// A fixed screen point, re-visited before every click.
    Fixed,
}

/// The shape of the random spread around the target.
#[derive(Debug, Clone, Copy, PartialEq, Eq, Structural, Default)]
pub enum JitterMode {
    #[default]
    Off,
    Rectangle,
    Ellipse,
    Normal,
}

impl JitterMode {
    /// The name shown for this jitter shape.
    pub open spec fn label_text(self) -> Seq<char> {
        match self {
            JitterMode::Off => "Off"@,
            JitterMode::Rectangle => "Box"@,
            JitterMode::Ellipse => "Ellipse"@,
            JitterMode::Normal => "Spread"@,
        }
    }

    pub fn label(self) -> (text: &'static str)
        ensures
            text@ == self.label_text(),
    {
        match self {
            JitterMode::Off => "Off",
            JitterMode::Rectangle => "Box",
            JitterMode::Ellipse => "Ellipse",
            JitterMode::Normal => "Spread",
        }
    }
}

/// Window colour scheme.
#[derive(Debug, Clone, Copy, PartialEq, Eq, Structural, Default)]
pub enum Theme {
    #[default]
    Dark,
    Light,
}

/// Everything the clicker needs.
#[derive(Debug, PartialEq, Eq)]
pub struct Settings {
    // Clicking
    pub button: MouseButton,
    pub style: ClickStyle,
    pub hold_ms: u32,
    // Timing
    pub timing: TimingMode,
    pub interval_ms: u32,
    pub interval_min_ms: u32,
    pub interval_max_ms: u32,
    pub interval_mean_ms: u32,
    pub interval_std_ms: u32,
    pub start_delay_ms: u32,
    // Position
    pub position: PositionMode,
    pub point: (i32, i32),
    pub jitter: JitterMode,
    pub jitter_x: u32,
    pub jitter_y: u32,
    // Limits
    pub max_clicks: u64,
    pub max_seconds: u32,
    pub stop_on_move_px: u32,
    // Hotkeys, stored in the `HotKey` string form ("F6", "Ctrl+Shift+K").
    pub hotkey_toggle: String,
    pub hotkey_capture: String,
    // Window
    pub theme: Theme,
    pub always_on_top: bool,
}

/// Longest hold of a press-and-hold click, in milliseconds.
pub const MAX_HOLD_MS: u32 = 60_000;
/// Longest interval of any timing mode, in milliseconds (ten minutes).
pub const MAX_INTERVAL_MS: u32 = 600_000;
/// Longest start delay, in milliseconds (one day).
pub const MAX_START_DELAY_MS: u32 = 86_400_000;
/// Widest jitter and stop-on-move distance, in pixels.
pub const MAX_PIXELS: u32 = 10_000;
/// Longest time limit, in seconds (one day).
pub const MAX_SECONDS: u32 = 86_400;

/// `v` brought into `lo..=hi`.
pub open spec fn clamped(v: int, lo: int, hi: int) -> int {
    if v < lo {
        lo
    } else if v > hi {
        hi
    } else {
        v
    }
}

/// The smaller of two integers.
pub open spec fn smaller(a: int, b: int) -> int {
    if a <= b {
        a
    } else {
        b
    }
}

impl Settings {
    /// The values that `Settings::default` produces.
    pub open spec fn is_default(self) -> bool {
        &&& self.button == MouseButton::Left
        &&& self.style == ClickStyle::Single
        &&& self.hold_ms == 40
        &&& self.timing == TimingMode::Uniform
        &&& self.interval_ms == 100
        &&& self.interval_min_ms == 40
        &&& self.interval_max_ms == 120
        &&& self.interval_mean_ms == 100
        &&& self.interval_std_ms == 25
        &&& self.start_delay_ms == 0
        &&& self.position == PositionMode::Cursor
        &&& self.point == (0i32, 0i32)
        &&& self.jitter == JitterMode::Off
        &&& self.jitter_x == 4
        &&& self.jitter_y == 4
        &&& self.max_clicks == 0
        &&& self.max_seconds == 0
        &&& self.stop_on_move_px == 0
        &&& self.hotkey_toggle@ == "F6"@
        &&& self.hotkey_capture@ == "F7"@
        &&& self.theme == Theme::Dark
        &&& !self.always_on_top
    }

    /// Every value lies in the range the engine relies on.
    pub open spec fn is_sane(self) -> bool {
        &&& 1 <= self.hold_ms <= MAX_HOLD_MS
        &&& 1 <= self.interval_ms <= MAX_INTERVAL_MS
        &&& 1 <= self.interval_min_ms <= self.interval_max_ms <= MAX_INTERVAL_MS
        &&& 1 <= self.interval_mean_ms <= MAX_INTERVAL_MS
        &&& self.interval_std_ms <= self.interval_mean_ms
        &&& self.start_delay_ms <= MAX_START_DELAY_MS
        &&& self.jitter_x <= MAX_PIXELS
        &&& self.jitter_y <= MAX_PIXELS
        &&& self.max_seconds <= MAX_SECONDS
        &&& self.stop_on_move_px <= MAX_PIXELS
    }

    /// `self` with every numeric value clamped into range: an inverted
    /// min/max pair is swapped, and sigma never exceeds the mean.
    pub open spec fn sanitized(self) -> Settings {
        let lo = clamped(self.interval_min_ms as int, 1, MAX_INTERVAL_MS as int);
        let hi = clamped(self.interval_max_ms as int, 1, MAX_INTERVAL_MS as int);
        let mean = clamped(self.interval_mean_ms as int, 1, MAX_INTERVAL_MS as int);
        Settings {
            hold_ms: clamped(self.hold_ms as int, 1, MAX_HOLD_MS as int) as u32,
            interval_ms: clamped(self.interval_ms as int, 1, MAX_INTERVAL_MS as int) as u32,
            interval_min_ms: smaller(lo, hi) as u32,
            interval_max_ms: (if lo <= hi { hi } else { lo }) as u32,
            interval_mean_ms: mean as u32,
            interval_std_ms: smaller(self.interval_std_ms as int, mean) as u32,
            start_delay_ms: smaller(self.start_delay_ms as int, MAX_START_DELAY_MS as int) as u32,
            jitter_x: smaller(self.jitter_x as int, MAX_PIXELS as int) as u32,
            jitter_y: smaller(self.jitter_y as int, MAX_PIXELS as int) as u32,
            max_seconds: smaller(self.max_seconds as int, MAX_SECONDS as int) as u32,
            stop_on_move_px: smaller(self.stop_on_move_px as int, MAX_PIXELS as int) as u32,
            ..self
        }
    }

    /// Clamps hand-edited or stale values into ranges the engine can trust.
    pub fn sanitize(&mut self)
        ensures
            *final(self) == old(self).sanitized(),
    {
        self.hold_ms = self.hold_ms.max(1).min(MAX_HOLD_MS);
        self.interval_ms = self.interval_ms.max(1).min(MAX_INTERVAL_MS);
        self.interval_min_ms = self.interval_min_ms.max(1).min(MAX_INTERVAL_MS);
        self.interval_max_ms = self.interval_max_ms.max(1).min(MAX_INTERVAL_MS);
        if self.interval_min_ms > self.interval_max_ms {
            let low = self.interval_max_ms;
            self.interval_max_ms = self.interval_min_ms;
            self.interval_min_ms = low;
        }
        self.interval_mean_ms = self.interval_mean_ms.max(1).min(MAX_INTERVAL_MS);
        self.interval_std_ms = self.interval_std_ms.min(self.interval_mean_ms);
        self.start_delay_ms = self.start_delay_ms.min(MAX_START_DELAY_MS);
        self.jitter_x = self.jitter_x.min(MAX_PIXELS);
        self.jitter_y = self.jitter_y.min(MAX_PIXELS);
        self.max_seconds = self.max_seconds.min(MAX_SECONDS);
        self.stop_on_move_px = self.stop_on_move_px.min(MAX_PIXELS);
    }
}

impl Clone for Settings {
    fn clone(&self) -> (copy: Settings)
        ensures
            copy == *self,
    {
        Settings {
            button: self.button,
            style: self.style,
            hold_ms: self.hold_ms,
            timing: self.timing,
            interval_ms: self.interval_ms,
            interval_min_ms: self.interval_min_ms,
            interval_max_ms: self.interval_max_ms,
            interval_mean_ms: self.interval_mean_ms,
            interval_std_ms: self.interval_std_ms,
            start_delay_ms: self.start_delay_ms,
            position: self.position,
            point: self.point,
            jitter: self.jitter,
            jitter_x: self.jitter_x,
            jitter_y: self.jitter_y,
            max_clicks: self.max_clicks,
            max_seconds: self.max_seconds,
            stop_on_move_px: self.stop_on_move_px,
            hotkey_toggle: self.hotkey_toggle.clone(),
            hotkey_capture: self.hotkey_capture.clone(),
            theme: self.theme,
            always_on_top: self.always_on_top,
        }
    }
}

impl Default for Settings {
    fn default() -> (settings: Settings)
        ensures
            settings.is_default(),
    {
        Settings {
            button: MouseButton::Left,
            style: ClickStyle::Single,
            hold_ms: 40,
            timing: TimingMode::Uniform,
            interval_ms: 100,
            interval_min_ms: 40,
            interval_max_ms: 120,
            interval_mean_ms: 100,
            interval_std_ms: 25,
            start_delay_ms: 0,
            position: PositionMode::Cursor,
            point: (0, 0),
            jitter: JitterMode::Off,
            jitter_x: 4,
            jitter_y: 4,
            max_clicks: 0,
            max_seconds: 0,
            stop_on_move_px: 0,
            hotkey_toggle: "F6".to_owned(),
            hotkey_capture: "F7".to_owned(),
            theme: Theme::Dark,
            always_on_top: false,
        }
    }
}

/// Whatever a settings record holds, sanitizing it yields values in the
/// ranges the engine relies on.
pub proof fn lemma_sanitized_is_sane(s: Settings)
    ensures
        s.sanitized().is_sane(),
{
}

/// Sanitizing leaves settings that are already in range untouched.
pub proof fn lemma_sane_settings_are_kept(s: Settings)
    requires
        s.is_sane(),
    ensures
        s.sanitized() == s,
{
}

/// Sanitizing twice is the same as sanitizing once.
pub proof fn lemma_sanitize_idempotent(s: Settings)
    ensures
        s.sanitized().sanitized() == s.sanitized(),
{
    lemma_sanitized_is_sane(s);
    lemma_sane_settings_are_kept(s.sanitized());
}

/// The default settings are already in range, so loading them unchanged
/// through `sanitize` keeps every default.
pub proof fn lemma_defaults_are_sane(s: Settings)
    requires
        s.is_default(),
    ensures
        s.is_sane(),
        s.sanitized() == s,
{
    lemma_sane_settings_are_kept(s);
}

/// An inverted but in-range min/max pair is swapped rather than rejected.
pub proof fn lemma_inverted_range_is_swapped(s: Settings)
    requires
        1 <= s.interval_max_ms < s.interval_min_ms <= MAX_INTERVAL_MS,
    ensures
        s.sanitized().interval_min_ms == s.interval_max_ms,
        s.sanitized().interval_max_ms == s.interval_min_ms,
{
}

/// Sigma is only ever lowered to the (clamped) mean, never below it: a
/// sigma within the mean is kept, a larger one becomes the mean.
pub proof fn lemma_sigma_capped_at_the_mean(s: Settings)
    ensures
        s.sanitized().interval_std_ms == (if s.interval_std_ms <= s.sanitized().interval_mean_ms {
            s.interval_std_ms
        } else {
            s.sanitized().interval_mean_ms
        }),
        s.sanitized().interval_std_ms <= s.sanitized().interval_mean_ms,
{
}

} // verus!
