//! Command line handling.
//!
//! The window is the default. Any run flag switches to a headless run, which
//! drives the same engine with no GUI.

use vstd::prelude::*;

use crate::config::{JitterMode, MouseButton, PositionMode, Settings, TimingMode};
use crate::text::{
    chars_of, find_char, first_index_of, lemma_first_index_of, i32_from_text, i32_text, is_word, lower_ascii,
    lowercase_chars, parse_i32, parse_u32, parse_u64, signed_text, decimal_text, slice_chars,
    string_of, trim_chars, trimmed, u32_from_text, u32_text, u64_from_text, u64_text,
};

verus! {

pub const USAGE: &'static str = "FeatherClick - a tiny cross-platform autoclicker

USAGE:
    featherclick [OPTIONS]

With no options the settings window opens. Run options start clicking in the
background, using the saved settings as defaults; a limit of 0 means run until
interrupted.

RUN OPTIONS:
        --headless              click without opening a window
        --clicks <N>            stop after N clicks
        --seconds <S>           stop after S seconds
        --interval <MS>         click every MS milliseconds
        --at <X,Y>              click a fixed screen point
        --jitter <PX>           vary the point by up to +-PX pixels
        --button <left|right|middle>
        --delay <MS>            wait before the first click
        --quiet                 print only the final summary

OTHER OPTIONS:
    -h, --help                  print this help
    -V, --version               print the version

Exit status is 0 on success (including stop conditions), 1 on error.";

/// What the command line asked for.
#[derive(Debug)]
pub struct Args {
    pub help: bool,
    pub version: bool,
    pub run: Option<Run>,
}

impl Default for Args {
    fn default() -> (args: Args)
        ensures
            !args.help && !args.version && args.run is None,
    {
        Args { help: false, version: false, run: None }
    }
}

/// Overrides for a headless run. `None` keeps the saved setting.
#[derive(Debug)]
pub struct Run {
    pub clicks: Option<u64>,
    pub seconds: Option<u32>,
    pub interval_ms: Option<u32>,
    pub at: Option<(i32, i32)>,
    pub jitter_px: Option<u32>,
    pub button: Option<MouseButton>,
    pub delay_ms: Option<u32>,
    pub quiet: bool,
}

/// A run with no override.
pub open spec fn no_overrides() -> Run {
    Run {
        clicks: None,
        seconds: None,
        interval_ms: None,
        at: None,
        jitter_px: None,
        button: None,
        delay_ms: None,
        quiet: false,
    }
}

impl Default for Run {
    fn default() -> (run: Run)
        ensures
            run == no_overrides(),
    {
        Run {
            clicks: None,
            seconds: None,
            interval_ms: None,
            at: None,
            jitter_px: None,
            button: None,
            delay_ms: None,
            quiet: false,
        }
    }
}

/// The parser's progress over the arguments.
pub struct ParseState {
    pub help: bool,
    pub version: bool,
    pub run: Run,
    pub seen_run_flag: bool,
}

pub open spec fn start_state() -> ParseState {
    ParseState { help: false, version: false, run: no_overrides(), seen_run_flag: false }
}

/// The text after every error message: a blank line and the usage.
pub open spec fn with_usage(message: Seq<char>) -> Seq<char> {
    message + "\n\n"@ + USAGE@
}

pub open spec fn needs_value_message(name: Seq<char>) -> Seq<char> {
    with_usage(name + " needs a value"@)
}

pub open spec fn number_message(flag: Seq<char>, raw: Seq<char>) -> Seq<char> {
    with_usage(flag + " wants a number but got "@ + raw)
}

pub open spec fn pair_message(name: Seq<char>, raw: Seq<char>) -> Seq<char> {
    with_usage(name + " wants X,Y but got "@ + raw)
}

pub open spec fn button_message(other: Seq<char>) -> Seq<char> {
    with_usage("unknown button: "@ + other)
}

pub open spec fn unknown_option_message(other: Seq<char>) -> Seq<char> {
    with_usage("unknown option: "@ + other + ". Note that arguments are not passed to the GUI."@)
}

/// An argument split at its first `=` into the flag name and an inline value.
pub open spec fn arg_parts(arg: Seq<char>) -> (Seq<char>, Option<Seq<char>>) {
    match first_index_of(arg, '=') {
        Some(k) => (arg.take(k), Some(arg.skip(k + 1))),
        None => (arg, None),
    }
}

/// The value of a flag: the inline `--flag=value`, else the argument at
/// `next`; with the index of the argument after it.
pub open spec fn flag_value(words: Seq<Seq<char>>, next: int, name: Seq<char>, inline: Option<Seq<char>>) -> Result<(Seq<char>, int), Seq<char>> {
    match inline {
        Some(value) => Ok((value, next)),
        None => if next < words.len() {
            Ok((words[next], next + 1))
        } else {
            Err(needs_value_message(name))
        },
    }
}

pub open spec fn is_help_flag(name: Seq<char>) -> bool {
    name == "-h"@ || name == "--help"@
}

pub open spec fn is_version_flag(name: Seq<char>) -> bool {
    name == "-V"@ || name == "--version"@
}

/// The run flags that take a value.
pub open spec fn is_value_flag(name: Seq<char>) -> bool {
    ||| name == "--clicks"@
    ||| name == "--seconds"@
    ||| name == "--interval"@
    ||| name == "--delay"@
    ||| name == "--jitter"@
    ||| name == "--at"@
    ||| name == "--button"@
}

/// Every flag that switches to a headless run.
pub open spec fn is_run_flag_name(name: Seq<char>) -> bool {
    ||| name == "--headless"@
    ||| name == "--quiet"@
    ||| name == "--clicks"@
    ||| name == "--seconds"@
    ||| name == "--interval"@
    ||| name == "--delay"@
    ||| name == "--jitter"@
    ||| name == "--at"@
    ||| name == "--button"@
}

/// The mouse button a `--button` value names, after lower-casing.
pub open spec fn button_named(low: Seq<char>) -> Option<MouseButton> {
    if low == "left"@ || low == "l"@ {
        Some(MouseButton::Left)
    } else if low == "right"@ || low == "r"@ {
        Some(MouseButton::Right)
    } else if low == "middle"@ || low == "m"@ {
        Some(MouseButton::Middle)
    } else {
        None
    }
}

/// `run` with the override that flag `name` (a value flag) sets from `value`.
pub open spec fn run_with_value(name: Seq<char>, value: Seq<char>, run: Run) -> Result<Run, Seq<char>> {
    if name == "--clicks"@ {
        match u64_from_text(trimmed(value)) {
            Some(n) => Ok(Run { clicks: Some(n), ..run }),
            None => Err(number_message(name, value)),
        }
    } else if name == "--seconds"@ {
        match u32_from_text(trimmed(value)) {
            Some(n) => Ok(Run { seconds: Some(n), ..run }),
            None => Err(number_message(name, value)),
        }
    } else if name == "--interval"@ {
        match u32_from_text(trimmed(value)) {
            Some(n) => Ok(Run { interval_ms: Some(n), ..run }),
            None => Err(number_message(name, value)),
        }
    } else if name == "--delay"@ {
        match u32_from_text(trimmed(value)) {
            Some(n) => Ok(Run { delay_ms: Some(n), ..run }),
            None => Err(number_message(name, value)),
        }
    } else if name == "--jitter"@ {
        match u32_from_text(trimmed(value)) {
            Some(n) => Ok(Run { jitter_px: Some(n), ..run }),
            None => Err(number_message(name, value)),
        }
    } else if name == "--at"@ {
        match first_index_of(value, ',') {
            None => Err(pair_message(name, value)),
            Some(k) => {
                let x = trimmed(value.take(k));
                let y = trimmed(value.skip(k + 1));
                match i32_from_text(trimmed(x)) {
                    None => Err(number_message(name, x)),
                    Some(a) => match i32_from_text(trimmed(y)) {
                        None => Err(number_message(name, y)),
                        Some(b) => Ok(Run { at: Some((a, b)), ..run }),
                    },
                }
            },
        }
    } else {
        let low = lower_ascii(value);
        match button_named(low) {
            Some(button) => Ok(Run { button: Some(button), ..run }),
            None => Err(button_message(low)),
        }
    }
}

/// Reads the flag at `i` (and its value): the new progress and the index of
/// the next flag, or the error message.
pub open spec fn parse_step(words: Seq<Seq<char>>, i: int, st: ParseState) -> Result<(ParseState, int), Seq<char>> {
    let (name, inline) = arg_parts(words[i]);
    let next = i + 1;
    if is_help_flag(name) {
        Ok((ParseState { help: true, ..st }, next))
    } else if is_version_flag(name) {
        Ok((ParseState { version: true, ..st }, next))
    } else if name == "--headless"@ {
        Ok((ParseState { seen_run_flag: true, ..st }, next))
    } else if name == "--quiet"@ {
        Ok((ParseState { run: Run { quiet: true, ..st.run }, seen_run_flag: true, ..st }, next))
    } else if is_value_flag(name) {
        match flag_value(words, next, name, inline) {
            Err(e) => Err(e),
            Ok((value, after)) => match run_with_value(name, value, st.run) {
                Err(e) => Err(e),
                Ok(run) => Ok((ParseState { run, seen_run_flag: true, ..st }, after)),
            },
        }
    } else {
        Err(unknown_option_message(name))
    }
}

proof fn lemma_step_advances(words: Seq<Seq<char>>, i: int, st: ParseState)
    requires
        0 <= i < words.len(),
    ensures
        parse_step(words, i, st) matches Ok((_, j)) ==> i < j <= words.len(),
{
}

/// Reads the arguments from `i` on, starting from progress `st`.
pub open spec fn parse_from(words: Seq<Seq<char>>, i: int, st: ParseState) -> Result<ParseState, Seq<char>>
    decreases words.len() - i,
{
    if i < 0 || i >= words.len() {
        Ok(st)
    } else {
        match parse_step(words, i, st) {
            Err(e) => Err(e),
            Ok((next_st, j)) => if i < j {
                parse_from(words, j, next_st)
            } else {
                Ok(next_st)
            },
        }
    }
}

/// What `parse` returns for `words`: help, version and the run overrides (when
/// any run flag was given), or the error message.
pub open spec fn parse_outcome(words: Seq<Seq<char>>) -> Result<(bool, bool, Option<Run>), Seq<char>> {
    match parse_from(words, 0, start_state()) {
        Ok(st) => Ok((st.help, st.version, if st.seen_run_flag { Some(st.run) } else { None })),
        Err(e) => Err(e),
    }
}

/// The views of the arguments.
pub open spec fn words_of(args: Seq<String>) -> Seq<Seq<char>> {
    args.map_values(|a: String| a@)
}

fn with_usage_text(message: String) -> (text: String)
    ensures
        text@ == with_usage(message@),
{
    message.concat("\n\n").concat(USAGE)
}

/// Splits an argument at its first `=`.
fn split_arg(arg: &Vec<char>) -> (parts: (Vec<char>, Option<Vec<char>>))
    ensures
        parts.0@ == arg_parts(arg@).0,
        parts.1 is Some <==> arg_parts(arg@).1 is Some,
        parts.1 matches Some(v) ==> arg_parts(arg@).1 == Some(v@),
{
    let n = arg.len();
    match find_char(arg, '=') {
        Some(k) => (slice_chars(arg, 0, k), Some(slice_chars(arg, k + 1, n))),
        None => (slice_chars(arg, 0, arg.len()), None),
    }
}

/// A number from a flag's value, trimmed and parsed as `u64`.
fn number_u64(raw: &Vec<char>, flag: &Vec<char>) -> (n: Result<u64, String>)
    ensures
        n matches Ok(v) ==> u64_from_text(trimmed(raw@)) == Some(v),
        n matches Err(e) ==> u64_from_text(trimmed(raw@)) is None && e@ == number_message(flag@, raw@),
{
    let t = string_of(&trim_chars(raw));
    match parse_u64(t.as_str()) {
        Some(v) => Ok(v),
        None => Err(number_error(raw, flag)),
    }
}

/// A number from a flag's value, trimmed and parsed as `u32`.
fn number_u32(raw: &Vec<char>, flag: &Vec<char>) -> (n: Result<u32, String>)
    ensures
        n matches Ok(v) ==> u32_from_text(trimmed(raw@)) == Some(v),
        n matches Err(e) ==> u32_from_text(trimmed(raw@)) is None && e@ == number_message(flag@, raw@),
{
    let t = string_of(&trim_chars(raw));
    match parse_u32(t.as_str()) {
        Some(v) => Ok(v),
        None => Err(number_error(raw, flag)),
    }
}

/// A number from a flag's value, trimmed and parsed as `i32`.
fn number_i32(raw: &Vec<char>, flag: &Vec<char>) -> (n: Result<i32, String>)
    ensures
        n matches Ok(v) ==> i32_from_text(trimmed(raw@)) == Some(v),
        n matches Err(e) ==> i32_from_text(trimmed(raw@)) is None && e@ == number_message(flag@, raw@),
{
    let t = string_of(&trim_chars(raw));
    match parse_i32(t.as_str()) {
        Some(v) => Ok(v),
        None => Err(number_error(raw, flag)),
    }
}

fn number_error(raw: &Vec<char>, flag: &Vec<char>) -> (e: String)
    ensures
        e@ == number_message(flag@, raw@),
{
    let raw_text = string_of(raw);
    with_usage_text(string_of(flag).concat(" wants a number but got ").concat(raw_text.as_str()))
}

/// The override that value flag `name` sets from `value`.
fn run_value(name: &Vec<char>, value: &Vec<char>, run: Run) -> (updated: Result<Run, String>)
    requires
        is_value_flag(name@),
    ensures
        match updated {
            Ok(r) => run_with_value(name@, value@, run) == Ok::<Run, Seq<char>>(r),
            Err(e) => run_with_value(name@, value@, run) == Err::<Run, Seq<char>>(e@),
        },
{
    if is_word(name, "--clicks") {
        match number_u64(value, name) {
            Ok(n) => Ok(Run { clicks: Some(n), ..run }),
            Err(e) => Err(e),
        }
    } else if is_word(name, "--seconds") {
        match number_u32(value, name) {
            Ok(n) => Ok(Run { seconds: Some(n), ..run }),
            Err(e) => Err(e),
        }
    } else if is_word(name, "--interval") {
        match number_u32(value, name) {
            Ok(n) => Ok(Run { interval_ms: Some(n), ..run }),
            Err(e) => Err(e),
        }
    } else if is_word(name, "--delay") {
        match number_u32(value, name) {
            Ok(n) => Ok(Run { delay_ms: Some(n), ..run }),
            Err(e) => Err(e),
        }
    } else if is_word(name, "--jitter") {
        match number_u32(value, name) {
            Ok(n) => Ok(Run { jitter_px: Some(n), ..run }),
            Err(e) => Err(e),
        }
    } else if is_word(name, "--at") {
        let n = value.len();
        match find_char(value, ',') {
            None => {
                let message = string_of(name).concat(" wants X,Y but got ").concat(
                    string_of(value).as_str(),
                );
                Err(with_usage_text(message))
            },
            Some(k) => {
                let x = trim_chars(&slice_chars(value, 0, k));
                let y = trim_chars(&slice_chars(value, k + 1, n));
                assert(value@.take(k as int) == value@.subrange(0, k as int));
                assert(value@.skip(k + 1) == value@.subrange(k + 1, value@.len() as int));
                match number_i32(&x, name) {
                    Err(e) => Err(e),
                    Ok(a) => match number_i32(&y, name) {
                        Err(e) => Err(e),
                        Ok(b) => Ok(Run { at: Some((a, b)), ..run }),
                    },
                }
            },
        }
    } else {
        let low = lowercase_chars(value);
        if is_word(&low, "left") || is_word(&low, "l") {
            Ok(Run { button: Some(MouseButton::Left), ..run })
        } else if is_word(&low, "right") || is_word(&low, "r") {
            Ok(Run { button: Some(MouseButton::Right), ..run })
        } else if is_word(&low, "middle") || is_word(&low, "m") {
            Ok(Run { button: Some(MouseButton::Middle), ..run })
        } else {
            Err(with_usage_text("unknown button: ".to_owned().concat(string_of(&low).as_str())))
        }
    }
}

/// Reads the flag at `index`, as `parse_step` describes.
fn step(args: &Vec<String>, index: usize, st: ParseState) -> (next: Result<(ParseState, usize), String>)
    requires
        index < args@.len(),
    ensures
        match next {
            Ok((s, j)) => parse_step(words_of(args@), index as int, st) == Ok::<
                (ParseState, int),
                Seq<char>,
            >((s, j as int)),
            Err(e) => parse_step(words_of(args@), index as int, st) == Err::<
                (ParseState, int),
                Seq<char>,
            >(e@),
        },
{
    let ghost words = words_of(args@);
    // `index` lies below the argument count, a `usize`, so `index + 1` fits.
    let count = args.len();
    assert(index < count);
    let arg = chars_of(args[index].as_str());
    assert(arg@ == words[index as int]);
    let (name, inline) = split_arg(&arg);
    let next = index + 1;
    if is_word(&name, "-h") || is_word(&name, "--help") {
        Ok((ParseState { help: true, ..st }, next))
    } else if is_word(&name, "-V") || is_word(&name, "--version") {
        Ok((ParseState { version: true, ..st }, next))
    } else if is_word(&name, "--headless") {
        Ok((ParseState { seen_run_flag: true, ..st }, next))
    } else if is_word(&name, "--quiet") {
        Ok((ParseState { run: Run { quiet: true, ..st.run }, seen_run_flag: true, ..st }, next))
    } else if is_word(&name, "--clicks") || is_word(&name, "--seconds") || is_word(
        &name,
        "--interval",
    ) || is_word(&name, "--delay") || is_word(&name, "--jitter") || is_word(&name, "--at")
        || is_word(&name, "--button") {
        let (value, after) = match inline {
            Some(v) => (v, next),
            None => {
                if next < args.len() {
                    let v = chars_of(args[next].as_str());
                    assert(v@ == words[next as int]);
                    (v, next + 1)
                } else {
                    return Err(with_usage_text(string_of(&name).concat(" needs a value")));
                }
            },
        };
        match run_value(&name, &value, st.run) {
            Err(e) => Err(e),
            Ok(run) => Ok((ParseState { run, seen_run_flag: true, help: st.help, version: st.version }, after)),
        }
    } else {
        let message = "unknown option: ".to_owned().concat(string_of(&name).as_str()).concat(
            ". Note that arguments are not passed to the GUI.",
        );
        Err(with_usage_text(message))
    }
}

/// Reads the command line (without the program name).
pub fn parse(args: Vec<String>) -> (parsed: Result<Args, String>)
    ensures
        match parsed {
            Ok(a) => parse_outcome(words_of(args@)) == Ok::<(bool, bool, Option<Run>), Seq<char>>(
                (a.help, a.version, a.run),
            ),
            Err(e) => parse_outcome(words_of(args@)) == Err::<(bool, bool, Option<Run>), Seq<char>>(
                e@,
            ),
        },
{
    let ghost words = words_of(args@);
    let mut st = ParseState { help: false, version: false, run: Run::default(), seen_run_flag: false };
    let mut index: usize = 0;
    while index < args.len()
        invariant
            index <= args@.len(),
            words == words_of(args@),
            parse_from(words, index as int, st) == parse_from(words, 0, start_state()),
        decreases args@.len() - index,
    {
        let ghost before = st;
        proof {
            lemma_step_advances(words, index as int, before);
        }
        match step(&args, index, st) {
            Err(e) => {
                return Err(e);
            },
            Ok((next_st, next_index)) => {
                st = next_st;
                index = next_index;
            },
        }
    }
    let run = if st.seen_run_flag {
        Some(st.run)
    } else {
        None
    };
    Ok(Args { help: st.help, version: st.version, run })
}

impl Run {
    /// `s` with these overrides applied: a click or time limit replaces the
    /// saved one; an interval switches to fixed timing; a point switches to a
    /// fixed position; a jitter of 0 turns jitter off and any other value sets
    /// that half-width both ways, keeping the saved jitter shape (a box when
    /// jitter was off); a button or delay replaces the saved one. Every other
    /// setting is kept.
    pub open spec fn applied_to(self, s: Settings) -> Settings {
        self.delay_applied(self.button_applied(self.jitter_applied(self.at_applied(
            self.interval_applied(self.seconds_applied(self.clicks_applied(s))),
        ))))
    }

    pub open spec fn clicks_applied(self, s: Settings) -> Settings {
        match self.clicks {
            Some(c) => Settings { max_clicks: c, ..s },
            None => s,
        }
    }

    pub open spec fn seconds_applied(self, s: Settings) -> Settings {
        match self.seconds {
            Some(v) => Settings { max_seconds: v, ..s },
            None => s,
        }
    }

    pub open spec fn interval_applied(self, s: Settings) -> Settings {
        match self.interval_ms {
            Some(v) => Settings { timing: TimingMode::Fixed, interval_ms: v, ..s },
            None => s,
        }
    }

    pub open spec fn at_applied(self, s: Settings) -> Settings {
        match self.at {
            Some(p) => Settings { position: PositionMode::Fixed, point: p, ..s },
            None => s,
        }
    }

    pub open spec fn jitter_applied(self, s: Settings) -> Settings {
        match self.jitter_px {
            Some(px) => Settings {
                jitter: if px == 0 {
                    JitterMode::Off
                } else if s.jitter == JitterMode::Off {
                    JitterMode::Rectangle
                } else {
                    s.jitter
                },
                jitter_x: px,
                jitter_y: px,
                ..s
            },
            None => s,
        }
    }

    pub open spec fn button_applied(self, s: Settings) -> Settings {
        match self.button {
            Some(b) => Settings { button: b, ..s },
            None => s,
        }
    }

    pub open spec fn delay_applied(self, s: Settings) -> Settings {
        match self.delay_ms {
            Some(d) => Settings { start_delay_ms: d, ..s },
            None => s,
        }
    }

    /// `--quiet` was given: print only the final summary.
    pub open spec fn is_quiet(self) -> bool {
        self.quiet
    }

    /// Writes the overrides into `settings`.
    #[verifier::rlimit(60)]
    pub fn apply(&self, settings: &mut Settings)
        ensures
            *final(settings) == self.applied_to(*old(settings)),
    {
        let ghost s0 = *settings;
        if let Some(clicks) = self.clicks {
            settings.max_clicks = clicks;
        }
        assert(*settings == self.clicks_applied(s0));
        let ghost s1 = *settings;
        if let Some(seconds) = self.seconds {
            settings.max_seconds = seconds;
        }
        assert(*settings == self.seconds_applied(s1));
        let ghost s2 = *settings;
        if let Some(interval) = self.interval_ms {
            settings.timing = TimingMode::Fixed;
            settings.interval_ms = interval;
        }
        assert(*settings == self.interval_applied(s2));
        let ghost s3 = *settings;
        if let Some(at) = self.at {
            settings.position = PositionMode::Fixed;
            settings.point = at;
        }
        assert(*settings == self.at_applied(s3));
        let ghost s4 = *settings;
        if let Some(px) = self.jitter_px {
            // The jitter shape comes from the saved settings; a spread over
            // settings without one uses a box.
            settings.jitter = if px == 0 {
                JitterMode::Off
            } else if settings.jitter == JitterMode::Off {
                JitterMode::Rectangle
            } else {
                settings.jitter
            };
            settings.jitter_x = px;
            settings.jitter_y = px;
        }
        assert(*settings == self.jitter_applied(s4));
        let ghost s5 = *settings;
        if let Some(button) = self.button {
            settings.button = button;
        }
        assert(*settings == self.button_applied(s5));
        let ghost s6 = *settings;
        if let Some(delay) = self.delay_ms {
            settings.start_delay_ms = delay;
        }
        assert(*settings == self.delay_applied(s6));
    }

    /// Whether only the final summary is printed.
    pub fn quiet(&self) -> (quiet: bool)
        ensures
            quiet == self.is_quiet(),
    {
        self.quiet
    }
}

/// Applying the same overrides twice changes nothing more than applying them
/// once.
pub proof fn lemma_apply_twice_is_apply_once(run: Run, s: Settings)
    ensures
        run.applied_to(run.applied_to(s)) == run.applied_to(s),
{
}

/// Every override given takes exactly its value, zero included (a limit
/// of 0 means no limit): the click and time limits, the delay and the button
/// replace the saved ones; an interval sets fixed timing at that interval; a
/// point sets a fixed position at it; a jitter sets that half-width both
/// ways, and is off exactly when it is 0.
pub proof fn lemma_overrides_take_their_values(run: Run, s: Settings)
    ensures
        run.clicks matches Some(c) ==> run.applied_to(s).max_clicks == c,
        run.seconds matches Some(v) ==> run.applied_to(s).max_seconds == v,
        run.delay_ms matches Some(d) ==> run.applied_to(s).start_delay_ms == d,
        run.button matches Some(b) ==> run.applied_to(s).button == b,
        run.interval_ms matches Some(v) ==> run.applied_to(s).timing == TimingMode::Fixed
            && run.applied_to(s).interval_ms == v,
        run.at matches Some(p) ==> run.applied_to(s).position == PositionMode::Fixed
            && run.applied_to(s).point == p,
        run.jitter_px matches Some(px) ==> run.applied_to(s).jitter_x == px
            && run.applied_to(s).jitter_y == px && (run.applied_to(s).jitter == JitterMode::Off
            <==> px == 0),
        run.clicks is None ==> run.applied_to(s).max_clicks == s.max_clicks,
        run.seconds is None ==> run.applied_to(s).max_seconds == s.max_seconds,
        run.delay_ms is None ==> run.applied_to(s).start_delay_ms == s.start_delay_ms,
        run.button is None ==> run.applied_to(s).button == s.button,
{
}

/// Everything a run does not override (style, hold, the random timing
/// ranges, stop-on-move, hotkeys and the window) comes from the saved
/// settings.
pub proof fn lemma_apply_keeps_the_rest(run: Run, s: Settings)
    ensures
        run.applied_to(s).style == s.style,
        run.applied_to(s).hold_ms == s.hold_ms,
        run.applied_to(s).interval_min_ms == s.interval_min_ms,
        run.applied_to(s).interval_max_ms == s.interval_max_ms,
        run.applied_to(s).interval_mean_ms == s.interval_mean_ms,
        run.applied_to(s).interval_std_ms == s.interval_std_ms,
        run.applied_to(s).stop_on_move_px == s.stop_on_move_px,
        run.applied_to(s).hotkey_toggle == s.hotkey_toggle,
        run.applied_to(s).hotkey_capture == s.hotkey_capture,
        run.applied_to(s).theme == s.theme,
        run.applied_to(s).always_on_top == s.always_on_top,
{
}

/// A flag that asks for the help or the version, and starts nothing.
pub open spec fn is_info_flag(name: Seq<char>) -> bool {
    name == "-h"@ || name == "--help"@ || name == "-V"@ || name == "--version"@
}

/// Once a run flag has been read, the parse (if it succeeds) asks for a run.
proof fn lemma_run_flag_sticks(words: Seq<Seq<char>>, i: int, st: ParseState)
    requires
        st.seen_run_flag,
    ensures
        parse_from(words, i, st) matches Ok(end) ==> end.seen_run_flag,
    decreases words.len() - i,
{
    if 0 <= i < words.len() {
        if let Ok((next_st, j)) = parse_step(words, i, st) {
            if i < j {
                lemma_run_flag_sticks(words, j, next_st);
            }
        }
    }
}

/// From `i` on, a parse that succeeds without any run flag read only help
/// and version flags; and help and version flags alone always succeed without
/// starting a run.
proof fn lemma_info_flags_only(words: Seq<Seq<char>>, i: int, st: ParseState)
    requires
        0 <= i <= words.len(),
        !st.seen_run_flag,
    ensures
        (parse_from(words, i, st) matches Ok(end) && !end.seen_run_flag) <==> (forall|j: int|
            i <= j < words.len() ==> is_info_flag(#[trigger] arg_parts(words[j]).0)),
    decreases words.len() - i,
{
    if i < words.len() {
        let name = arg_parts(words[i]).0;
        lemma_step_advances(words, i, st);
        match parse_step(words, i, st) {
            Ok((next_st, j)) => {
                if is_help_flag(name) || is_version_flag(name) {
                    assert(j == i + 1);
                    lemma_info_flags_only(words, j, next_st);
                    if forall|k: int| j <= k < words.len() ==> is_info_flag(#[trigger] arg_parts(words[k]).0) {
                        assert forall|k: int| i <= k < words.len() implies is_info_flag(
                            #[trigger] arg_parts(words[k]).0,
                        ) by {
                            if k == i {
                            } else {
                                assert(j <= k);
                            }
                        }
                    }
                } else {
                    assert(next_st.seen_run_flag);
                    lemma_run_flag_sticks(words, j, next_st);
                    assert(!is_info_flag(arg_parts(words[i]).0));
                }
            },
            Err(_) => {
                assert(!is_info_flag(arg_parts(words[i]).0));
            },
        }
    }
}

/// The settings window opens (no run is asked for) exactly when every
/// argument is a help or version flag; any run flag in a command line that
/// parses makes it a headless run.
pub proof fn lemma_window_only_without_run_flags(words: Seq<Seq<char>>)
    ensures
        (parse_outcome(words) matches Ok((_, _, run)) && run is None) <==> (forall|j: int|
            0 <= j < words.len() ==> is_info_flag(#[trigger] arg_parts(words[j]).0)),
{
    lemma_info_flags_only(words, 0, start_state());
}

/// With no arguments the window opens: no help, no version, no run.
pub proof fn lemma_no_arguments_opens_window()
    ensures
        parse_outcome(Seq::<Seq<char>>::empty()) == Ok::<(bool, bool, Option<Run>), Seq<char>>(
            (false, false, None),
        ),
{
}

/// `message` ends with a blank line and the usage text.
pub open spec fn ends_with_usage(message: Seq<char>) -> bool {
    let tail = "\n\n"@ + USAGE@;
    message.len() >= tail.len() && message.skip(message.len() - tail.len()) == tail
}

proof fn lemma_with_usage_ends_with_usage(message: Seq<char>)
    ensures
        ends_with_usage(with_usage(message)),
{
    let tail = "\n\n"@ + USAGE@;
    assert(with_usage(message) =~= message + tail);
    assert((message + tail).skip(message.len() as int) =~= tail);
}

proof fn lemma_step_errors_show_usage(words: Seq<Seq<char>>, i: int, st: ParseState)
    requires
        0 <= i < words.len(),
    ensures
        parse_step(words, i, st) matches Err(e) ==> ends_with_usage(e),
{
    let (name, inline) = arg_parts(words[i]);
    let next = i + 1;
    if let Err(e) = parse_step(words, i, st) {
        if is_value_flag(name) {
            match flag_value(words, next, name, inline) {
                Err(f) => {
                    lemma_with_usage_ends_with_usage(name + " needs a value"@);
                    assert(e == f);
                    assert(ends_with_usage(e));
                },
                Ok((value, after)) => {
                    lemma_with_usage_ends_with_usage(name + " wants a number but got "@ + value);
                    lemma_with_usage_ends_with_usage(name + " wants X,Y but got "@ + value);
                    lemma_with_usage_ends_with_usage("unknown button: "@ + lower_ascii(value));
                    if let Some(k) = first_index_of(value, ',') {
                        lemma_with_usage_ends_with_usage(
                            name + " wants a number but got "@ + trimmed(value.take(k)),
                        );
                        lemma_with_usage_ends_with_usage(
                            name + " wants a number but got "@ + trimmed(value.skip(k + 1)),
                        );
                    }
                    assert(ends_with_usage(e));
                },
            }
        } else {
            lemma_with_usage_ends_with_usage(
                "unknown option: "@ + name + ". Note that arguments are not passed to the GUI."@,
            );
            assert(ends_with_usage(e));
        }
    }
}

proof fn lemma_parse_errors_show_usage(words: Seq<Seq<char>>, i: int, st: ParseState)
    ensures
        parse_from(words, i, st) matches Err(e) ==> ends_with_usage(e),
    decreases words.len() - i,
{
    if 0 <= i < words.len() {
        lemma_step_errors_show_usage(words, i, st);
        if let Ok((next_st, j)) = parse_step(words, i, st) {
            if i < j {
                lemma_parse_errors_show_usage(words, j, next_st);
            }
        }
    }
}

/// Every command line that is refused is answered with a message that ends
/// with a blank line and the usage text.
pub proof fn lemma_refusals_show_usage(words: Seq<Seq<char>>)
    ensures
        parse_outcome(words) matches Err(e) ==> ends_with_usage(e),
{
    lemma_parse_errors_show_usage(words, 0, start_state());
}

/// No value flag holds an `=`, and none is a flag without a value.
proof fn lemma_value_flags_have_no_equals(f: Seq<char>)
    requires
        is_value_flag(f),
    ensures
        forall|j: int| 0 <= j < f.len() ==> f[j] != '=',
        !is_help_flag(f),
        !is_version_flag(f),
        f != "--headless"@,
        f != "--quiet"@,
{
    reveal_strlit("-h");
    reveal_strlit("--help");
    reveal_strlit("-V");
    reveal_strlit("--version");
    reveal_strlit("--headless");
    reveal_strlit("--quiet");
    assert("-h"@.len() == 2 && "-V"@.len() == 2);
    assert("--help"@.len() == 6 && "--version"@.len() == 9);
    assert("--help"@[2] == 'h' && "--version"@[2] == 'v');
    reveal_strlit("--clicks");
    reveal_strlit("--seconds");
    reveal_strlit("--interval");
    reveal_strlit("--delay");
    reveal_strlit("--jitter");
    reveal_strlit("--at");
    reveal_strlit("--button");
    assert("--clicks"@[2] == 'c' && "--seconds"@[2] == 's' && "--interval"@[2] == 'i');
    assert("--delay"@[2] == 'd' && "--jitter"@[2] == 'j' && "--at"@[2] == 'a');
    assert("--button"@[2] == 'b');
    assert("--clicks"@.len() == 8 && "--seconds"@.len() == 9 && "--interval"@.len() == 10);
    assert("--delay"@.len() == 7 && "--jitter"@.len() == 8 && "--at"@.len() == 4);
    assert("--button"@.len() == 8);
}

/// One flag read at position `p.len() + i` of `p + rest` is the same flag
/// read at `i` of `rest`, with the next position moved by `p.len()`.
proof fn lemma_step_shift(p: Seq<Seq<char>>, rest: Seq<Seq<char>>, i: int, st: ParseState)
    requires
        0 <= i < rest.len(),
    ensures
        match parse_step(rest, i, st) {
            Ok((next_st, j)) => parse_step(p + rest, p.len() + i, st) == Ok::<
                (ParseState, int),
                Seq<char>,
            >((next_st, p.len() + j)),
            Err(e) => parse_step(p + rest, p.len() + i, st) == Err::<(ParseState, int), Seq<char>>(
                e,
            ),
        },
{
    let words = p + rest;
    assert(words[p.len() + i] == rest[i]);
    if i + 1 < rest.len() {
        assert(words[p.len() + i + 1] == rest[i + 1]);
    }
}

/// Reading `p + rest` from position `p.len() + i` is reading `rest` from `i`.
proof fn lemma_parse_shift(p: Seq<Seq<char>>, rest: Seq<Seq<char>>, i: int, st: ParseState)
    requires
        0 <= i,
    ensures
        parse_from(p + rest, p.len() + i, st) == parse_from(rest, i, st),
    decreases rest.len() - i,
{
    if i < rest.len() {
        lemma_step_shift(p, rest, i, st);
        lemma_step_advances(rest, i, st);
        if let Ok((next_st, j)) = parse_step(rest, i, st) {
            lemma_parse_shift(p, rest, j, next_st);
        }
    }
}

/// `--button v`, wherever it stands on the command line, picks the button
/// named by `v` in any letter case: `left` or `l` the left one, `right` or
/// `r` the right one, `middle` or `m` the middle one. It sets exactly that
/// button, marks a headless run and reads on after the value.
pub proof fn lemma_button_flag_picks_the_named_button(words: Seq<Seq<char>>, i: int, st: ParseState)
    requires
        0 <= i,
        i + 1 < words.len(),
        words[i] == "--button"@,
    ensures
        lower_ascii(words[i + 1]) == "left"@ || lower_ascii(words[i + 1]) == "l"@ ==> parse_step(
            words,
            i,
            st,
        ) == Ok::<(ParseState, int), Seq<char>>(
            (
                ParseState {
                    run: Run { button: Some(MouseButton::Left), ..st.run },
                    seen_run_flag: true,
                    ..st
                },
                i + 2,
            ),
        ),
        lower_ascii(words[i + 1]) == "right"@ || lower_ascii(words[i + 1]) == "r"@ ==> parse_step(
            words,
            i,
            st,
        ) == Ok::<(ParseState, int), Seq<char>>(
            (
                ParseState {
                    run: Run { button: Some(MouseButton::Right), ..st.run },
                    seen_run_flag: true,
                    ..st
                },
                i + 2,
            ),
        ),
        lower_ascii(words[i + 1]) == "middle"@ || lower_ascii(words[i + 1]) == "m"@ ==> parse_step(
            words,
            i,
            st,
        ) == Ok::<(ParseState, int), Seq<char>>(
            (
                ParseState {
                    run: Run { button: Some(MouseButton::Middle), ..st.run },
                    seen_run_flag: true,
                    ..st
                },
                i + 2,
            ),
        ),
{
    reveal_strlit("--button");
    reveal_strlit("left");
    reveal_strlit("l");
    reveal_strlit("right");
    reveal_strlit("r");
    reveal_strlit("middle");
    reveal_strlit("m");
    let f = "--button"@;
    assert(is_value_flag(f));
    lemma_value_flags_have_no_equals(f);
    assert(first_index_of(f, '=') is None);
    assert(f != "--clicks"@ && f != "--seconds"@ && f != "--interval"@ && f != "--delay"@) by {
        reveal_strlit("--clicks");
        reveal_strlit("--seconds");
        reveal_strlit("--interval");
        reveal_strlit("--delay");
        assert(f[2] == 'b');
        assert("--clicks"@[2] == 'c' && "--seconds"@[2] == 's' && "--interval"@[2] == 'i');
        assert("--delay"@[2] == 'd');
    }
    assert(f != "--jitter"@ && f != "--at"@) by {
        reveal_strlit("--jitter");
        reveal_strlit("--at");
        assert(f[2] == 'b');
        assert("--jitter"@[2] == 'j' && "--at"@[2] == 'a');
    }
    assert("left"@ != "right"@ && "left"@ != "middle"@ && "l"@ != "right"@ && "l"@ != "middle"@
        && "right"@ != "middle"@ && "r"@ != "middle"@ && "left"@ != "r"@ && "left"@ != "m"@
        && "l"@ != "r"@ && "l"@ != "m"@ && "right"@ != "m"@ && "r"@ != "m"@) by {
        assert("left"@[0] == 'l' && "l"@[0] == 'l' && "right"@[0] == 'r' && "r"@[0] == 'r');
        assert("middle"@[0] == 'm' && "m"@[0] == 'm');
        assert("left"@.len() == 4 && "l"@.len() == 1 && "right"@.len() == 5 && "r"@.len() == 1);
        assert("middle"@.len() == 6 && "m"@.len() == 1);
    }
}

/// The whole command line `--button v` (or `--button=v`) asks for a
/// headless run with every saved setting kept but the button, which is the
/// one `v` names in any letter case.
pub proof fn lemma_button_command_line(v: Seq<char>)
    ensures
        lower_ascii(v) == "left"@ || lower_ascii(v) == "l"@ ==> parse_outcome(seq!["--button"@, v])
            == Ok::<(bool, bool, Option<Run>), Seq<char>>(
            (false, false, Some(Run { button: Some(MouseButton::Left), ..no_overrides() })),
        ),
        lower_ascii(v) == "right"@ || lower_ascii(v) == "r"@ ==> parse_outcome(seq!["--button"@, v])
            == Ok::<(bool, bool, Option<Run>), Seq<char>>(
            (false, false, Some(Run { button: Some(MouseButton::Right), ..no_overrides() })),
        ),
        lower_ascii(v) == "middle"@ || lower_ascii(v) == "m"@ ==> parse_outcome(
            seq!["--button"@, v],
        ) == Ok::<(bool, bool, Option<Run>), Seq<char>>(
            (false, false, Some(Run { button: Some(MouseButton::Middle), ..no_overrides() })),
        ),
        parse_outcome(seq!["--button"@ + seq!['='] + v]) == parse_outcome(seq!["--button"@, v]),
{
    let words = seq!["--button"@, v];
    let st = start_state();
    lemma_button_flag_picks_the_named_button(words, 0, st);
    assert(words[0] == "--button"@ && words[1] == v);
    let low = lower_ascii(v);
    if low == "left"@ || low == "l"@ || low == "right"@ || low == "r"@ || low == "middle"@ || low
        == "m"@ {
        if let Ok((next_st, j)) = parse_step(words, 0, st) {
            assert(j == 2);
            assert(parse_from(words, 2, next_st) == Ok::<ParseState, Seq<char>>(next_st));
        }
    }
    reveal_strlit("--button");
    assert(is_value_flag("--button"@));
    lemma_inline_value_same_as_separate("--button"@, v, Seq::empty());
    assert(seq!["--button"@, v] + Seq::<Seq<char>>::empty() =~= seq!["--button"@, v]);
    assert(seq!["--button"@ + seq!['='] + v] + Seq::<Seq<char>>::empty() =~= seq![
        "--button"@ + seq!['='] + v,
    ]);
}

/// A value written inline (`--flag=value`) is read exactly as the same value
/// written as the next argument (`--flag value`): both command lines parse to
/// the same help, version and run, or are refused with the same message.
pub proof fn lemma_inline_value_same_as_separate(f: Seq<char>, v: Seq<char>, rest: Seq<Seq<char>>)
    requires
        is_value_flag(f),
    ensures
        parse_outcome(seq![f, v] + rest) == parse_outcome(seq![f + seq!['='] + v] + rest),
{
    lemma_value_flags_have_no_equals(f);
    let joined_arg = f + seq!['='] + v;
    assert forall|j: int| 0 <= j < f.len() implies joined_arg[j] != '=' by {
        assert(joined_arg[j] == f[j]);
    }
    assert(joined_arg[f.len() as int] == '=');
    lemma_first_index_of(joined_arg, '=', f.len() as int);
    assert(joined_arg.take(f.len() as int) =~= f);
    assert(joined_arg.skip(f.len() as int + 1) =~= v);
    assert(first_index_of(f, '=') is None);
    let separate = seq![f, v] + rest;
    let inline = seq![joined_arg] + rest;
    assert(separate[0] == f && separate[1] == v);
    assert(inline[0] == joined_arg);
    let st = start_state();
    lemma_step_advances(separate, 0, st);
    lemma_step_advances(inline, 0, st);
    match parse_step(separate, 0, st) {
        Ok((next_st, j)) => {
            assert(j == 2);
            assert(parse_step(inline, 0, st) == Ok::<(ParseState, int), Seq<char>>((next_st, 1)));
            lemma_parse_shift(seq![f, v], rest, 0, next_st);
            lemma_parse_shift(seq![joined_arg], rest, 0, next_st);
        },
        Err(e) => {
            assert(parse_step(inline, 0, st) == Err::<(ParseState, int), Seq<char>>(e));
        },
    }
}

/// How `describe` names the timing.
pub open spec fn timing_text(s: Settings) -> Seq<char> {
    match s.timing {
        TimingMode::Fixed => "every "@ + decimal_text(s.interval_ms as nat) + " ms"@,
        TimingMode::Uniform => "every "@ + decimal_text(s.interval_min_ms as nat) + "-"@
            + decimal_text(s.interval_max_ms as nat) + " ms"@,
        TimingMode::Normal => "every "@ + decimal_text(s.interval_mean_ms as nat) + "+-"@
            + decimal_text(s.interval_std_ms as nat) + " ms"@,
    }
}

/// How `describe` names the place.
pub open spec fn place_text(s: Settings) -> Seq<char> {
    match s.position {
        PositionMode::Cursor => "at the pointer"@,
        PositionMode::Fixed => "at "@ + signed_text(s.point.0 as int) + ","@ + signed_text(
            s.point.1 as int,
        ),
    }
}

/// How `describe` names the jitter.
pub open spec fn jitter_text(s: Settings) -> Seq<char> {
    match s.jitter {
        JitterMode::Off => Seq::empty(),
        _ => " (+-"@ + decimal_text(s.jitter_x as nat) + "x"@ + decimal_text(s.jitter_y as nat)
            + " px)"@,
    }
}

/// How `describe` names the limits.
pub open spec fn limits_text(s: Settings) -> Seq<char> {
    if s.max_clicks == 0 && s.max_seconds == 0 {
        "no limit"@
    } else if s.max_seconds == 0 {
        decimal_text(s.max_clicks as nat) + " clicks"@
    } else if s.max_clicks == 0 {
        decimal_text(s.max_seconds as nat) + " s"@
    } else {
        decimal_text(s.max_clicks as nat) + " clicks or "@ + decimal_text(s.max_seconds as nat)
            + " s"@
    }
}

/// How `describe` names the start delay.
pub open spec fn delay_text(s: Settings) -> Seq<char> {
    if s.start_delay_ms == 0 {
        Seq::empty()
    } else {
        " after "@ + decimal_text(s.start_delay_ms as nat) + " ms"@
    }
}

/// The one-line summary of a run that `describe` prints, such as
/// `left every 100 ms at 640,360 (+-25x25 px), 20 clicks`.
pub open spec fn description(s: Settings) -> Seq<char> {
    lower_ascii(s.button.label_text()) + " "@ + timing_text(s) + " "@ + place_text(s) + jitter_text(
        s,
    ) + ", "@ + limits_text(s) + delay_text(s)
}

/// The one-line summary of a run printed before a headless run starts.
pub fn describe(settings: &Settings) -> (line: String)
    ensures
        line@ == description(*settings),
{
    let timing = match settings.timing {
        TimingMode::Fixed => "every ".to_owned().concat(u32_text(settings.interval_ms).as_str()).concat(
            " ms",
        ),
        TimingMode::Uniform => "every ".to_owned().concat(
            u32_text(settings.interval_min_ms).as_str(),
        ).concat("-").concat(u32_text(settings.interval_max_ms).as_str()).concat(" ms"),
        TimingMode::Normal => "every ".to_owned().concat(
            u32_text(settings.interval_mean_ms).as_str(),
        ).concat("+-").concat(u32_text(settings.interval_std_ms).as_str()).concat(" ms"),
    };
    let place = match settings.position {
        PositionMode::Cursor => "at the pointer".to_owned(),
        PositionMode::Fixed => "at ".to_owned().concat(i32_text(settings.point.0).as_str()).concat(
            ",",
        ).concat(i32_text(settings.point.1).as_str()),
    };
    let jitter = match settings.jitter {
        JitterMode::Off => String::new(),
        _ => " (+-".to_owned().concat(u32_text(settings.jitter_x).as_str()).concat("x").concat(
            u32_text(settings.jitter_y).as_str(),
        ).concat(" px)"),
    };
    let limits = if settings.max_clicks == 0 && settings.max_seconds == 0 {
        "no limit".to_owned()
    } else if settings.max_seconds == 0 {
        u64_text(settings.max_clicks).concat(" clicks")
    } else if settings.max_clicks == 0 {
        u32_text(settings.max_seconds).concat(" s")
    } else {
        u64_text(settings.max_clicks).concat(" clicks or ").concat(
            u32_text(settings.max_seconds).as_str(),
        ).concat(" s")
    };
    let delay = if settings.start_delay_ms == 0 {
        String::new()
    } else {
        " after ".to_owned().concat(u32_text(settings.start_delay_ms).as_str()).concat(" ms")
    };
    let button = string_of(&lowercase_chars(&chars_of(settings.button.label())));
    let line = button.concat(" ").concat(timing.as_str()).concat(" ").concat(place.as_str()).concat(
        jitter.as_str(),
    ).concat(", ").concat(limits.as_str()).concat(delay.as_str());
    assert(line@ =~= description(*settings));
    line
}

} // verus!
