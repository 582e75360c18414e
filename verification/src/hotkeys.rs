//! Hotkey bindings: parsing the stored text, showing it readably, telling a
//! genuine key press from auto-repeat, and registering the bindings.

pub use global_hotkey::hotkey::Code;
use global_hotkey::hotkey::{HotKey, Modifiers};
use global_hotkey::GlobalHotKeyManager;
use vstd::prelude::*;

use crate::text::{
    chars_of, has_prefix, join_chars, joined, same_chars, slice_chars, split_chars, split_on,
    starts_with, string_of, trim_chars, trimmed,
};

verus! {

/// What a registered hotkey does.
#[derive(Debug, Clone, Copy, PartialEq, Eq, Structural)]
pub enum Action {
    Toggle,
    Capture,
}

/// One `+`-separated part of a stored binding as it is shown: modifier names
/// capitalised, the `Key`/`Digit` prefix of a key code dropped.
pub open spec fn display_part(part: Seq<char>) -> Seq<char> {
    let t = trimmed(part);
    if t == "shift"@ {
        "Shift"@
    } else if t == "control"@ {
        "Ctrl"@
    } else if t == "alt"@ {
        "Alt"@
    } else if t == "super"@ {
        "Super"@
    } else if t == "meta"@ {
        "Meta"@
    } else if starts_with(t, "Key"@) {
        t.skip("Key"@.len() as int)
    } else if starts_with(t, "Digit"@) {
        t.skip("Digit"@.len() as int)
    } else {
        t
    }
}

/// A stored binding as it is shown in the window: empty for an empty or blank
/// binding, else each part shown by `display_part` and rejoined with `+`.
pub open spec fn pretty_text(binding: Seq<char>) -> Seq<char> {
    let t = trimmed(binding);
    if t.len() == 0 {
        Seq::empty()
    } else {
        joined(split_on(t, '+').map_values(|p: Seq<char>| display_part(p)), '+')
    }
}

/// `display_part` on characters.
fn show_part(part: &Vec<char>) -> (shown: Vec<char>)
    ensures
        shown@ == display_part(part@),
{
    let t = trim_chars(part);
    if same_chars(&t, &chars_of("shift")) {
        chars_of("Shift")
    } else if same_chars(&t, &chars_of("control")) {
        chars_of("Ctrl")
    } else if same_chars(&t, &chars_of("alt")) {
        chars_of("Alt")
    } else if same_chars(&t, &chars_of("super")) {
        chars_of("Super")
    } else if same_chars(&t, &chars_of("meta")) {
        chars_of("Meta")
    } else {
        let key = chars_of("Key");
        if has_prefix(&t, &key) {
            return slice_chars(&t, key.len(), t.len());
        }
        let digit = chars_of("Digit");
        if has_prefix(&t, &digit) {
            return slice_chars(&t, digit.len(), t.len());
        }
        t
    }
}

/// Renders a stored binding for display: the backends round-trip a canonical
/// form like `shift+control+KeyK`, which is accurate but not what anyone wants
/// to read in the UI.
pub fn pretty(binding: &str) -> (shown: String)
    ensures
        shown@ == pretty_text(binding@),
{
    let t = trim_chars(&chars_of(binding));
    if t.len() == 0 {
        return String::new();
    }
    let parts = split_chars(&t, '+');
    let mut shown_parts: Vec<Vec<char>> = Vec::new();
    let mut i: usize = 0;
    while i < parts.len()
        invariant
            i <= parts@.len(),
            shown_parts@.len() == i,
            forall|k: int|
                0 <= k < i ==> #[trigger] shown_parts@[k]@ == display_part(parts@[k]@),
        decreases parts@.len() - i,
    {
        shown_parts.push(show_part(&parts[i]));
        i = i + 1;
    }
    let ghost views = parts@.map_values(|p: Vec<char>| p@);
    assert(shown_parts@.map_values(|p: Vec<char>| p@) =~= views.map_values(
        |p: Seq<char>| display_part(p),
    ));
    string_of(&join_chars(&shown_parts, '+'))
}

/// A release/press pair closer together than this, in nanoseconds, is
/// auto-repeat, not a tap (25 ms). X11 emits the pair back to back on each
/// repeat tick; a human double-tap leaves far more than this between release
/// and press.
pub const REPEAT_PAIR_GAP_NS: u64 = 25_000_000;

/// What a `Gate` remembers: the binding whose press was accepted and whose
/// release has not arrived yet, and the last release seen with its time.
pub struct GateState {
    pub held: Option<u32>,
    pub released: Option<(u32, u64)>,
}

/// Time from `earlier` to `now`, zero when `earlier` is not before `now`.
pub open spec fn time_since(now: u64, earlier: u64) -> int {
    if now >= earlier {
        now - earlier
    } else {
        0
    }
}

/// A press of `id` at `now` continues an auto-repeat burst: the last release
/// seen was of the same binding, less than the repeat gap ago.
pub open spec fn is_repeat_press(state: GateState, id: u32, now: u64) -> bool {
    state.released matches Some((released_id, at)) && released_id == id && time_since(now, at)
        < REPEAT_PAIR_GAP_NS
}

/// One event fed to a gate in state `state`: the state after it, and whether
/// it triggers its action. A release never triggers and is remembered; a press
/// triggers unless the binding is already held or the press is auto-repeat,
/// and either way the binding is held afterwards.
pub open spec fn gate_step(state: GateState, id: u32, pressed: bool, now: u64) -> (GateState, bool) {
    if !pressed {
        (GateState { held: None, released: Some((id, now)) }, false)
    } else if state.held == Some(id) || is_repeat_press(state, id, now) {
        (GateState { held: Some(id), ..state }, false)
    } else {
        (GateState { held: Some(id), ..state }, true)
    }
}

/// Filters key events down to genuine presses.
///
/// X11 auto-repeat is the reason this exists: the server emits a *pair* of
/// events (KeyRelease immediately followed by KeyPress) on every repeat tick,
/// so a held hotkey would otherwise re-fire forever and a held toggle would
/// flap. Windows and macOS send a single press, so the same gate covers both
/// without a timer.
pub struct Gate {
    /// Binding whose press was accepted and whose release has not arrived yet.
    held: Option<u32>,
    /// Last release seen (binding and time in nanoseconds), used to recognise
    /// the repeat signature.
    released: Option<(u32, u64)>,
}

impl View for Gate {
    type V = GateState;

    closed spec fn view(&self) -> GateState {
        GateState { held: self.held, released: self.released }
    }
}

impl Gate {
    pub fn new() -> (gate: Gate)
        ensures
            gate@ == (GateState { held: None, released: None }),
    {
        Gate { held: None, released: None }
    }

    /// Feeds one event in, at `now` nanoseconds on a monotonic clock; returns
    /// `true` when it should trigger its action.
    pub fn accept(&mut self, id: u32, pressed: bool, now: u64) -> (trigger: bool)
        ensures
            (final(self)@, trigger) == gate_step(old(self)@, id, pressed, now),
    {
        if !pressed {
            self.held = None;
            self.released = Some((id, now));
            return false;
        }
        let is_repeat = match self.released {
            Some((released_id, at)) => released_id == id && now.saturating_sub(at)
                < REPEAT_PAIR_GAP_NS,
            None => false,
        };
        let already_held = match self.held {
            Some(held_id) => held_id == id,
            None => false,
        };
        if already_held || is_repeat {
            // Track repeats as held so the whole burst stays suppressed.
            self.held = Some(id);
            return false;
        }
        self.held = Some(id);
        true
    }
}

impl Default for Gate {
    fn default() -> (gate: Gate)
        ensures
            gate@ == (GateState { held: None, released: None }),
    {
        Gate::new()
    }
}

/// A release never triggers.
pub proof fn lemma_release_never_triggers(state: GateState, id: u32, now: u64)
    ensures
        !gate_step(state, id, false, now).1,
{
}

/// The first press on a fresh gate triggers.
pub proof fn lemma_first_press_triggers(id: u32, now: u64)
    ensures
        gate_step(GateState { held: None, released: None }, id, true, now).1,
{
}

/// A press of a binding that is not held and whose last release (if any) is
/// at least the repeat gap old triggers: distinct taps always get through.
pub proof fn lemma_tap_after_release_triggers(state: GateState, id: u32, now: u64)
    requires
        state.held != Some(id),
        !is_repeat_press(state, id, now),
    ensures
        gate_step(state, id, true, now).1,
        gate_step(state, id, true, now).0.held == Some(id),
{
}

/// Events applied one after another to a gate in state `state`: its state
/// afterwards, and whether any event triggered. Each event is a binding id,
/// whether it is a press, and its time.
pub open spec fn gate_run(state: GateState, events: Seq<(u32, bool, u64)>) -> (GateState, bool)
    decreases events.len(),
{
    if events.len() == 0 {
        (state, false)
    } else {
        let (before, fired) = gate_run(state, events.drop_last());
        let e = events.last();
        let (after, now_fired) = gate_step(before, e.0, e.1, e.2);
        (after, fired || now_fired)
    }
}

/// X11 auto-repeat of a held key: after the binding is held, each repeat
/// tick delivers a release immediately followed by a press of it.
pub open spec fn is_repeat_burst(id: u32, events: Seq<(u32, bool, u64)>) -> bool {
    &&& events.len() % 2 == 0
    &&& forall|k: int|
        0 <= k < events.len() / 2 ==> {
            let release = #[trigger] events[2 * k];
            let press = events[2 * k + 1];
            &&& release.0 == id && !release.1
            &&& press.0 == id && press.1
            &&& time_since(press.2, release.2) < REPEAT_PAIR_GAP_NS
        }
}

/// Holding a key fires once: while a binding is held, any run of
/// auto-repeat release/press pairs of it triggers nothing and leaves it held.
pub proof fn lemma_held_key_fires_once(state: GateState, id: u32, events: Seq<(u32, bool, u64)>)
    requires
        state.held == Some(id),
        is_repeat_burst(id, events),
    ensures
        !gate_run(state, events).1,
        gate_run(state, events).0.held == Some(id),
    decreases events.len(),
{
    if events.len() > 0 {
        let shorter = events.subrange(0, events.len() - 2);
        let n = events.len() / 2 - 1;
        assert forall|k: int| 0 <= k < shorter.len() / 2 implies {
            let release = #[trigger] shorter[2 * k];
            let press = shorter[2 * k + 1];
            &&& release.0 == id && !release.1
            &&& press.0 == id && press.1
            &&& time_since(press.2, release.2) < REPEAT_PAIR_GAP_NS
        } by {
            assert(shorter[2 * k] == events[2 * k]);
            assert(shorter[2 * k + 1] == events[2 * k + 1]);
            let _ = events[2 * k];
        }
        lemma_held_key_fires_once(state, id, shorter);
        let release = events[2 * n];
        let press = events[2 * n + 1];
        assert(events.drop_last().drop_last() =~= shorter);
        assert(events.drop_last().last() == release);
        assert(events.last() == press);
        assert(release.0 == id && !release.1 && press.0 == id && press.1);
        let (mid, fired) = gate_run(state, shorter);
        let (after_release, f1) = gate_step(mid, release.0, release.1, release.2);
        assert(gate_run(state, events.drop_last()) == (after_release, fired || f1));
        assert(is_repeat_press(after_release, id, press.2));
    }
}

#[verifier::external_type_specification]
#[verifier::external_body]
pub struct ExHotKey(HotKey);

#[verifier::external_type_specification]
#[verifier::external_body]
pub struct ExModifiers(Modifiers);

#[verifier::external_type_specification]
#[verifier::external_body]
pub struct ExCode(Code);

#[verifier::external_type_specification]
#[verifier::external_body]
pub struct ExGlobalHotKeyManager(GlobalHotKeyManager);

#[verifier::external_type_specification]
#[verifier::external_body]
pub struct ExHotKeyError(global_hotkey::Error);

/// The id of the hotkey that `global_hotkey` parses from `text`
/// (`HotKey::from_str`), or `None` when it rejects the text. The parser reads
/// only the text (the id packs the modifier bits and the key code); the one
/// thing fixed at build time is that `CmdOrCtrl` means the command key on
/// macOS builds and control elsewhere.
pub uninterp spec fn hotkey_id_of_text(text: Seq<char>) -> Option<u32>;

/// The public `id` field of a `HotKey`: its modifier bits shifted left by 16,
/// or-ed with its key code.
pub uninterp spec fn id_of_hotkey(hotkey: HotKey) -> u32;

/// Calls `HotKey::from_str`. Claims: it succeeds exactly when
/// `hotkey_id_of_text` is `Some`, and the parsed hotkey's `id` field is that
/// id, returned beside it. Nothing is stated of the hotkey's other fields.
#[verifier::external_body]
fn hotkey_from_text(text: &str) -> (parsed: Option<(HotKey, u32)>)
    ensures
        parsed is Some <==> hotkey_id_of_text(text@) is Some,
        parsed matches Some(found) ==> hotkey_id_of_text(text@) == Some(found.1),
        parsed matches Some(found) ==> id_of_hotkey(found.0) == found.1,
{
    match <HotKey as std::str::FromStr>::from_str(text) {
        Ok(hotkey) => Some((hotkey, hotkey.id)),
        Err(_) => None,
    }
}

/// The trimmed binding text and the id `global_hotkey` gives it, when the
/// binding is not blank and parses.
pub open spec fn binding_id(text: Seq<char>) -> Option<u32> {
    if trimmed(text).len() == 0 {
        None
    } else {
        hotkey_id_of_text(trimmed(text))
    }
}

/// Parses a binding and keeps its id beside it.
fn parse_with_id(text: &str) -> (parsed: Option<(HotKey, u32)>)
    ensures
        parsed is Some <==> binding_id(text@) is Some,
        parsed matches Some(found) ==> binding_id(text@) == Some(found.1),
        parsed matches Some(found) ==> id_of_hotkey(found.0) == found.1,
{
    let t = trim_chars(&chars_of(text));
    if t.len() == 0 {
        return None;
    }
    let trimmed_text = string_of(&t);
    hotkey_from_text(trimmed_text.as_str())
}

/// Parses a config string ("F6", "Ctrl+Shift+K"). Returns `None` for an empty
/// or malformed binding rather than failing the whole config.
pub fn parse(text: &str) -> (hotkey: Option<HotKey>)
    ensures
        hotkey is Some <==> binding_id(text@) is Some,
        hotkey matches Some(h) ==> binding_id(text@) == Some(id_of_hotkey(h)),
{
    match parse_with_id(text) {
        Some((hotkey, _)) => Some(hotkey),
        None => None,
    }
}

/// True when the binding text is present but cannot be parsed, which is worth
/// telling the user about.
pub fn invalid(text: &str) -> (bad: bool)
    ensures
        bad == (trimmed(text@).len() > 0 && binding_id(text@) is None),
{
    let t = trim_chars(&chars_of(text));
    t.len() != 0 && parse(text).is_none()
}

/// True when an event with hotkey id `id` is the binding stored as `text`,
/// resolved from the config text so the notifier thread needs no shared
/// manager state.
pub fn matches(id: u32, text: &str) -> (same: bool)
    ensures
        same == (binding_id(text@) == Some(id)),
{
    match parse_with_id(text) {
        Some((_, parsed_id)) => parsed_id == id,
        None => false,
    }
}

/// The modifier keys a captured combination can hold.
#[derive(Debug, Clone, Copy, PartialEq, Eq, Structural)]
pub enum ModifierKey {
    Control,
    Shift,
    Alt,
    Super,
}

impl ModifierKey {
    /// The `keyboard_types::Modifiers` bit of this key.
    pub open spec fn bit(self) -> u32 {
        match self {
            ModifierKey::Alt => 0x1,
            ModifierKey::Control => 0x8,
            ModifierKey::Shift => 0x200,
            ModifierKey::Super => 0x2000,
        }
    }
}

/// The flags set in a `Modifiers` value, each as its bit.
pub uninterp spec fn modifier_flags(mods: Modifiers) -> Set<u32>;

/// Calls `Modifiers::empty`. Claims: no flag is set.
#[verifier::external_body]
fn no_modifiers() -> (mods: Modifiers)
    ensures
        modifier_flags(mods) == Set::<u32>::empty(),
{
    Modifiers::empty()
}

/// Calls `Modifiers::set` with the flag of `key`. Claims: the flag is added
/// when `on` and removed otherwise, the others stay.
#[verifier::external_body]
#[allow(deprecated)]
fn set_modifier(mods: &mut Modifiers, key: ModifierKey, on: bool)
    ensures
        modifier_flags(*final(mods)) == if on {
            modifier_flags(*old(mods)).insert(key.bit())
        } else {
            modifier_flags(*old(mods)).remove(key.bit())
        },
{
    let flag = match key {
        ModifierKey::Control => Modifiers::CONTROL,
        ModifierKey::Shift => Modifiers::SHIFT,
        ModifierKey::Alt => Modifiers::ALT,
        ModifierKey::Super => Modifiers::SUPER,
    };
    mods.set(flag, on);
}

/// Calls `Modifiers::is_empty`. Claims: true exactly when no flag is set.
#[verifier::external_body]
fn modifiers_are_empty(mods: &Modifiers) -> (empty: bool)
    ensures
        empty == modifier_flags(*mods).is_empty(),
{
    mods.is_empty()
}

/// The bits of the modifiers chosen by the four switches.
pub open spec fn chosen_flags(ctrl: bool, shift: bool, alt: bool, sup: bool) -> Set<u32> {
    let with_ctrl = if ctrl { set![ModifierKey::Control.bit()] } else { Set::empty() };
    let with_shift = if shift { with_ctrl.insert(ModifierKey::Shift.bit()) } else { with_ctrl };
    let with_alt = if alt { with_shift.insert(ModifierKey::Alt.bit()) } else { with_shift };
    if sup { with_alt.insert(ModifierKey::Super.bit()) } else { with_alt }
}

/// Modifier set for a captured key combination: `None` when no modifier is
/// held.
pub fn modifiers(ctrl: bool, shift: bool, alt: bool, sup: bool) -> (mods: Option<Modifiers>)
    ensures
        mods is Some <==> (ctrl || shift || alt || sup),
        mods matches Some(m) ==> modifier_flags(m) == chosen_flags(ctrl, shift, alt, sup),
{
    let mut mods = no_modifiers();
    set_modifier(&mut mods, ModifierKey::Control, ctrl);
    set_modifier(&mut mods, ModifierKey::Shift, shift);
    set_modifier(&mut mods, ModifierKey::Alt, alt);
    set_modifier(&mut mods, ModifierKey::Super, sup);
    proof {
        let empty = Set::<u32>::empty();
        assert(empty.remove(ModifierKey::Control.bit()) =~= empty);
        assert(modifier_flags(mods) =~= chosen_flags(ctrl, shift, alt, sup));
        if ctrl {
            assert(chosen_flags(ctrl, shift, alt, sup).contains(ModifierKey::Control.bit()));
        }
        if shift {
            assert(chosen_flags(ctrl, shift, alt, sup).contains(ModifierKey::Shift.bit()));
        }
        if alt {
            assert(chosen_flags(ctrl, shift, alt, sup).contains(ModifierKey::Alt.bit()));
        }
        if sup {
            assert(chosen_flags(ctrl, shift, alt, sup).contains(ModifierKey::Super.bit()));
        }
        if !(ctrl || shift || alt || sup) {
            assert(chosen_flags(ctrl, shift, alt, sup) =~= empty);
        }
    }
    if modifiers_are_empty(&mods) {
        None
    } else {
        Some(mods)
    }
}

/// The modifier bits a hotkey packs for the flags `flags` among alt,
/// control, shift and super, the last stored as meta (`0x40`).
pub open spec fn packed_modifier_bits(flags: Set<u32>) -> int {
    (if flags.contains(0x1) {
        0x1int
    } else {
        0
    }) + (if flags.contains(0x8) {
        0x8int
    } else {
        0
    }) + (if flags.contains(0x200) {
        0x200int
    } else {
        0
    }) + (if flags.contains(0x2000) {
        0x40int
    } else {
        0
    })
}

/// The number of a key code (`code as u32`); the key codes number fewer than
/// 65536.
pub uninterp spec fn code_number(code: Code) -> u32;

/// The `Display` text of a hotkey (`HotKey::into_string`, such as
/// `shift+control+KeyK`): its modifiers, then its key code.
pub uninterp spec fn hotkey_display(hotkey: HotKey) -> Seq<char>;

/// Calls `HotKey::new`. Claims: the lower half of the hotkey's id
/// (`id % 65536`) is the key code's number; and, when the modifiers are among
/// alt, control, shift and super, the upper half (`id / 65536`) is their bits,
/// super stored as meta.
#[verifier::external_body]
fn hotkey_new(mods: Option<Modifiers>, code: Code) -> (hotkey: HotKey)
    ensures
        id_of_hotkey(hotkey) % 65536 == code_number(code),
        (mods matches Some(m) ==> modifier_flags(m).subset_of(set![0x1u32, 0x8, 0x200, 0x2000]))
            ==> id_of_hotkey(hotkey) / 65536 == match mods {
            Some(m) => packed_modifier_bits(modifier_flags(m)),
            None => 0,
        },
{
    HotKey::new(mods, code)
}

/// Builds a binding from a captured key combination: the key code fills the
/// lower half of its id, the modifiers held (super stored as meta) the upper
/// half.
pub fn binding(code: Code, ctrl: bool, shift: bool, alt: bool, sup: bool) -> (hotkey: HotKey)
    ensures
        id_of_hotkey(hotkey) % 65536 == code_number(code),
        id_of_hotkey(hotkey) / 65536 == (if ctrl {
            0x8int
        } else {
            0
        }) + (if shift {
            0x200int
        } else {
            0
        }) + (if alt {
            0x1int
        } else {
            0
        }) + (if sup {
            0x40int
        } else {
            0
        }),
{
    let mods = modifiers(ctrl, shift, alt, sup);
    proof {
        if let Some(m) = mods {
            let flags = chosen_flags(ctrl, shift, alt, sup);
            assert(flags.contains(0x1) == alt);
            assert(flags.contains(0x8) == ctrl);
            assert(flags.contains(0x200) == shift);
            assert(flags.contains(0x2000) == sup);
            assert(flags.subset_of(set![0x1u32, 0x8, 0x200, 0x2000]));
        }
    }
    hotkey_new(mods, code)
}

/// Calls `GlobalHotKeyManager::new`. Nothing is claimed: whether the
/// platform backend is reachable depends on the session it runs in.
#[verifier::external_body]
fn new_manager() -> (manager: Result<GlobalHotKeyManager, global_hotkey::Error>) {
    GlobalHotKeyManager::new()
}

/// Calls `GlobalHotKeyManager::register` on the manager of `hotkeys`. Claims:
/// `hotkey` is recorded as handed to the backend, whether the call returned
/// `Ok` is recorded as its answer, and the registered bindings stay as they
/// were. Nothing is claimed of which answer comes: another application may
/// own the combination.
#[verifier::external_body]
fn register_hotkey(hotkeys: &mut Hotkeys, hotkey: HotKey) -> (done: Result<
    (),
    global_hotkey::Error,
>)
    ensures
        final(hotkeys).sent() == old(hotkeys).sent().push(hotkey),
        final(hotkeys).accepted() == old(hotkeys).accepted().push(done is Ok),
        final(hotkeys).withdrawn() == old(hotkeys).withdrawn(),
        final(hotkeys).registered(Action::Toggle) == old(hotkeys).registered(Action::Toggle),
        final(hotkeys).registered(Action::Capture) == old(hotkeys).registered(Action::Capture),
{
    hotkeys.manager.register(hotkey)
}

/// Calls `GlobalHotKeyManager::unregister` on the manager of `hotkeys`.
/// Claims: `hotkey` is recorded as handed to the backend for removal, and the
/// registered bindings and the registration records stay as they were. Nothing
/// is claimed of the outcome.
#[verifier::external_body]
fn unregister_hotkey(hotkeys: &mut Hotkeys, hotkey: HotKey) -> (done: Result<
    (),
    global_hotkey::Error,
>)
    ensures
        final(hotkeys).withdrawn() == old(hotkeys).withdrawn().push(hotkey),
        final(hotkeys).sent() == old(hotkeys).sent(),
        final(hotkeys).accepted() == old(hotkeys).accepted(),
        final(hotkeys).registered(Action::Toggle) == old(hotkeys).registered(Action::Toggle),
        final(hotkeys).registered(Action::Capture) == old(hotkeys).registered(Action::Capture),
{
    hotkeys.manager.unregister(hotkey)
}

/// The `Display` text of a `global_hotkey::Error`. Nothing is claimed of the
/// text: for an operating-system error it is the system's own message, which
/// depends on the platform and its language settings.
#[verifier::external_body]
fn error_text(error: &global_hotkey::Error) -> (text: String) {
    error.to_string()
}

/// The `Display` text of a hotkey (`HotKey::into_string`). Claims: it is
/// `hotkey_display` of the hotkey.
#[verifier::external_body]
fn hotkey_text(hotkey: &HotKey) -> (text: String)
    ensures
        text@ == hotkey_display(*hotkey),
{
    hotkey.to_string()
}

/// The registered global bindings.
pub struct Hotkeys {
    manager: GlobalHotKeyManager,
    toggle: Option<HotKey>,
    capture: Option<HotKey>,
    /// The log of registration requests: every hotkey handed to the backend
    /// to register, in order.
    sent: Ghost<Seq<HotKey>>,
    /// The log of removal requests: every hotkey handed to the backend to
    /// unregister, in order.
    withdrawn: Ghost<Seq<HotKey>>,
    /// The backend's answer to each registration request, in order: true
    /// where it accepted.
    accepted: Ghost<Seq<bool>>,
}

/// The hotkeys given for the two bindings, in registration order.
pub open spec fn handed(toggle: Option<HotKey>, capture: Option<HotKey>) -> Seq<HotKey> {
    let first = match toggle {
        Some(t) => seq![t],
        None => Seq::empty(),
    };
    match capture {
        Some(c) => first.push(c),
        None => first,
    }
}

/// `message` reports that the backend refused `hotkey`: the hotkey's text,
/// then the backend's error text.
pub open spec fn names_refusal(message: Seq<char>, hotkey: HotKey) -> bool {
    exists|detail: Seq<char>| message == hotkey_display(hotkey) + " unavailable: "@ + detail
}

/// The backend's answers to the registrations of two bindings, in order: one
/// for each binding given (`toggle`, `capture`), true where that binding ended
/// up registered (`toggle_ok`, `capture_ok`).
pub open spec fn answered(toggle: bool, capture: bool, toggle_ok: bool, capture_ok: bool) -> Seq<
    bool,
> {
    let first = if toggle {
        seq![toggle_ok]
    } else {
        Seq::empty()
    };
    if capture {
        first.push(capture_ok)
    } else {
        first
    }
}

/// The ids of the bindings given, in registration order.
pub open spec fn handed_ids(toggle: Option<u32>, capture: Option<u32>) -> Seq<u32> {
    let first = match toggle {
        Some(t) => seq![t],
        None => Seq::empty(),
    };
    match capture {
        Some(c) => first.push(c),
        None => first,
    }
}

impl Hotkeys {
    /// Every hotkey handed to the backend to register, in order.
    pub closed spec fn sent(&self) -> Seq<HotKey> {
        self.sent@
    }

    /// Every hotkey handed to the backend to unregister, in order.
    pub closed spec fn withdrawn(&self) -> Seq<HotKey> {
        self.withdrawn@
    }

    /// The backend's answer to each registration request, in order: true
    /// where it accepted.
    pub closed spec fn accepted(&self) -> Seq<bool> {
        self.accepted@
    }

    /// The binding of `action` that is currently registered.
    pub closed spec fn registered(&self, action: Action) -> Option<HotKey> {
        match action {
            Action::Toggle => self.toggle,
            Action::Capture => self.capture,
        }
    }

    /// Starts with nothing registered. The platform backend must live on the
    /// thread that owns the event loop.
    pub fn new() -> (hotkeys: Result<Hotkeys, String>)
        ensures
            hotkeys matches Ok(h) ==> h.registered(Action::Toggle) is None && h.registered(
                Action::Capture,
            ) is None && h.sent() == Seq::<HotKey>::empty() && h.withdrawn() == Seq::<
                HotKey,
            >::empty() && h.accepted() == Seq::<bool>::empty(),
            hotkeys matches Err(message) ==> exists|detail: Seq<char>|
                message@ == "global hotkeys unavailable: "@ + detail,
    {
        match new_manager() {
            Ok(manager) => Ok(
                Hotkeys {
                    manager,
                    toggle: None,
                    capture: None,
                    sent: Ghost(Seq::empty()),
                    withdrawn: Ghost(Seq::empty()),
                    accepted: Ghost(Seq::empty()),
                },
            ),
            Err(err) => {
                let detail = error_text(&err);
                let message = "global hotkeys unavailable: ".to_owned().concat(detail.as_str());
                Err(message)
            },
        }
    }

    /// Records the backend's answer to registering `hotkey` for `action`
    /// (which holds no binding): `None` when it accepted, else the text of its
    /// error. An accepted hotkey becomes the binding of `action` and there is
    /// no problem; a refused one leaves `action` unbound, and the problem is
    /// `name` (the hotkey's text) with the error text.
    pub fn record_registration(
        &mut self,
        action: Action,
        hotkey: HotKey,
        name: &str,
        failure: Option<String>,
    ) -> (problem: Option<String>)
        requires
            old(self).registered(action) is None,
        ensures
            failure is None ==> final(self).registered(action) == Some(hotkey) && problem is None,
            failure matches Some(detail) ==> (final(self).registered(action) is None && (
            problem matches Some(message) && message@ == name@ + " unavailable: "@ + detail@)),
            forall|other: Action| other != action ==> final(self).registered(other) == old(
                self,
            ).registered(other),
            final(self).sent() == old(self).sent(),
            final(self).withdrawn() == old(self).withdrawn(),
            final(self).accepted() == old(self).accepted(),
    {
        match failure {
            None => {
                match action {
                    Action::Toggle => self.toggle = Some(hotkey),
                    Action::Capture => self.capture = Some(hotkey),
                }
                None
            },
            Some(detail) => Some(name.to_owned().concat(" unavailable: ").concat(detail.as_str())),
        }
    }

    /// Registers one binding for `action`; returns the problem text when the
    /// backend refuses it.
    fn register_one(&mut self, action: Action, hotkey: HotKey) -> (problem: Option<String>)
        requires
            old(self).registered(action) is None,
        ensures
            final(self).registered(action) is Some ==> final(self).registered(action) == Some(
                hotkey,
            ),
            problem is None <==> final(self).registered(action) is Some,
            forall|other: Action| other != action ==> final(self).registered(other) == old(
                self,
            ).registered(other),
            problem matches Some(message) ==> names_refusal(message@, hotkey),
            final(self).sent() == old(self).sent().push(hotkey),
            final(self).withdrawn() == old(self).withdrawn(),
            final(self).accepted() == old(self).accepted().push(
                final(self).registered(action) is Some,
            ),
    {
        let failure = match register_hotkey(self, hotkey) {
            Ok(()) => None,
            Err(err) => Some(error_text(&err)),
        };
        let name = hotkey_text(&hotkey);
        self.record_registration(action, hotkey, name.as_str(), failure)
    }

    /// Replaces every binding. Returns a message when one could not be
    /// registered, which in practice means another application owns it; the
    /// first such message is kept.
    pub fn apply(&mut self, toggle: Option<HotKey>, capture: Option<HotKey>) -> (problem: Option<
        String,
    >)
        ensures
            final(self).registered(Action::Toggle) is Some ==> final(self).registered(
                Action::Toggle,
            ) == toggle,
            final(self).registered(Action::Capture) is Some ==> final(self).registered(
                Action::Capture,
            ) == capture,
            toggle is None ==> final(self).registered(Action::Toggle) is None,
            capture is None ==> final(self).registered(Action::Capture) is None,
            problem is None <==> (toggle is Some ==> final(self).registered(Action::Toggle) is Some)
                && (capture is Some ==> final(self).registered(Action::Capture) is Some),
            toggle matches Some(t) ==> (final(self).registered(Action::Toggle) is None ==> (
            problem matches Some(message) && names_refusal(message@, t))),
            capture matches Some(c) ==> ((toggle is None || final(self).registered(Action::Toggle) is Some)
                && final(self).registered(Action::Capture) is None ==> (problem matches Some(message)
                && names_refusal(message@, c))),
            final(self).sent().len() >= old(self).sent().len(),
            final(self).sent().take(old(self).sent().len() as int) == old(self).sent(),
            final(self).sent().skip(old(self).sent().len() as int) == handed(toggle, capture),
            final(self).withdrawn() == old(self).withdrawn() + handed(
                old(self).registered(Action::Toggle),
                old(self).registered(Action::Capture),
            ),
            final(self).accepted() == old(self).accepted() + answered(
                toggle is Some,
                capture is Some,
                final(self).registered(Action::Toggle) is Some,
                final(self).registered(Action::Capture) is Some,
            ),
    {
        let ghost before = self.sent@;
        let ghost before_accepted = self.accepted@;
        let ghost before_withdrawn = self.withdrawn@;
        let ghost old_bindings = handed(self.toggle, self.capture);
        if let Some(old_toggle) = self.toggle {
            let _ = unregister_hotkey(self, old_toggle);
        }
        if let Some(old_capture) = self.capture {
            let _ = unregister_hotkey(self, old_capture);
        }
        assert(self.withdrawn@ =~= before_withdrawn + old_bindings);
        self.toggle = None;
        self.capture = None;

        let mut problem: Option<String> = None;
        if let Some(hotkey) = toggle {
            problem = self.register_one(Action::Toggle, hotkey);
        }
        if let Some(hotkey) = capture {
            let second = self.register_one(Action::Capture, hotkey);
            if problem.is_none() {
                problem = second;
            }
        }
        assert(self.sent@.take(before.len() as int) =~= before);
        assert(self.sent@.skip(before.len() as int) =~= handed(toggle, capture));
        assert(self.accepted@ =~= before_accepted + answered(
            toggle is Some,
            capture is Some,
            self.toggle is Some,
            self.capture is Some,
        ));
        problem
    }

    /// Registers the bindings stored as `toggle_text` and `capture_text`
    /// (blank or unparsable ones are left unregistered). Returns the message
    /// to show: a registration problem first; else, since a hand-edited config
    /// can hold text no backend understands, the first binding that is
    /// present but invalid.
    pub fn register_bindings(&mut self, toggle_text: &str, capture_text: &str) -> (problem: Option<
        String,
    >)
        ensures
            binding_id(toggle_text@) is None ==> final(self).registered(Action::Toggle) is None,
            binding_id(capture_text@) is None ==> final(self).registered(Action::Capture) is None,
            binding_id(toggle_text@) is Some && final(self).registered(Action::Toggle) is None ==> (
            problem matches Some(message) && exists|t: HotKey|
                #![trigger id_of_hotkey(t)]
                Some(id_of_hotkey(t)) == binding_id(toggle_text@) && names_refusal(message@, t)),
            (binding_id(toggle_text@) is None || final(self).registered(Action::Toggle) is Some)
                && binding_id(capture_text@) is Some && final(self).registered(Action::Capture) is None
                ==> (problem matches Some(message) && exists|c: HotKey|
                #![trigger id_of_hotkey(c)]
                Some(id_of_hotkey(c)) == binding_id(capture_text@) && names_refusal(message@, c)),
            problem is None ==> (binding_id(toggle_text@) is Some ==> final(self).registered(
                Action::Toggle,
            ) is Some) && (binding_id(capture_text@) is Some ==> final(self).registered(
                Action::Capture,
            ) is Some),
            (binding_id(toggle_text@) is Some ==> final(self).registered(Action::Toggle) is Some)
                && (binding_id(capture_text@) is Some ==> final(self).registered(
                Action::Capture,
            ) is Some) ==> (match problem {
                Some(message) => Some(message@),
                None => None::<Seq<char>>,
            }) == invalid_binding_message(toggle_text@, capture_text@),
            final(self).registered(Action::Toggle) matches Some(h) ==> binding_id(toggle_text@)
                == Some(id_of_hotkey(h)),
            final(self).registered(Action::Capture) matches Some(h) ==> binding_id(capture_text@)
                == Some(id_of_hotkey(h)),
            final(self).sent().len() >= old(self).sent().len(),
            final(self).sent().take(old(self).sent().len() as int) == old(self).sent(),
            final(self).sent().skip(old(self).sent().len() as int).map_values(
                |h: HotKey| id_of_hotkey(h),
            ) == handed_ids(binding_id(toggle_text@), binding_id(capture_text@)),
            final(self).withdrawn() == old(self).withdrawn() + handed(
                old(self).registered(Action::Toggle),
                old(self).registered(Action::Capture),
            ),
            final(self).accepted() == old(self).accepted() + answered(
                binding_id(toggle_text@) is Some,
                binding_id(capture_text@) is Some,
                final(self).registered(Action::Toggle) is Some,
                final(self).registered(Action::Capture) is Some,
            ),
    {
        let toggle = parse(toggle_text);
        let capture = parse(capture_text);
        let ghost before = self.sent();
        let problem = self.apply(toggle, capture);
        assert(self.sent().skip(before.len() as int).map_values(|h: HotKey| id_of_hotkey(h))
            =~= handed_ids(binding_id(toggle_text@), binding_id(capture_text@)));
        if problem.is_some() {
            return problem;
        }
        if invalid(toggle_text) {
            return Some("not a valid hotkey: ".to_owned().concat(toggle_text));
        }
        if invalid(capture_text) {
            return Some("not a valid hotkey: ".to_owned().concat(capture_text));
        }
        None
    }
}

/// The message for the first of two stored bindings that is present but does
/// not parse, if any.
pub open spec fn invalid_binding_message(toggle_text: Seq<char>, capture_text: Seq<char>) -> Option<
    Seq<char>,
> {
    if trimmed(toggle_text).len() > 0 && binding_id(toggle_text) is None {
        Some("not a valid hotkey: "@ + toggle_text)
    } else if trimmed(capture_text).len() > 0 && binding_id(capture_text) is None {
        Some("not a valid hotkey: "@ + capture_text)
    } else {
        None
    }
}

} // verus!
