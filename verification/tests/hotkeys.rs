use std::time::Duration;

use featherclick::hotkeys::{binding, invalid, modifiers, parse, pretty, Code, Gate};

/// Nanoseconds on the test clock.
fn ns(at: Duration) -> u64 {
    at.as_nanos() as u64
}

#[test]
fn config_strings_round_trip_through_the_hotkey_type() {
    for text in ["F6", "F7", "Ctrl+Shift+K", "Alt+Digit1"] {
        let parsed = parse(text).unwrap_or_else(|| panic!("{text} should parse"));
        let printed = parsed.to_string();
        assert_eq!(
            parse(&printed).map(|hotkey| hotkey.id()),
            Some(parsed.id()),
            "{text} printed as {printed} and did not survive a round trip"
        );
    }
}

#[test]
fn empty_and_malformed_bindings_are_optional_not_fatal() {
    assert!(parse("").is_none());
    assert!(parse("   ").is_none());
    assert!(parse("NotAKey").is_none());
    assert!(!invalid(""), "clearing a binding is allowed");
    assert!(!invalid("F6"));
    assert!(invalid("NotAKey"));
    assert!(!invalid("  "), "whitespace is treated as cleared");
}

#[test]
fn stored_bindings_display_readably() {
    assert_eq!(pretty("F6"), "F6");
    assert_eq!(pretty("shift+control+KeyK"), "Shift+Ctrl+K");
    assert_eq!(pretty("alt+Digit1"), "Alt+1");
    assert_eq!(pretty("super+Numpad0"), "Super+Numpad0");
    assert_eq!(pretty(""), "");
    // whatever the UI prints must still parse back into a working binding
    let stored = "shift+control+KeyK";
    assert_eq!(
        parse(&pretty(stored)).map(|hotkey| hotkey.id()),
        parse(stored).map(|h| h.id())
    );
}

#[test]
fn ids_identify_the_right_binding() {
    let toggle = parse("F8").unwrap();
    let capture = parse("F9").unwrap();
    assert_ne!(toggle.id(), capture.id());
    assert_eq!(parse("F8").unwrap().id(), toggle.id());
}

#[test]
fn gate_passes_distinct_taps_and_ignores_releases() {
    let mut gate = Gate::new();
    let start = Duration::ZERO;
    // A tap is press-then-release; releases alone must never trigger.
    let tap = |gate: &mut Gate, at: Duration| -> bool {
        let triggered = gate.accept(7, true, ns(start + at));
        assert!(
            !gate.accept(7, false, ns(start + at + Duration::from_millis(5))),
            "releases never trigger"
        );
        triggered
    };
    assert!(
        tap(&mut gate, Duration::ZERO),
        "the first press must trigger"
    );
    assert!(
        tap(&mut gate, Duration::from_millis(400)),
        "a second tap must trigger"
    );
    assert!(
        tap(&mut gate, Duration::from_millis(800)),
        "a third tap must trigger"
    );
}

#[test]
fn gate_fires_once_while_a_key_is_held_on_x11() {
    let mut gate = Gate::new();
    let start = Duration::ZERO;
    assert!(
        gate.accept(3, true, ns(start)),
        "the initial press must trigger"
    );

    // X11 auto-repeat: after the repeat delay, a Release/Press pair every 33 ms.
    let mut triggers = 0;
    for tick in 0..30 {
        let at = start + Duration::from_millis(500) + Duration::from_millis(33 * tick);
        gate.accept(3, false, ns(at));
        if gate.accept(3, true, ns(at + Duration::from_millis(1))) {
            triggers += 1;
        }
    }
    assert_eq!(triggers, 0, "holding the key must not retrigger");

    // ...and once really released, the next tap works again.
    assert!(!gate.accept(3, false, ns(start + Duration::from_millis(1600))));
    assert!(gate.accept(3, true, ns(start + Duration::from_millis(2000))));
}

#[test]
fn gate_keeps_single_press_platforms_working() {
    // Windows and macOS send one press and a late synthetic release.
    let mut gate = Gate::new();
    let start = Duration::ZERO;
    assert!(gate.accept(5, true, ns(start)));
    assert!(!gate.accept(5, false, ns(start + Duration::from_millis(50))));
    assert!(gate.accept(5, true, ns(start + Duration::from_millis(600))));
}

#[test]
fn gate_suppresses_a_press_just_after_its_release_and_not_one_after_the_gap() {
    let mut gate = Gate::new();
    assert!(gate.accept(9, true, 1_000));
    assert!(!gate.accept(9, false, 2_000));
    // 24.999 ms after the release: still the repeat signature.
    assert!(!gate.accept(9, true, 2_000 + 24_999_999));
    assert!(!gate.accept(9, false, 100_000_000));
    // exactly the gap after the release: a genuine tap.
    assert!(gate.accept(9, true, 125_000_000));
}

#[test]
fn gate_lets_a_different_binding_through_while_one_is_held() {
    let mut gate = Gate::default();
    assert!(gate.accept(1, true, 0));
    assert!(gate.accept(2, true, 1_000));
    assert!(!gate.accept(2, true, 2_000), "the second binding is now held");
}

#[test]
fn matches_compares_against_the_parsed_binding_id() {
    let f8 = parse("F8").unwrap().id();
    assert!(featherclick::hotkeys::matches(f8, "F8"));
    assert!(featherclick::hotkeys::matches(f8, "  F8  "));
    assert!(!featherclick::hotkeys::matches(f8, "F9"));
    assert!(!featherclick::hotkeys::matches(f8, ""));
    assert!(!featherclick::hotkeys::matches(f8, "NotAKey"));
}

#[test]
fn pretty_keeps_unknown_parts_and_trims_each_part() {
    assert_eq!(pretty("  meta + KeyA "), "Meta+A");
    assert_eq!(pretty("control++Digit9"), "Ctrl++9");
    assert_eq!(pretty("Key"), "");
    assert_eq!(pretty("   "), "");
}

#[test]
fn modifiers_are_absent_when_no_key_is_held() {
    assert!(modifiers(false, false, false, false).is_none());
    let mods = modifiers(true, true, false, false).unwrap();
    assert!(mods.contains(global_hotkey::hotkey::Modifiers::CONTROL));
    assert!(mods.contains(global_hotkey::hotkey::Modifiers::SHIFT));
    assert!(!mods.contains(global_hotkey::hotkey::Modifiers::ALT));
}

#[test]
fn captured_combinations_match_their_config_text() {
    let ctrl_shift_k = binding(Code::KeyK, true, true, false, false);
    assert_eq!(Some(ctrl_shift_k.id()), parse("Ctrl+Shift+KeyK").map(|h| h.id()));
    assert_eq!(ctrl_shift_k.id() >> 16, 0x8 | 0x200);
    assert_eq!(ctrl_shift_k.id() % 65536, Code::KeyK as u32, "the key fills the lower half");
    assert_ne!(binding(Code::KeyJ, true, true, false, false).id(), ctrl_shift_k.id());
    let f6 = binding(Code::F6, false, false, false, false);
    assert_eq!(Some(f6.id()), parse("F6").map(|h| h.id()));
    assert_eq!(f6.id() >> 16, 0);
    assert_eq!(binding(Code::KeyA, false, false, true, true).id() >> 16, 0x1 | 0x40, "super is stored as meta");
}
