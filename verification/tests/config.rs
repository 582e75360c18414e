use featherclick::config::{
    ClickStyle, JitterMode, MouseButton, PositionMode, Settings, Theme, TimingMode,
};

#[test]
fn sanitize_repairs_inverted_and_empty_ranges() {
    let mut s = Settings {
        interval_min_ms: 300,
        interval_max_ms: 50,
        interval_ms: 0,
        interval_std_ms: 900,
        interval_mean_ms: 40,
        ..Settings::default()
    };
    s.sanitize();
    assert_eq!((s.interval_min_ms, s.interval_max_ms), (50, 300));
    assert_eq!(s.interval_ms, 1, "zero interval would spin the click loop");
    assert!(
        s.interval_std_ms <= s.interval_mean_ms,
        "a sigma above the mean would make the sampler clamp constantly"
    );
}

#[test]
fn defaults_match_the_documented_config() {
    let s = Settings::default();
    assert_eq!(s.button, MouseButton::Left);
    assert_eq!(s.style, ClickStyle::Single);
    assert_eq!(s.hold_ms, 40);
    assert_eq!(s.timing, TimingMode::Uniform);
    assert_eq!(s.interval_ms, 100);
    assert_eq!((s.interval_min_ms, s.interval_max_ms), (40, 120));
    assert_eq!((s.interval_mean_ms, s.interval_std_ms), (100, 25));
    assert_eq!(s.position, PositionMode::Cursor);
    assert_eq!(s.point, (0, 0));
    assert_eq!(s.jitter, JitterMode::Off);
    assert_eq!((s.jitter_x, s.jitter_y), (4, 4));
    assert_eq!((s.max_clicks, s.max_seconds, s.stop_on_move_px), (0, 0, 0));
    assert_eq!(s.hotkey_toggle, "F6");
    assert_eq!(s.hotkey_capture, "F7");
    assert_eq!(s.theme, Theme::Dark);
    assert!(!s.always_on_top);
}

#[test]
fn defaults_survive_sanitize_unchanged() {
    let mut s = Settings::default();
    s.sanitize();
    assert_eq!(s, Settings::default());
}

#[test]
fn sanitize_clamps_every_range_and_is_idempotent() {
    let mut s = Settings {
        hold_ms: 0,
        interval_ms: 999_999,
        interval_min_ms: 0,
        interval_max_ms: 700_000,
        interval_mean_ms: 0,
        interval_std_ms: 5,
        start_delay_ms: u32::MAX,
        jitter_x: 20_000,
        jitter_y: 10_000,
        max_seconds: 100_000,
        stop_on_move_px: 10_001,
        max_clicks: u64::MAX,
        ..Settings::default()
    };
    s.sanitize();
    assert_eq!(s.hold_ms, 1);
    assert_eq!(s.interval_ms, 600_000);
    assert_eq!((s.interval_min_ms, s.interval_max_ms), (1, 600_000));
    assert_eq!((s.interval_mean_ms, s.interval_std_ms), (1, 1));
    assert_eq!(s.start_delay_ms, 86_400_000);
    assert_eq!((s.jitter_x, s.jitter_y), (10_000, 10_000));
    assert_eq!(s.max_seconds, 86_400);
    assert_eq!(s.stop_on_move_px, 10_000);
    assert_eq!(s.max_clicks, u64::MAX, "the click limit is not clamped");

    let once = s.clone();
    s.sanitize();
    assert_eq!(s, once);
}

#[test]
fn sanitize_swaps_an_inverted_pair_after_clamping() {
    let mut s = Settings {
        interval_min_ms: 900_000,
        interval_max_ms: 0,
        ..Settings::default()
    };
    s.sanitize();
    assert_eq!((s.interval_min_ms, s.interval_max_ms), (1, 600_000));
}

#[test]
fn labels_name_every_option() {
    assert_eq!(MouseButton::Left.label(), "Left");
    assert_eq!(MouseButton::Right.label(), "Right");
    assert_eq!(MouseButton::Middle.label(), "Middle");
    assert_eq!(ClickStyle::Single.label(), "Single");
    assert_eq!(ClickStyle::Double.label(), "Double");
    assert_eq!(ClickStyle::Hold.label(), "Hold");
    assert_eq!(TimingMode::Fixed.label(), "Fixed");
    assert_eq!(TimingMode::Uniform.label(), "Random");
    assert_eq!(TimingMode::Normal.label(), "Human-like");
    assert_eq!(JitterMode::Off.label(), "Off");
    assert_eq!(JitterMode::Rectangle.label(), "Box");
    assert_eq!(JitterMode::Ellipse.label(), "Ellipse");
    assert_eq!(JitterMode::Normal.label(), "Spread");
}
