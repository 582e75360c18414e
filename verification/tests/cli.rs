use featherclick::cli::{describe, parse, Args, USAGE};
use featherclick::config::{JitterMode, MouseButton, PositionMode, Settings, TimingMode};

fn args(words: &[&str]) -> Vec<String> {
    words.iter().map(|w| w.to_string()).collect()
}

fn run_settings(words: &[&str]) -> Settings {
    let parsed: Args = parse(args(words)).expect("should parse");
    let mut settings = Settings::default();
    parsed.run.expect("a run flag was given").apply(&mut settings);
    settings
}

#[test]
fn no_arguments_open_the_window() {
    let parsed = parse(Vec::new()).unwrap();
    assert!(!parsed.help && !parsed.version && parsed.run.is_none());
}

#[test]
fn help_and_version_start_nothing() {
    let parsed = parse(args(&["-h", "--version"])).unwrap();
    assert!(parsed.help && parsed.version && parsed.run.is_none());
    let parsed = parse(args(&["--help=ignored"])).unwrap();
    assert!(parsed.help);
}

#[test]
fn run_flags_override_the_saved_settings() {
    let s = run_settings(&[
        "--headless", "--clicks", "20", "--interval", "100", "--at", "640,360", "--jitter", "25",
    ]);
    assert_eq!(s.max_clicks, 20);
    assert_eq!(s.timing, TimingMode::Fixed);
    assert_eq!(s.interval_ms, 100);
    assert_eq!(s.position, PositionMode::Fixed);
    assert_eq!(s.point, (640, 360));
    assert_eq!(s.jitter, JitterMode::Rectangle);
    assert_eq!((s.jitter_x, s.jitter_y), (25, 25));
    let untouched = Settings::default();
    assert_eq!(s.style, untouched.style);
    assert_eq!(s.interval_min_ms, untouched.interval_min_ms);
    assert_eq!(s.hotkey_toggle, untouched.hotkey_toggle);
}

#[test]
fn inline_values_case_and_spaces_are_accepted() {
    let s = run_settings(&["--seconds=30", "--button", "RIGHT", "--delay= 250 ", "--at= -5 , 7"]);
    assert_eq!(s.max_seconds, 30);
    assert_eq!(s.button, MouseButton::Right);
    assert_eq!(s.start_delay_ms, 250);
    assert_eq!(s.point, (-5, 7));
    let s = run_settings(&["--button=m", "--jitter", "0"]);
    assert_eq!(s.button, MouseButton::Middle);
    assert_eq!(s.jitter, JitterMode::Off);
    assert_eq!((s.jitter_x, s.jitter_y), (0, 0));
}

#[test]
fn quiet_alone_is_a_run() {
    let parsed = parse(args(&["--quiet"])).unwrap();
    assert!(parsed.run.expect("quiet is a run flag").quiet());
    let parsed = parse(args(&["--headless"])).unwrap();
    assert!(!parsed.run.unwrap().quiet());
}

#[test]
fn errors_name_the_problem_and_show_the_usage() {
    assert_eq!(
        parse(args(&["--clicks"])).unwrap_err(),
        format!("--clicks needs a value\n\n{USAGE}")
    );
    assert_eq!(
        parse(args(&["--clicks", "lots"])).unwrap_err(),
        format!("--clicks wants a number but got lots\n\n{USAGE}")
    );
    assert_eq!(
        parse(args(&["--at", "5"])).unwrap_err(),
        format!("--at wants X,Y but got 5\n\n{USAGE}")
    );
    assert_eq!(
        parse(args(&["--at", "1, y"])).unwrap_err(),
        format!("--at wants a number but got y\n\n{USAGE}")
    );
    assert_eq!(
        parse(args(&["--button", "Thumb"])).unwrap_err(),
        format!("unknown button: thumb\n\n{USAGE}")
    );
    assert_eq!(
        parse(args(&["--frobnicate"])).unwrap_err(),
        format!(
            "unknown option: --frobnicate. Note that arguments are not passed to the GUI.\n\n{USAGE}"
        )
    );
    assert_eq!(
        parse(args(&["--seconds", "-1"])).unwrap_err(),
        format!("--seconds wants a number but got -1\n\n{USAGE}")
    );
    assert_eq!(
        parse(args(&["--interval", "4294967296"])).unwrap_err(),
        format!("--interval wants a number but got 4294967296\n\n{USAGE}")
    );
}

#[test]
fn describe_summarises_a_run() {
    let s = run_settings(&["--clicks", "20", "--interval", "100", "--at", "640,360", "--jitter", "25"]);
    assert_eq!(describe(&s), "left every 100 ms at 640,360 (+-25x25 px), 20 clicks");

    let mut s = Settings::default();
    assert_eq!(describe(&s), "left every 40-120 ms at the pointer, no limit");
    s.timing = TimingMode::Normal;
    s.button = MouseButton::Middle;
    s.max_seconds = 30;
    s.start_delay_ms = 500;
    assert_eq!(describe(&s), "middle every 100+-25 ms at the pointer, 30 s after 500 ms");
    s.max_clicks = 7;
    s.position = PositionMode::Fixed;
    s.point = (-3, 4);
    assert_eq!(describe(&s), "middle every 100+-25 ms at -3,4, 7 clicks or 30 s after 500 ms");
}

#[test]
fn applying_a_run_twice_is_the_same_as_once() {
    let parsed = parse(args(&["--jitter", "3", "--delay", "10", "--button", "r"])).unwrap();
    let run = parsed.run.unwrap();
    let mut once = Settings::default();
    run.apply(&mut once);
    let mut twice = once.clone();
    run.apply(&mut twice);
    assert_eq!(once, twice);
}

#[test]
fn default_args_ask_for_nothing() {
    let a = Args::default();
    assert!(!a.help && !a.version && a.run.is_none());
}

#[test]
fn jitter_keeps_the_saved_shape() {
    let parsed = parse(args(&["--jitter", "5"])).unwrap();
    let run = parsed.run.unwrap();
    let mut s = Settings { jitter: JitterMode::Ellipse, ..Settings::default() };
    run.apply(&mut s);
    assert_eq!(s.jitter, JitterMode::Ellipse);
    assert_eq!((s.jitter_x, s.jitter_y), (5, 5));

    let mut s = Settings { jitter: JitterMode::Normal, ..Settings::default() };
    parse(args(&["--jitter=0"])).unwrap().run.unwrap().apply(&mut s);
    assert_eq!(s.jitter, JitterMode::Off);
}

#[test]
fn inline_and_separate_values_read_the_same() {
    for (flag, value) in [("--clicks", "12"), ("--at", "3,4"), ("--button", "M"), ("--seconds", "x")] {
        let separate = parse(args(&[flag, value, "--quiet"]));
        let inline = parse(args(&[&format!("{flag}={value}"), "--quiet"]));
        match (separate, inline) {
            (Ok(a), Ok(b)) => {
                let (mut sa, mut sb) = (Settings::default(), Settings::default());
                a.run.unwrap().apply(&mut sa);
                b.run.unwrap().apply(&mut sb);
                assert_eq!(sa, sb);
            }
            (Err(a), Err(b)) => assert_eq!(a, b),
            _ => panic!("{flag} {value} parsed differently inline"),
        }
    }
}

#[test]
fn numbers_are_read_as_std_parses_them() {
    let s = run_settings(&["--at", "-2147483648,2147483647", "--clicks", "+18446744073709551615"]);
    assert_eq!(s.point, (i32::MIN, i32::MAX));
    assert_eq!(s.max_clicks, u64::MAX);
    let s = run_settings(&["--at", "+5,-0", "--seconds", "007"]);
    assert_eq!(s.point, (5, 0));
    assert_eq!(s.max_seconds, 7);
    assert!(parse(args(&["--at", "2147483648,0"])).is_err());
    assert!(parse(args(&["--clicks", "18446744073709551616"])).is_err());
    assert!(parse(args(&["--clicks", "+"])).is_err());
    assert!(parse(args(&["--clicks", "1_000"])).is_err());
    assert!(parse(args(&["--delay", "-0"])).is_err());
    let mut s = Settings::default();
    s.position = PositionMode::Fixed;
    s.point = (i32::MIN, 0);
    s.max_clicks = u64::MAX;
    assert_eq!(describe(&s), "left every 40-120 ms at -2147483648,0, 18446744073709551615 clicks");
}
