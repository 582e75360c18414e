use featherclick::config::{ClickStyle, JitterMode, PositionMode, Settings};
use featherclick::engine::{
    anchor, needs_move, next_deadline, poll_step, presses_per_trigger, watches_pointer,
    worker_step, Command, PollStep, Received, Report, SessionEvent, Session, Status, StopReason,
    Task, Tone, WaitReport, WaitStep, WaitTask, Waiter, WorkerStep, MAX_SLEEP_SLICE_NS,
    MIN_SLEEP_NS,
};

#[test]
fn double_clicks_count_two_presses() {
    assert_eq!(presses_per_trigger(ClickStyle::Single), 1);
    assert_eq!(presses_per_trigger(ClickStyle::Double), 2);
    assert_eq!(presses_per_trigger(ClickStyle::Hold), 1);
}

#[test]
fn stop_reasons_describe_themselves() {
    assert_eq!(StopReason::User.describe(), "stopped");
    assert_eq!(StopReason::ClickLimit.describe(), "stopped: click limit reached");
    assert_eq!(StopReason::TimeLimit.describe(), "stopped: time limit reached");
    assert_eq!(StopReason::MouseMoved.describe(), "stopped: pointer moved");
    assert_eq!(StopReason::Shutdown.describe(), "stopped: engine shut down");
    let failed = StopReason::Error("no display".to_string());
    assert_eq!(failed.describe(), "error: no display");
    assert!(failed.is_error());
    assert!(!StopReason::ClickLimit.is_error());
    assert_eq!(failed.exit_code(), 1);
    assert_eq!(StopReason::TimeLimit.exit_code(), 0);
    assert_eq!(StopReason::User.exit_code(), 0);
}

#[test]
fn status_follows_session_events() {
    let mut status = Status::default();
    assert_eq!(status.elapsed(50), None);
    status.error = Some("old".to_string());
    status.apply(SessionEvent::Started, 1_000);
    assert!(status.running);
    assert_eq!(status.clicks, 0);
    assert_eq!(status.error, None);
    assert_eq!(status.elapsed(4_000), Some(3_000));
    status.apply(SessionEvent::Trigger(7), 2_000);
    assert_eq!(status.clicks, 7);
    status.apply(SessionEvent::Stopped(StopReason::ClickLimit), 9_000);
    assert!(!status.running);
    assert_eq!(status.stop_reason, Some(StopReason::ClickLimit));
    assert_eq!(status.elapsed(1_000_000), Some(8_000), "the duration stops with the session");
    assert_eq!(status.clicks, 7);
}

#[test]
fn every_capture_bumps_the_sequence_even_at_the_same_point() {
    let mut status = Status::new();
    status.apply(SessionEvent::Captured((5, 6)), 0);
    status.apply(SessionEvent::Captured((5, 6)), 0);
    assert_eq!(status.captured, Some((5, 6)));
    assert_eq!(status.capture_seq, 2);
    status.capture_seq = u64::MAX;
    status.apply(SessionEvent::Captured((1, 1)), 0);
    assert_eq!(status.capture_seq, 0, "the counter wraps");
}

#[test]
fn session_stops_at_the_click_limit_before_clicking_again() {
    let settings = Settings {
        max_clicks: 3,
        style: ClickStyle::Double,
        position: PositionMode::Fixed,
        point: (10, 20),
        ..Settings::default()
    };
    let (mut session, task) = Session::start(settings);
    assert_eq!(task, Task::Emit(SessionEvent::Started));
    assert_eq!(session.step(Report::Sent(100)), Task::Click((10, 20)));
    assert_eq!(session.step(Report::Clicked(Ok(()))), Task::Emit(SessionEvent::Trigger(2)));
    assert_eq!(session.step(Report::Sent(110)), Task::Pace);
    assert_eq!(session.step(Report::Paced(50, 120)), Task::Wait(150));
    assert_eq!(session.step(Report::Waited(None, 150)), Task::Click((10, 20)));
    assert_eq!(session.step(Report::Clicked(Ok(()))), Task::Emit(SessionEvent::Trigger(4)));
    assert_eq!(session.step(Report::Sent(160)), Task::Pace);
    assert_eq!(session.step(Report::Paced(50, 400)), Task::Wait(400), "late: resynchronised");
    assert_eq!(
        session.step(Report::Waited(None, 400)),
        Task::Emit(SessionEvent::Stopped(StopReason::ClickLimit))
    );
    assert_eq!(session.clicks(), 4);
    assert!(session.accepts(&Report::Sent(410)));
    assert_eq!(session.step(Report::Sent(410)), Task::Finish);
    assert!(!session.accepts(&Report::Sent(420)), "nothing follows the end");
}

#[test]
fn session_stops_at_the_time_limit() {
    let settings = Settings { max_seconds: 2, ..Settings::default() };
    let (mut session, _) = Session::start(settings);
    assert_eq!(session.step(Report::Sent(1_000)), Task::ReadPointer);
    assert_eq!(session.step(Report::Pointer(Some((3, 4)), 1_000)), Task::Click((3, 4)));
    assert_eq!(session.step(Report::Clicked(Ok(()))), Task::Emit(SessionEvent::Trigger(1)));
    assert_eq!(session.step(Report::Sent(1_000)), Task::Pace);
    assert_eq!(session.step(Report::Paced(10, 2_000_000_999)), Task::Wait(2_000_000_999));
    assert_eq!(session.step(Report::Waited(None, 2_000_000_999)), Task::Click((3, 4)));
    assert_eq!(session.step(Report::Clicked(Ok(()))), Task::Emit(SessionEvent::Trigger(2)));
    assert_eq!(session.step(Report::Sent(2_000_000_999)), Task::Pace);
    assert_eq!(session.step(Report::Paced(1, 2_000_001_000)), Task::Wait(2_000_001_000));
    assert_eq!(
        session.step(Report::Waited(None, 2_000_001_000)),
        Task::Emit(SessionEvent::Stopped(StopReason::TimeLimit))
    );
}

#[test]
fn zero_limits_never_stop_a_session() {
    let (mut session, _) = Session::start(Settings { point: (7, 8), ..Settings::default() });
    assert_eq!(session.step(Report::Sent(0)), Task::ReadPointer);
    assert_eq!(
        session.step(Report::Pointer(None, u64::MAX)),
        Task::Click((7, 8)),
        "an unreadable pointer falls back to the fixed point"
    );
}

#[test]
fn failed_clicks_and_moved_pointers_end_the_session() {
    let fixed = Settings { position: PositionMode::Fixed, ..Settings::default() };
    let (mut session, _) = Session::start(fixed.clone());
    session.step(Report::Sent(0));
    assert_eq!(
        session.step(Report::Clicked(Err("denied".to_string()))),
        Task::Emit(SessionEvent::Stopped(StopReason::Error("denied".to_string())))
    );
    assert_eq!(session.clicks(), 0);

    let watching = Settings { stop_on_move_px: 5, ..fixed };
    let (mut session, _) = Session::start(watching);
    session.step(Report::Sent(0));
    session.step(Report::Clicked(Ok(())));
    assert_eq!(session.step(Report::Sent(0)), Task::Watch);
    assert_eq!(session.step(Report::Moved(None)), Task::Pace, "an unreadable pointer never stops the run");
    session.step(Report::Paced(10, 0));
    session.step(Report::Waited(None, 10));
    session.step(Report::Clicked(Ok(())));
    session.step(Report::Sent(10));
    assert_eq!(session.step(Report::Moved(Some(false))), Task::Pace);
    session.step(Report::Paced(10, 10));
    session.step(Report::Waited(None, 20));
    session.step(Report::Clicked(Ok(())));
    session.step(Report::Sent(20));
    assert_eq!(
        session.step(Report::Moved(Some(true))),
        Task::Emit(SessionEvent::Stopped(StopReason::MouseMoved))
    );
    assert_eq!(session.clicks(), 3);
}

#[test]
fn a_stop_during_the_start_delay_ends_the_session_after_the_anchor() {
    let settings = Settings { start_delay_ms: 500, ..Settings::default() };
    let (mut session, _) = Session::start(settings);
    assert!(!session.accepts(&Report::Clicked(Ok(()))), "a report must answer the last task");
    assert_eq!(session.step(Report::Sent(1_000)), Task::Wait(500_001_000));
    assert_eq!(session.step(Report::Waited(Some(StopReason::User), 2_000)), Task::ReadPointer);
    assert_eq!(
        session.step(Report::Pointer(Some((1, 1)), 2_000)),
        Task::Emit(SessionEvent::Stopped(StopReason::User))
    );
    assert_eq!(session.step(Report::Sent(2_000)), Task::Finish);

    let (mut session, _) = Session::start(Settings { start_delay_ms: 1, ..Settings::default() });
    assert_eq!(session.step(Report::Sent(u64::MAX - 10)), Task::Wait(u64::MAX), "the delay saturates");
}

#[test]
fn a_stop_between_clicks_ends_the_session() {
    let settings = Settings { position: PositionMode::Fixed, ..Settings::default() };
    let (mut session, _) = Session::start(settings);
    session.step(Report::Sent(0));
    session.step(Report::Clicked(Ok(())));
    session.step(Report::Sent(0));
    assert_eq!(session.step(Report::Paced(100, 0)), Task::Wait(100));
    session.step(Report::Waited(None, 100));
    session.step(Report::Clicked(Ok(())));
    session.step(Report::Sent(100));
    assert!(!session.accepts(&Report::Paced(u64::MAX, 100)), "the deadline would overflow");
    assert_eq!(session.step(Report::Paced(100, 100)), Task::Wait(200));
    assert_eq!(
        session.step(Report::Waited(Some(StopReason::Shutdown), 150)),
        Task::Emit(SessionEvent::Stopped(StopReason::Shutdown))
    );
}

#[test]
fn anchor_and_moves_follow_the_position_mode() {
    let mut settings = Settings { point: (10, 20), ..Settings::default() };
    assert_eq!(anchor(&settings, Some((3, 4))), (3, 4));
    assert_eq!(anchor(&settings, None), (10, 20));
    assert!(!needs_move(&settings));
    settings.jitter = JitterMode::Ellipse;
    assert!(needs_move(&settings));
    settings.jitter = JitterMode::Off;
    settings.position = PositionMode::Fixed;
    assert_eq!(anchor(&settings, Some((3, 4))), (10, 20));
    assert!(needs_move(&settings));
    assert!(!watches_pointer(&settings));
    settings.stop_on_move_px = 1;
    assert!(watches_pointer(&settings));
}

#[test]
fn next_deadline_resynchronises_instead_of_bursting() {
    assert_eq!(next_deadline(1_000, 100, 1_050), 1_100);
    assert_eq!(next_deadline(1_000, 100, 5_000), 5_000);
}

#[test]
fn commands_mean_the_same_during_and_between_sessions() {
    let settings = Box::new(Settings::default());
    assert_eq!(poll_step(&Received::Empty), PollStep::Continue);
    assert_eq!(poll_step(&Received::Disconnected), PollStep::Stop(StopReason::Shutdown));
    assert_eq!(poll_step(&Received::Message(Command::Stop)), PollStep::Stop(StopReason::User));
    assert_eq!(
        poll_step(&Received::Message(Command::Toggle(settings.clone()))),
        PollStep::Stop(StopReason::User)
    );
    assert_eq!(
        poll_step(&Received::Message(Command::Shutdown)),
        PollStep::Stop(StopReason::Shutdown)
    );
    assert_eq!(poll_step(&Received::Message(Command::Capture)), PollStep::Capture);
    assert_eq!(poll_step(&Received::Message(Command::Start(settings.clone()))), PollStep::Ignore);

    assert_eq!(worker_step(&Received::Disconnected, false), WorkerStep::Exit);
    assert_eq!(worker_step(&Received::Message(Command::Shutdown), true), WorkerStep::Exit);
    assert_eq!(worker_step(&Received::Empty, false), WorkerStep::Wait);
    assert_eq!(worker_step(&Received::Message(Command::Stop), false), WorkerStep::Wait);
    assert_eq!(worker_step(&Received::Message(Command::Capture), false), WorkerStep::Capture);
    assert_eq!(
        worker_step(&Received::Message(Command::Toggle(settings.clone())), false),
        WorkerStep::Run
    );
    assert_eq!(
        worker_step(&Received::Message(Command::Start(settings.clone())), true),
        WorkerStep::Wait
    );
}

#[test]
fn waiter_sleeps_in_slices_and_spins_near_the_deadline() {
    let mut waiter = Waiter::new();
    let deadline = 100_000_000;
    assert_eq!(waiter.plan(deadline, deadline), WaitStep::Done);
    // far away: one full slice
    assert_eq!(waiter.plan(0, deadline), WaitStep::Sleep(MAX_SLEEP_SLICE_NS));
    // 1.5 ms before the deadline with a 1 ms slack: sleep the 0.5 ms to wake
    assert_eq!(waiter.plan(deadline - 1_500_000, deadline), WaitStep::Sleep(500_000));
    // inside the slack: spin
    assert_eq!(waiter.plan(deadline - 900_000, deadline), WaitStep::Spin);
    // 1.1 ms before: 0.1 ms to wake is raised to the shortest sleep
    assert_eq!(waiter.plan(deadline - 1_100_000, deadline), WaitStep::Sleep(MIN_SLEEP_NS));
    // a 5 ms overshoot raises the slack to its 2 ms ceiling
    waiter.woke(1_000, 5_001_000);
    assert_eq!(waiter.plan(deadline - 2_500_000, deadline), WaitStep::Sleep(500_000));
    // an on-time wake drops it to the 0.3 ms floor
    waiter.woke(1_000, 1_000);
    assert_eq!(waiter.plan(deadline - 250_000, deadline), WaitStep::Spin);
    assert_eq!(waiter.plan(deadline - 400_000, deadline), WaitStep::Sleep(MIN_SLEEP_NS));
    assert_eq!(waiter.plan(deadline - 1_300_000, deadline), WaitStep::Sleep(1_000_000));
}

#[test]
fn the_status_line_puts_errors_first() {
    let mut status = Status::new();
    assert_eq!(status.pill(), ("Idle".to_string(), Tone::Muted));
    status.apply(SessionEvent::Started, 0);
    assert_eq!(status.pill(), ("Running".to_string(), Tone::Running));
    status.apply(SessionEvent::Stopped(StopReason::TimeLimit), 5);
    assert_eq!(status.pill(), ("stopped: time limit reached".to_string(), Tone::Accent));
    status.apply(SessionEvent::Stopped(StopReason::Error("lost".to_string())), 6);
    assert_eq!(status.pill(), ("error: lost".to_string(), Tone::Danger));
    status.error = Some("no display".to_string());
    assert_eq!(status.pill(), ("Error".to_string(), Tone::Danger));
}

#[test]
fn a_capture_is_taken_once_per_counter_change() {
    let mut status = Status::new();
    let mut seen = 0;
    assert_eq!(status.new_capture(&mut seen), None);
    status.apply(SessionEvent::Captured((8, 9)), 0);
    assert_eq!(status.new_capture(&mut seen), Some((8, 9)));
    assert_eq!(seen, 1);
    assert_eq!(status.new_capture(&mut seen), None);
    status.apply(SessionEvent::Captured((8, 9)), 0);
    assert_eq!(status.new_capture(&mut seen), Some((8, 9)), "the same point twice still counts");
}

#[test]
fn a_wait_looks_at_the_commands_before_every_sleep() {
    let mut waiter = Waiter::new();
    let deadline = 1_000_000_000;
    assert_eq!(waiter.step(deadline, WaitReport::Began(0)), WaitTask::Poll);
    assert_eq!(
        waiter.step(deadline, WaitReport::Polled(0)),
        WaitTask::Sleep(MAX_SLEEP_SLICE_NS),
        "long waits sleep one slice at a time"
    );
    assert_eq!(waiter.step(deadline, WaitReport::Slept(MAX_SLEEP_SLICE_NS + 100_000)), WaitTask::Poll);
    assert_eq!(
        waiter.step(deadline, WaitReport::Polled(deadline - 1_000_000)),
        WaitTask::Sleep(600_000),
        "the sleep ends the learned slack (0.4 ms) early"
    );
    assert_eq!(waiter.step(deadline, WaitReport::Slept(deadline - 300_000)), WaitTask::Poll);
    assert_eq!(
        waiter.step(deadline, WaitReport::Polled(deadline - 300_000)),
        WaitTask::Spin,
        "within the slack the wait spins"
    );
    assert_eq!(waiter.step(deadline, WaitReport::Spun(deadline - 100)), WaitTask::Poll);
    assert_eq!(waiter.step(deadline, WaitReport::Spun(deadline)), WaitTask::Done);
    assert_eq!(waiter.step(deadline, WaitReport::Began(deadline + 5)), WaitTask::Done);
}
