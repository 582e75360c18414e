//! The decisions of the click engine.
//!
//! A clicking session is a state machine (`Session`): it hands its driver
//! one task at a time (send an event, wait, read the pointer, click, draw the
//! next interval) and takes the driver's report on it, so the order of the
//! steps, the limits, the count and the events sent are all decided here.
//! The driver only performs the tasks, which sleep, move the pointer and
//! press buttons. The module also decides what a command received during a
//! run means, how long to sleep before the next click, and how events update
//! the status the window shows. Times are nanoseconds on one monotonic clock.

use vstd::prelude::*;

use crate::config::{ClickStyle, JitterMode, PositionMode, Settings};

verus! {

/// Why a session ended.
#[derive(Debug, PartialEq, Eq)]
pub enum StopReason {
    /// Stop requested by the user (hotkey, button, or Ctrl-C in headless mode).
    User,
    ClickLimit,
    TimeLimit,
    /// `stop_on_move_px` tripped: the pointer left the click point.
    MouseMoved,
    /// The engine shut down.
    Shutdown,
    Error(String),
}

impl Clone for StopReason {
    fn clone(&self) -> (copy: StopReason)
        ensures
            copy == *self,
    {
        match self {
            StopReason::User => StopReason::User,
            StopReason::ClickLimit => StopReason::ClickLimit,
            StopReason::TimeLimit => StopReason::TimeLimit,
            StopReason::MouseMoved => StopReason::MouseMoved,
            StopReason::Shutdown => StopReason::Shutdown,
            StopReason::Error(err) => StopReason::Error(err.clone()),
        }
    }
}

impl StopReason {
    /// The text shown for this reason.
    pub open spec fn description(self) -> Seq<char> {
        match self {
            StopReason::User => "stopped"@,
            StopReason::ClickLimit => "stopped: click limit reached"@,
            StopReason::TimeLimit => "stopped: time limit reached"@,
            StopReason::MouseMoved => "stopped: pointer moved"@,
            StopReason::Shutdown => "stopped: engine shut down"@,
            StopReason::Error(err) => "error: "@ + err@,
        }
    }

    pub fn describe(&self) -> (text: String)
        ensures
            text@ == self.description(),
    {
        match self {
            StopReason::User => "stopped".to_owned(),
            StopReason::ClickLimit => "stopped: click limit reached".to_owned(),
            StopReason::TimeLimit => "stopped: time limit reached".to_owned(),
            StopReason::MouseMoved => "stopped: pointer moved".to_owned(),
            StopReason::Shutdown => "stopped: engine shut down".to_owned(),
            StopReason::Error(err) => "error: ".to_owned().concat(err.as_str()),
        }
    }

    pub fn is_error(&self) -> (error: bool)
        ensures
            error == (*self is Error),
    {
        match self {
            StopReason::Error(_) => true,
            _ => false,
        }
    }

    /// The process exit status of a headless run that ended for this reason:
    /// 0 for a normal stop, limits included, 1 for an error.
    pub fn exit_code(&self) -> (code: u8)
        ensures
            code == (if *self is Error {
                1u8
            } else {
                0u8
            }),
    {
        if self.is_error() {
            1
        } else {
            0
        }
    }
}

/// Progress reported by a running session.
#[derive(Debug, PartialEq, Eq)]
pub enum SessionEvent {
    Started,
    /// Total clicks sent so far.
    Trigger(u64),
    Captured((i32, i32)),
    Stopped(StopReason),
}

impl Clone for SessionEvent {
    fn clone(&self) -> (copy: SessionEvent)
        ensures
            copy == *self,
    {
        match self {
            SessionEvent::Started => SessionEvent::Started,
            SessionEvent::Trigger(n) => SessionEvent::Trigger(*n),
            SessionEvent::Captured(point) => SessionEvent::Captured(*point),
            SessionEvent::Stopped(reason) => SessionEvent::Stopped(reason.clone()),
        }
    }
}

/// Live engine state, as read by the window. Times are nanoseconds on the
/// engine's monotonic clock.
#[derive(Debug)]
pub struct Status {
    pub running: bool,
    pub clicks: u64,
    pub started: Option<u64>,
    /// Set when the session ends, so the reported duration stops with it.
    pub stopped: Option<u64>,
    pub stop_reason: Option<StopReason>,
    pub error: Option<String>,
    pub captured: Option<(i32, i32)>,
    /// Bumped on every capture, so a repeated capture of the same point is
    /// still applied.
    pub capture_seq: u64,
}

/// `b - a`, or zero when `b` is not after `a`.
pub open spec fn duration_between(a: u64, b: u64) -> u64 {
    if b >= a {
        (b - a) as u64
    } else {
        0
    }
}

impl Status {
    /// No session has run yet.
    pub open spec fn is_idle_start(self) -> bool {
        &&& !self.running
        &&& self.clicks == 0
        &&& self.started is None
        &&& self.stopped is None
        &&& self.stop_reason is None
        &&& self.error is None
        &&& self.captured is None
        &&& self.capture_seq == 0
    }

    /// The status after `event` arrives at time `now`.
    pub open spec fn after(self, event: SessionEvent, now: u64) -> Status {
        match event {
            SessionEvent::Started => Status {
                running: true,
                clicks: 0,
                started: Some(now),
                stopped: None,
                stop_reason: None,
                error: None,
                ..self
            },
            SessionEvent::Trigger(clicks) => Status { clicks, ..self },
            SessionEvent::Captured(point) => Status {
                captured: Some(point),
                capture_seq: if self.capture_seq == u64::MAX {
                    0
                } else {
                    (self.capture_seq + 1) as u64
                },
                ..self
            },
            SessionEvent::Stopped(reason) => Status {
                running: false,
                stopped: Some(now),
                stop_reason: Some(reason),
                ..self
            },
        }
    }

    /// How long the current session has been running at `now`, or how long
    /// the last one ran for.
    pub open spec fn elapsed_at(self, now: u64) -> Option<u64> {
        match (self.started, self.stopped) {
            (Some(start), Some(end)) => Some(duration_between(start, end)),
            (Some(start), None) => Some(duration_between(start, now)),
            _ => None,
        }
    }

    pub fn new() -> (status: Status)
        ensures
            status.is_idle_start(),
    {
        Status {
            running: false,
            clicks: 0,
            started: None,
            stopped: None,
            stop_reason: None,
            error: None,
            captured: None,
            capture_seq: 0,
        }
    }

    /// How long the current session has been running (read at `now`), or
    /// how long the last one ran for.
    pub fn elapsed(&self, now: u64) -> (time: Option<u64>)
        ensures
            time == self.elapsed_at(now),
    {
        match (self.started, self.stopped) {
            (Some(start), Some(end)) => Some(end.saturating_sub(start)),
            (Some(start), None) => Some(now.saturating_sub(start)),
            _ => None,
        }
    }

    /// Applies a session event that arrived at `now` to the status.
    pub fn apply(&mut self, event: SessionEvent, now: u64)
        ensures
            *final(self) == old(self).after(event, now),
    {
        match event {
            SessionEvent::Started => {
                self.running = true;
                self.clicks = 0;
                self.started = Some(now);
                self.stopped = None;
                self.stop_reason = None;
                self.error = None;
            },
            SessionEvent::Trigger(clicks) => self.clicks = clicks,
            SessionEvent::Captured(point) => {
                self.captured = Some(point);
                self.capture_seq = self.capture_seq.wrapping_add(1);
            },
            SessionEvent::Stopped(reason) => {
                self.running = false;
                self.stopped = Some(now);
                self.stop_reason = Some(reason);
            },
        }
    }
}

/// The colour family of the status line in the window.
#[derive(Debug, Clone, Copy, PartialEq, Eq, Structural)]
pub enum Tone {
    Danger,
    Running,
    Accent,
    Muted,
}

impl Status {
    /// The status line: an engine error first, then a running session, then
    /// why the last session stopped, else idle.
    pub open spec fn headline(self) -> (Seq<char>, Tone) {
        if self.error is Some {
            ("Error"@, Tone::Danger)
        } else if self.running {
            ("Running"@, Tone::Running)
        } else {
            match self.stop_reason {
                Some(reason) => (
                    reason.description(),
                    if reason is Error {
                        Tone::Danger
                    } else {
                        Tone::Accent
                    },
                ),
                None => ("Idle"@, Tone::Muted),
            }
        }
    }

    /// A capture the window has not seen yet: `seen` is the capture counter
    /// it saw last and is moved up to the current one. Returns the captured
    /// point when there is a new capture with a point.
    pub fn new_capture(&self, seen: &mut u64) -> (point: Option<(i32, i32)>)
        ensures
            *final(seen) == self.capture_seq,
            point == (if self.capture_seq != *old(seen) {
                self.captured
            } else {
                None
            }),
    {
        if self.capture_seq != *seen {
            *seen = self.capture_seq;
            self.captured
        } else {
            None
        }
    }

    pub fn pill(&self) -> (line: (String, Tone))
        ensures
            (line.0@, line.1) == self.headline(),
    {
        if self.error.is_some() {
            return ("Error".to_owned(), Tone::Danger);
        }
        if self.running {
            return ("Running".to_owned(), Tone::Running);
        }
        match &self.stop_reason {
            Some(reason) => {
                let tone = if reason.is_error() {
                    Tone::Danger
                } else {
                    Tone::Accent
                };
                (reason.describe(), tone)
            },
            None => ("Idle".to_owned(), Tone::Muted),
        }
    }
}

impl Clone for Status {
    fn clone(&self) -> (copy: Status)
        ensures
            copy == *self,
    {
        Status {
            running: self.running,
            clicks: self.clicks,
            started: self.started,
            stopped: self.stopped,
            stop_reason: match &self.stop_reason {
                Some(reason) => Some(reason.clone()),
                None => None,
            },
            error: match &self.error {
                Some(err) => Some(err.clone()),
                None => None,
            },
            captured: self.captured,
            capture_seq: self.capture_seq,
        }
    }
}

impl Default for Status {
    fn default() -> (status: Status)
        ensures
            status.is_idle_start(),
    {
        Status::new()
    }
}

/// A session that starts begins counting from zero and clears the last
/// stop; one that stops is no longer running and keeps its reason and count.
pub proof fn lemma_start_and_stop(status: Status, reason: StopReason, t0: u64, t1: u64)
    ensures
        status.after(SessionEvent::Started, t0).running,
        status.after(SessionEvent::Started, t0).clicks == 0,
        status.after(SessionEvent::Started, t0).stop_reason is None,
        !status.after(SessionEvent::Stopped(reason), t1).running,
        status.after(SessionEvent::Stopped(reason), t1).stop_reason == Some(reason),
        status.after(SessionEvent::Stopped(reason), t1).clicks == status.clicks,
{
}

/// A session that starts clears the stop time of the one before, so its
/// running time counts from its own start: at any later time `t1` it has run
/// `t1 - t0`.
pub proof fn lemma_start_restarts_the_clock(status: Status, t0: u64, t1: u64)
    requires
        t0 <= t1,
    ensures
        status.after(SessionEvent::Started, t0).started == Some(t0),
        status.after(SessionEvent::Started, t0).stopped is None,
        status.after(SessionEvent::Started, t0).elapsed_at(t1) == Some((t1 - t0) as u64),
{
}

/// Every capture changes the capture counter, so a second capture of the
/// same point is still noticed.
pub proof fn lemma_capture_is_always_noticed(status: Status, point: (i32, i32), now: u64)
    ensures
        status.after(SessionEvent::Captured(point), now).capture_seq != status.capture_seq,
        status.after(SessionEvent::Captured(point), now).captured == Some(point),
{
}

/// The duration reported after a session stopped no longer grows.
pub proof fn lemma_stopped_duration_is_fixed(status: Status, reason: StopReason, end: u64, later: u64)
    requires
        status.started is Some,
    ensures
        status.after(SessionEvent::Stopped(reason), end).elapsed_at(later) == status.after(
            SessionEvent::Stopped(reason),
            end,
        ).elapsed_at(end),
{
}

/// How many button presses one trigger of `style` sends.
pub open spec fn presses(style: ClickStyle) -> u64 {
    match style {
        ClickStyle::Double => 2,
        ClickStyle::Single | ClickStyle::Hold => 1,
    }
}

pub fn presses_per_trigger(style: ClickStyle) -> (n: u64)
    ensures
        n == presses(style),
{
    match style {
        ClickStyle::Double => 2,
        ClickStyle::Single | ClickStyle::Hold => 1,
    }
}

/// Nanoseconds in one second.
pub const NANOS_PER_SECOND: u64 = 1_000_000_000;

/// The limit that ends a session which has counted `clicks` after
/// `elapsed` nanoseconds, if any: the click limit first, then the time limit;
/// a limit of 0 is no limit.
pub open spec fn limit_reached(settings: Settings, clicks: int, elapsed: u64) -> Option<StopReason> {
    if settings.max_clicks > 0 && clicks >= settings.max_clicks {
        Some(StopReason::ClickLimit)
    } else if settings.max_seconds > 0 && elapsed >= settings.max_seconds * NANOS_PER_SECOND {
        Some(StopReason::TimeLimit)
    } else {
        None
    }
}

/// The point jitter is measured from, taken once per session: the fixed
/// point, or where the pointer was (falling back to the fixed point when the
/// pointer cannot be read).
pub open spec fn anchor_point(settings: Settings, pointer: Option<(i32, i32)>) -> (i32, i32) {
    match settings.position {
        PositionMode::Fixed => settings.point,
        PositionMode::Cursor => match pointer {
            Some(p) => p,
            None => settings.point,
        },
    }
}

pub fn anchor(settings: &Settings, pointer: Option<(i32, i32)>) -> (point: (i32, i32))
    ensures
        point == anchor_point(*settings, pointer),
{
    match settings.position {
        PositionMode::Fixed => settings.point,
        PositionMode::Cursor => match pointer {
            Some(p) => p,
            None => settings.point,
        },
    }
}

/// The pointer is moved before a click when the target is a fixed point or
/// jittered; a plain click at the pointer never moves it.
pub fn needs_move(settings: &Settings) -> (moves: bool)
    ensures
        moves == (settings.position == PositionMode::Fixed || settings.jitter != JitterMode::Off),
{
    settings.position == PositionMode::Fixed || settings.jitter != JitterMode::Off
}

/// The pointer is read after every click to stop on movement.
pub fn watches_pointer(settings: &Settings) -> (watches: bool)
    ensures
        watches == (settings.stop_on_move_px > 0),
{
    settings.stop_on_move_px > 0
}

/// Where a session stands: each phase but the last waits for the report on
/// one task handed out.
#[derive(Debug, Clone, Copy)]
pub enum Phase {
    /// `Started` was handed out to be sent.
    Announcing,
    /// The start delay is being waited out.
    Delaying,
    /// The pointer is being read to anchor the clicks.
    Anchoring,
    /// A click is being sent.
    Clicking,
    /// The `Trigger` of the last click was handed out to be sent.
    Reporting,
    /// The pointer is being read after a click.
    Watching,
    /// The interval to the next click is being drawn.
    Pacing,
    /// The next click's deadline is being waited for.
    Waiting,
    /// `Stopped` was handed out to be sent.
    Stopping,
    /// The session is over.
    Finished,
}

/// Outside work a session hands to its driver, which answers with a
/// `Report`.
#[derive(Debug, PartialEq, Eq)]
pub enum Task {
    /// Send this event; answer `Sent`.
    Emit(SessionEvent),
    /// Wait until this deadline, answering commands meanwhile; answer
    /// `Waited`.
    Wait(u64),
    /// Read where the pointer is; answer `Pointer`.
    ReadPointer,
    /// Click once, jittered around this anchor; answer `Clicked`.
    Click((i32, i32)),
    /// Read the pointer and tell whether it left the last click's target
    /// by more than the settings allow; answer `Moved`.
    Watch,
    /// Draw the interval to the next click; answer `Paced`.
    Pace,
    /// Nothing is left to do.
    Finish,
}

/// The driver's answer to a `Task`. Times are read from the engine clock
/// when the task is done.
#[derive(Debug)]
pub enum Report {
    Sent(u64),
    /// The stop a command asked for during the wait (`None` when the
    /// deadline came), and the time.
    Waited(Option<StopReason>, u64),
    /// The pointer position (`None` when it cannot be read), and the time.
    Pointer(Option<(i32, i32)>, u64),
    Clicked(Result<(), String>),
    /// Whether the pointer moved too far (`None` when it cannot be read).
    Moved(Option<bool>),
    /// The interval drawn (nanoseconds), and the time.
    Paced(u64, u64),
}

/// The state of a session, as the contracts see it.
pub struct Progress {
    pub phase: Phase,
    /// When `Started` was sent.
    pub started: u64,
    /// The point clicks are jittered around.
    pub anchor: (i32, i32),
    /// What the next interval counts from: the deadline of the last wait
    /// between clicks, or when the anchor was taken.
    pub next: u64,
    pub clicks: u64,
    pub reason: Option<StopReason>,
    /// Every event handed out so far, in order.
    pub events: Seq<SessionEvent>,
}

/// The deadline that ends the start delay of `ms` milliseconds begun at
/// `now`, or the end of the clock.
pub open spec fn delay_deadline(now: u64, ms: u32) -> u64 {
    if now + ms * 1_000_000 > u64::MAX {
        u64::MAX
    } else {
        (now + ms * 1_000_000) as u64
    }
}

/// When the next click is due: one interval after the previous deadline,
/// or `now` when the run fell behind.
pub open spec fn next_due(previous: u64, interval: u64, now: u64) -> u64 {
    if previous + interval < now {
        now
    } else {
        (previous + interval) as u64
    }
}

/// The session stops for `reason`: `Stopped` is handed out.
pub open spec fn stop_step(p: Progress, reason: StopReason) -> (Progress, Task) {
    (
        Progress {
            phase: Phase::Stopping,
            reason: Some(reason),
            events: p.events.push(SessionEvent::Stopped(reason)),
            ..p
        },
        Task::Emit(SessionEvent::Stopped(reason)),
    )
}

/// The top of the click loop at time `now`: stop if a stop was asked for or
/// a limit is reached, else click at the anchor.
pub open spec fn loop_top(s: Settings, p: Progress, now: u64) -> (Progress, Task) {
    match p.reason {
        Some(reason) => stop_step(p, reason),
        None => match limit_reached(s, p.clicks as int, duration_between(p.started, now)) {
            Some(reason) => stop_step(p, reason),
            None => (Progress { phase: Phase::Clicking, ..p }, Task::Click(p.anchor)),
        },
    }
}

/// The anchor is taken once, after the start delay: the pointer is read in
/// cursor mode, the fixed point is used as it is.
pub open spec fn anchor_step(s: Settings, p: Progress, now: u64) -> (Progress, Task) {
    match s.position {
        PositionMode::Cursor => (Progress { phase: Phase::Anchoring, ..p }, Task::ReadPointer),
        PositionMode::Fixed => loop_top(s, Progress { anchor: s.point, next: now, ..p }, now),
    }
}

/// After a `Trigger` was sent: watch the pointer when the settings ask for
/// it, else draw the next interval.
pub open spec fn after_trigger(s: Settings, p: Progress) -> (Progress, Task) {
    if s.stop_on_move_px > 0 {
        (Progress { phase: Phase::Watching, ..p }, Task::Watch)
    } else {
        (Progress { phase: Phase::Pacing, ..p }, Task::Pace)
    }
}

/// One step of a session with settings `s`: the state after `report`
/// answers the task handed out in `p`, and the next task.
pub open spec fn advance(s: Settings, p: Progress, report: Report) -> (Progress, Task) {
    match report {
        Report::Sent(now) => match p.phase {
            Phase::Announcing => if s.start_delay_ms > 0 {
                (
                    Progress { phase: Phase::Delaying, started: now, ..p },
                    Task::Wait(delay_deadline(now, s.start_delay_ms)),
                )
            } else {
                anchor_step(s, Progress { started: now, ..p }, now)
            },
            Phase::Reporting => after_trigger(s, p),
            _ => (Progress { phase: Phase::Finished, ..p }, Task::Finish),
        },
        Report::Waited(stop, now) => match p.phase {
            Phase::Delaying => anchor_step(s, Progress { reason: stop, ..p }, now),
            _ => loop_top(s, Progress { reason: stop, ..p }, now),
        },
        Report::Pointer(at, now) => loop_top(
            s,
            Progress { anchor: anchor_point(s, at), next: now, ..p },
            now,
        ),
        Report::Clicked(result) => match result {
            Ok(()) => {
                let total = (p.clicks + presses(s.style)) as u64;
                (
                    Progress {
                        phase: Phase::Reporting,
                        clicks: total,
                        events: p.events.push(SessionEvent::Trigger(total)),
                        ..p
                    },
                    Task::Emit(SessionEvent::Trigger(total)),
                )
            },
            Err(message) => stop_step(p, StopReason::Error(message)),
        },
        Report::Moved(moved) => if moved == Some(true) {
            stop_step(p, StopReason::MouseMoved)
        } else {
            (Progress { phase: Phase::Pacing, ..p }, Task::Pace)
        },
        Report::Paced(interval, now) => {
            let next = next_due(p.next, interval, now);
            (Progress { phase: Phase::Waiting, next, ..p }, Task::Wait(next))
        },
    }
}

/// `report` answers the task handed out in `p`, and what it reports leaves
/// the counters within the clock and the click counter.
pub open spec fn answers(s: Settings, p: Progress, report: Report) -> bool {
    match report {
        Report::Sent(_) => p.phase is Announcing || p.phase is Reporting || p.phase is Stopping,
        Report::Waited(_, _) => p.phase is Delaying || p.phase is Waiting,
        Report::Pointer(_, _) => p.phase is Anchoring,
        Report::Clicked(result) => p.phase is Clicking && (result is Ok ==> p.clicks
            + presses(s.style) <= u64::MAX),
        Report::Moved(_) => p.phase is Watching,
        Report::Paced(interval, _) => p.phase is Pacing && p.next + interval <= u64::MAX,
    }
}

/// `Stopped` was handed out: no click and no event follows.
pub open spec fn is_closed(phase: Phase) -> bool {
    phase is Stopping || phase is Finished
}

/// The events of a session in order: `Started` first; then the `Trigger`s,
/// the `k`-th carrying `k * presses` clicks; and, once the session is
/// closed, one `Stopped` last.
pub open spec fn reported_in_order(events: Seq<SessionEvent>, presses: u64, closed: bool) -> bool {
    let triggers = if closed {
        events.len() - 2
    } else {
        events.len() - 1
    };
    &&& events.len() >= (if closed {
        2int
    } else {
        1int
    })
    &&& events[0] == SessionEvent::Started
    &&& forall|i: int|
        1 <= i <= triggers ==> (#[trigger] events[i] matches SessionEvent::Trigger(n) && n == i
            * presses)
    &&& closed ==> events.last() is Stopped
}

/// The number of `Trigger`s among the events of a session in `phase`.
pub open spec fn trigger_count(events: Seq<SessionEvent>, phase: Phase) -> int {
    if is_closed(phase) {
        events.len() - 2
    } else {
        events.len() - 1
    }
}

/// The events and the count of a session agree: the events are in order,
/// the count is what the `Trigger`s sent add up to and stays within one
/// trigger of the click limit, and a closed session names its reason last.
pub open spec fn counted_in_order(s: Settings, p: Progress) -> bool {
    &&& reported_in_order(p.events, presses(s.style), is_closed(p.phase))
    &&& p.clicks == trigger_count(p.events, p.phase) * presses(s.style)
    &&& s.max_clicks > 0 ==> p.clicks <= s.max_clicks + presses(s.style) - 1
    &&& is_closed(p.phase) ==> p.reason is Some && p.events.last() == SessionEvent::Stopped(
        p.reason->0,
    )
}

/// What holds of a session at every step: the events and the count agree,
/// a stop is pending only while the anchor is read, and a click is sent
/// only below the click limit.
pub open spec fn session_inv(s: Settings, p: Progress) -> bool {
    &&& counted_in_order(s, p)
    &&& !is_closed(p.phase) && !(p.phase is Anchoring) ==> p.reason is None
    &&& p.phase is Clicking && s.max_clicks > 0 ==> p.clicks < s.max_clicks
}

/// One clicking session: its settings, taken once when it starts, and its
/// progress.
pub struct Session {
    settings: Settings,
    phase: Phase,
    started: u64,
    anchor: (i32, i32),
    next: u64,
    clicks: u64,
    reason: Option<StopReason>,
    events: Ghost<Seq<SessionEvent>>,
}

impl View for Session {
    type V = Progress;

    closed spec fn view(&self) -> Progress {
        Progress {
            phase: self.phase,
            started: self.started,
            anchor: self.anchor,
            next: self.next,
            clicks: self.clicks,
            reason: self.reason,
            events: self.events@,
        }
    }
}

impl Session {
    /// The settings the session runs with.
    pub closed spec fn settings(&self) -> Settings {
        self.settings
    }

    /// The session keeps its invariant.
    pub open spec fn wf(&self) -> bool {
        session_inv(self.settings(), self@)
    }

    /// Starts a session with a snapshot of the settings: its first task is
    /// to send `Started`.
    pub fn start(settings: Settings) -> (out: (Session, Task))
        ensures
            out.0.wf(),
            out.0.settings() == settings,
            out.0@.phase is Announcing,
            out.0@.clicks == 0,
            out.0@.reason is None,
            out.0@.events == seq![SessionEvent::Started],
            out.1 == Task::Emit(SessionEvent::Started),
    {
        let session = Session {
            settings,
            phase: Phase::Announcing,
            started: 0,
            anchor: (0, 0),
            next: 0,
            clicks: 0,
            reason: None,
            events: Ghost(Seq::empty().push(SessionEvent::Started)),
        };
        (session, Task::Emit(SessionEvent::Started))
    }

    /// Clicks sent so far.
    pub fn clicks(&self) -> (clicks: u64)
        ensures
            clicks == self@.clicks,
    {
        self.clicks
    }

    /// Whether `report` answers the task handed out last and fits the
    /// counters.
    pub fn accepts(&self, report: &Report) -> (ok: bool)
        ensures
            ok == answers(self.settings(), self@, *report),
    {
        match report {
            Report::Sent(_) => match self.phase {
                Phase::Announcing | Phase::Reporting | Phase::Stopping => true,
                _ => false,
            },
            Report::Waited(_, _) => match self.phase {
                Phase::Delaying | Phase::Waiting => true,
                _ => false,
            },
            Report::Pointer(_, _) => match self.phase {
                Phase::Anchoring => true,
                _ => false,
            },
            Report::Clicked(result) => match self.phase {
                Phase::Clicking => match result {
                    Ok(()) => self.clicks <= u64::MAX - presses_per_trigger(self.settings.style),
                    Err(_) => true,
                },
                _ => false,
            },
            Report::Moved(_) => match self.phase {
                Phase::Watching => true,
                _ => false,
            },
            Report::Paced(interval, _) => match self.phase {
                Phase::Pacing => self.next <= u64::MAX - *interval,
                _ => false,
            },
        }
    }

    fn stop_with(&mut self, reason: StopReason) -> (task: Task)
        ensures
            final(self).settings == old(self).settings,
            (final(self)@, task) == stop_step(old(self)@, reason),
    {
        let copy = reason.clone();
        self.reason = Some(reason);
        self.phase = Phase::Stopping;
        self.events = Ghost(self.events@.push(SessionEvent::Stopped(copy)));
        Task::Emit(SessionEvent::Stopped(copy))
    }

    fn top(&mut self, now: u64) -> (task: Task)
        ensures
            final(self).settings == old(self).settings,
            (final(self)@, task) == loop_top(old(self).settings, old(self)@, now),
    {
        if let Some(reason) = &self.reason {
            let copy = reason.clone();
            return self.stop_with(copy);
        }
        let elapsed = now.saturating_sub(self.started);
        let max_clicks = self.settings.max_clicks;
        let max_seconds = self.settings.max_seconds;
        if max_clicks > 0 && self.clicks >= max_clicks {
            self.stop_with(StopReason::ClickLimit)
        } else if max_seconds > 0 && elapsed >= (max_seconds as u64) * NANOS_PER_SECOND {
            self.stop_with(StopReason::TimeLimit)
        } else {
            self.phase = Phase::Clicking;
            Task::Click(self.anchor)
        }
    }

    fn take_anchor(&mut self, now: u64) -> (task: Task)
        ensures
            final(self).settings == old(self).settings,
            (final(self)@, task) == anchor_step(old(self).settings, old(self)@, now),
    {
        match self.settings.position {
            PositionMode::Cursor => {
                self.phase = Phase::Anchoring;
                Task::ReadPointer
            },
            PositionMode::Fixed => {
                self.anchor = self.settings.point;
                self.next = now;
                self.top(now)
            },
        }
    }

    /// Takes the driver's report on the last task and hands out the next.
    pub fn step(&mut self, report: Report) -> (task: Task)
        requires
            old(self).wf(),
            answers(old(self).settings(), old(self)@, report),
        ensures
            final(self).wf(),
            final(self).settings() == old(self).settings(),
            (final(self)@, task) == advance(old(self).settings(), old(self)@, report),
            final(self)@.events == (match task {
                Task::Emit(event) => old(self)@.events.push(event),
                _ => old(self)@.events,
            }),
    {
        proof {
            lemma_advance_keeps_inv(self.settings, self@, report);
        }
        match report {
            Report::Sent(now) => match self.phase {
                Phase::Announcing => {
                    self.started = now;
                    if self.settings.start_delay_ms > 0 {
                        self.phase = Phase::Delaying;
                        Task::Wait(
                            now.saturating_add((self.settings.start_delay_ms as u64) * 1_000_000),
                        )
                    } else {
                        self.take_anchor(now)
                    }
                },
                Phase::Reporting => {
                    if watches_pointer(&self.settings) {
                        self.phase = Phase::Watching;
                        Task::Watch
                    } else {
                        self.phase = Phase::Pacing;
                        Task::Pace
                    }
                },
                _ => {
                    self.phase = Phase::Finished;
                    Task::Finish
                },
            },
            Report::Waited(stop, now) => {
                self.reason = stop;
                match self.phase {
                    Phase::Delaying => self.take_anchor(now),
                    _ => self.top(now),
                }
            },
            Report::Pointer(at, now) => {
                self.anchor = anchor(&self.settings, at);
                self.next = now;
                self.top(now)
            },
            Report::Clicked(result) => match result {
                Ok(()) => {
                    let total = self.clicks + presses_per_trigger(self.settings.style);
                    self.clicks = total;
                    self.phase = Phase::Reporting;
                    self.events = Ghost(self.events@.push(SessionEvent::Trigger(total)));
                    Task::Emit(SessionEvent::Trigger(total))
                },
                Err(message) => self.stop_with(StopReason::Error(message)),
            },
            Report::Moved(moved) => {
                if let Some(true) = moved {
                    self.stop_with(StopReason::MouseMoved)
                } else {
                    self.phase = Phase::Pacing;
                    Task::Pace
                }
            },
            Report::Paced(interval, now) => {
                self.next = next_deadline(self.next, interval, now);
                self.phase = Phase::Waiting;
                Task::Wait(self.next)
            },
        }
    }
}

proof fn lemma_stop_keeps_inv(s: Settings, p: Progress, reason: StopReason)
    requires
        counted_in_order(s, p),
        !is_closed(p.phase),
    ensures
        session_inv(s, stop_step(p, reason).0),
{
    let q = stop_step(p, reason).0;
    assert forall|i: int| 1 <= i <= q.events.len() - 2 implies (#[trigger] q.events[i] matches SessionEvent::Trigger(
        n,
    ) && n == i * presses(s.style)) by {
        assert(q.events[i] == p.events[i]);
    }
}

proof fn lemma_top_keeps_inv(s: Settings, p: Progress, now: u64)
    requires
        counted_in_order(s, p),
        !is_closed(p.phase),
    ensures
        session_inv(s, loop_top(s, p, now).0),
{
    match p.reason {
        Some(reason) => lemma_stop_keeps_inv(s, p, reason),
        None => match limit_reached(s, p.clicks as int, duration_between(p.started, now)) {
            Some(reason) => lemma_stop_keeps_inv(s, p, reason),
            None => {},
        },
    }
}

/// Every step keeps the invariant: whatever the driver reports, the events
/// stay in order, the count matches the `Trigger`s sent, and the count stays
/// within one trigger of the click limit.
pub proof fn lemma_advance_keeps_inv(s: Settings, p: Progress, report: Report)
    requires
        session_inv(s, p),
        answers(s, p, report),
    ensures
        session_inv(s, advance(s, p, report).0),
{
    match report {
        Report::Sent(now) => match p.phase {
            Phase::Announcing => {
                if s.start_delay_ms == 0 {
                    let q = Progress { started: now, ..p };
                    if s.position is Fixed {
                        lemma_top_keeps_inv(s, Progress { anchor: s.point, next: now, ..q }, now);
                    }
                }
            },
            _ => {},
        },
        Report::Waited(stop, now) => {
            let q = Progress { reason: stop, ..p };
            match p.phase {
                Phase::Delaying => {
                    if s.position is Fixed {
                        lemma_top_keeps_inv(s, Progress { anchor: s.point, next: now, ..q }, now);
                    }
                },
                _ => lemma_top_keeps_inv(s, q, now),
            }
        },
        Report::Pointer(at, now) => {
            lemma_top_keeps_inv(s, Progress { anchor: anchor_point(s, at), next: now, ..p }, now);
        },
        Report::Clicked(result) => match result {
            Ok(()) => {
                let k = trigger_count(p.events, p.phase);
                let total = (p.clicks + presses(s.style)) as u64;
                let q = advance(s, p, report).0;
                assert(total == (k + 1) * presses(s.style)) by (nonlinear_arith)
                    requires
                        p.clicks == k * presses(s.style),
                        total == p.clicks + presses(s.style),
                ;
                assert forall|i: int| 1 <= i <= q.events.len() - 1 implies (
                #[trigger] q.events[i] matches SessionEvent::Trigger(n) && n == i * presses(
                    s.style,
                )) by {
                    if i < q.events.len() - 1 {
                        assert(q.events[i] == p.events[i]);
                    }
                }
            },
            Err(message) => lemma_stop_keeps_inv(s, p, StopReason::Error(message)),
        },
        Report::Moved(moved) => {
            if moved == Some(true) {
                lemma_stop_keeps_inv(s, p, StopReason::MouseMoved);
            }
        },
        Report::Paced(_, _) => {},
    }
}

/// The events a session hands out come in order: `Started` once and first,
/// then only `Trigger`s, the `k`-th carrying `k` times the presses of one
/// trigger, and, once the session is closed, `Stopped` once and last, with
/// the reason it stopped for. The count never passes the click limit by a
/// whole trigger.
pub proof fn lemma_session_events_in_order(session: Session)
    requires
        session.wf(),
    ensures
        reported_in_order(
            session@.events,
            presses(session.settings().style),
            is_closed(session@.phase),
        ),
        session@.clicks == trigger_count(session@.events, session@.phase) * presses(
            session.settings().style,
        ),
        session.settings().max_clicks > 0 ==> session@.clicks <= session.settings().max_clicks
            + presses(session.settings().style) - 1,
        is_closed(session@.phase) ==> session@.events.last() == SessionEvent::Stopped(
            session@.reason->0,
        ),
{
}

/// A `Trigger` is handed out only in answer to a click that succeeded, and
/// a click only when no stop was asked for and no limit is reached.
pub proof fn lemma_clicks_follow_the_checks(s: Settings, p: Progress, report: Report)
    requires
        session_inv(s, p),
        answers(s, p, report),
    ensures
        advance(s, p, report).1 matches Task::Emit(SessionEvent::Trigger(_)) ==> p.phase is Clicking
            && report == Report::Clicked(Ok(())),
        advance(s, p, report).1 is Click ==> (report matches Report::Waited(stop, now) && stop is None
            && limit_reached(s, p.clicks as int, duration_between(p.started, now)) is None) || (
        report matches Report::Pointer(_, now) && p.reason is None && limit_reached(
            s,
            p.clicks as int,
            duration_between(p.started, now),
        ) is None) || (report matches Report::Sent(now) && s.start_delay_ms == 0 && limit_reached(
            s,
            p.clicks as int,
            duration_between(now, now),
        ) is None),
{
    match report {
        Report::Clicked(result) => match result {
            Ok(u) => {
                assert(u == ());
            },
            Err(_) => {},
        },
        _ => {},
    }
}

/// Once `Stopped` was handed out, the only report accepted is that it was
/// sent, and then the session is over: nothing more is accepted.
pub proof fn lemma_stopped_is_last(s: Settings, p: Progress, report: Report)
    requires
        is_closed(p.phase),
        answers(s, p, report),
    ensures
        p.phase is Stopping,
        advance(s, p, report) == (Progress { phase: Phase::Finished, ..p }, Task::Finish),
{
}

/// With both limits at 0 no limit ever ends a session.
pub proof fn lemma_zero_limits_run_until_stopped(settings: Settings, clicks: u64, elapsed: u64)
    requires
        settings.max_clicks == 0,
        settings.max_seconds == 0,
    ensures
        limit_reached(settings, clicks as int, elapsed) is None,
{
}

/// The click limit is checked before every trigger, so a session never
/// counts more than one trigger past it: starting within the limit, a
/// trigger that the check lets through leaves at most `max_clicks +
/// presses - 1` clicks, which is the limit itself for single and hold
/// clicks.
pub proof fn lemma_click_limit_overshoot(settings: Settings, clicks: u64, elapsed: u64)
    requires
        settings.max_clicks > 0,
        limit_reached(settings, clicks as int, elapsed) is None,
    ensures
        clicks + presses(settings.style) <= settings.max_clicks + presses(settings.style) - 1,
{
}

/// Once the count reaches the click limit, the next check ends the session
/// with `ClickLimit`, whatever the time.
pub proof fn lemma_click_limit_stops(settings: Settings, clicks: u64, elapsed: u64)
    requires
        settings.max_clicks > 0,
        clicks >= settings.max_clicks,
    ensures
        limit_reached(settings, clicks as int, elapsed) == Some(StopReason::ClickLimit),
{
}

/// Within the click limit, once the time limit has passed the next check
/// ends the session with `TimeLimit`.
pub proof fn lemma_time_limit_stops(settings: Settings, clicks: u64, elapsed: u64)
    requires
        settings.max_seconds > 0,
        elapsed >= settings.max_seconds * NANOS_PER_SECOND,
        settings.max_clicks == 0 || clicks < settings.max_clicks,
    ensures
        limit_reached(settings, clicks as int, elapsed) == Some(StopReason::TimeLimit),
{
}

/// When the next trigger is due: one interval after the previous deadline, or
/// now when a slow click or a busy system put the loop behind, so it
/// resynchronises rather than firing a burst to catch up.
pub fn next_deadline(previous: u64, interval: u64, now: u64) -> (next: u64)
    requires
        previous + interval <= u64::MAX,
    ensures
        next == next_due(previous, interval, now),
        next >= now,
{
    let next = previous + interval;
    if next < now {
        now
    } else {
        next
    }
}

/// Commands sent to the engine worker.
#[derive(Debug)]
pub enum Command {
    Start(Box<Settings>),
    Stop,
    /// Start if idle, stop if running. Resolved by the worker, so the decision
    /// is made against authoritative state rather than a stale UI read.
    Toggle(Box<Settings>),
    Capture,
    Shutdown,
}

/// What one look at the command channel found.
#[derive(Debug)]
pub enum Received {
    Message(Command),
    /// Nothing was waiting (or the wait for a message timed out).
    Empty,
    /// Every sender is gone.
    Disconnected,
}

/// What a running session does with what it found on the command channel.
#[derive(Debug, PartialEq, Eq)]
pub enum PollStep {
    /// Nothing pending: go on clicking.
    Continue,
    /// Read the pointer position, then look at the channel again.
    Capture,
    /// Already running; look at the channel again.
    Ignore,
    /// End the session.
    Stop(StopReason),
}

/// The meaning of `received` during a session: stop and toggle end it as a
/// user stop, shutdown and a closed channel end it as a shutdown, a second
/// start is ignored.
pub open spec fn poll_meaning(received: Received) -> PollStep {
    match received {
        Received::Empty => PollStep::Continue,
        Received::Disconnected => PollStep::Stop(StopReason::Shutdown),
        Received::Message(Command::Stop) => PollStep::Stop(StopReason::User),
        Received::Message(Command::Toggle(_)) => PollStep::Stop(StopReason::User),
        Received::Message(Command::Shutdown) => PollStep::Stop(StopReason::Shutdown),
        Received::Message(Command::Capture) => PollStep::Capture,
        Received::Message(Command::Start(_)) => PollStep::Ignore,
    }
}

pub fn poll_step(received: &Received) -> (step: PollStep)
    ensures
        step == poll_meaning(*received),
{
    match received {
        Received::Empty => PollStep::Continue,
        Received::Disconnected => PollStep::Stop(StopReason::Shutdown),
        Received::Message(Command::Stop) => PollStep::Stop(StopReason::User),
        Received::Message(Command::Toggle(_)) => PollStep::Stop(StopReason::User),
        Received::Message(Command::Shutdown) => PollStep::Stop(StopReason::Shutdown),
        Received::Message(Command::Capture) => PollStep::Capture,
        Received::Message(Command::Start(_)) => PollStep::Ignore,
    }
}

/// What the idle engine worker does with what it found on the channel.
#[derive(Debug, PartialEq, Eq)]
pub enum WorkerStep {
    /// Leave the worker loop.
    Exit,
    /// Wait for the next command.
    Wait,
    /// Read the pointer position.
    Capture,
    /// Run a session with the settings of the command.
    Run,
}

/// The meaning of `received` for the worker: shutdown or a closed channel
/// end it; start and toggle run a session unless one is already running.
pub open spec fn worker_meaning(received: Received, running: bool) -> WorkerStep {
    match received {
        Received::Disconnected => WorkerStep::Exit,
        Received::Message(Command::Shutdown) => WorkerStep::Exit,
        Received::Empty => WorkerStep::Wait,
        Received::Message(Command::Stop) => WorkerStep::Wait,
        Received::Message(Command::Capture) => WorkerStep::Capture,
        Received::Message(Command::Start(_)) => if running {
            WorkerStep::Wait
        } else {
            WorkerStep::Run
        },
        Received::Message(Command::Toggle(_)) => if running {
            WorkerStep::Wait
        } else {
            WorkerStep::Run
        },
    }
}

pub fn worker_step(received: &Received, running: bool) -> (step: WorkerStep)
    ensures
        step == worker_meaning(*received, running),
{
    match received {
        Received::Disconnected => WorkerStep::Exit,
        Received::Message(Command::Shutdown) => WorkerStep::Exit,
        Received::Empty => WorkerStep::Wait,
        Received::Message(Command::Stop) => WorkerStep::Wait,
        Received::Message(Command::Capture) => WorkerStep::Capture,
        Received::Message(Command::Start(_)) | Received::Message(Command::Toggle(_)) => {
            if running {
                WorkerStep::Wait
            } else {
                WorkerStep::Run
            }
        },
    }
}

/// An idle worker starts a session on Start, exactly as on Toggle; a
/// running one leaves the running session alone, and during a session a
/// second Start is ignored.
pub proof fn lemma_start_runs_when_idle(settings: Box<Settings>)
    ensures
        worker_meaning(Received::Message(Command::Start(settings)), false) == WorkerStep::Run,
        worker_meaning(Received::Message(Command::Start(settings)), true) == WorkerStep::Wait,
        worker_meaning(Received::Message(Command::Toggle(settings)), false) == WorkerStep::Run,
        worker_meaning(Received::Message(Command::Toggle(settings)), true) == WorkerStep::Wait,
        poll_meaning(Received::Message(Command::Start(settings))) == PollStep::Ignore,
{
}

/// Stop and capture never start a session; shutdown and a closed channel end
/// the worker whatever its state.
pub proof fn lemma_only_start_and_toggle_run(received: Received, running: bool)
    ensures
        worker_meaning(received, running) == WorkerStep::Run ==> !running && (received matches Received::Message(
            command,
        ) && (command is Start || command is Toggle)),
        received == Received::Message(Command::Stop) ==> worker_meaning(received, running)
            == WorkerStep::Wait,
        received == Received::Message(Command::Capture) ==> worker_meaning(received, running)
            == WorkerStep::Capture,
        received == Received::Message(Command::Shutdown) ==> worker_meaning(received, running)
            == WorkerStep::Exit,
        received == Received::Disconnected ==> worker_meaning(received, running) == WorkerStep::Exit,
{
}

/// A toggle stops a running session and starts an idle worker: the same
/// command does both, decided against the worker's own state.
pub proof fn lemma_toggle_flips(settings: Box<Settings>)
    ensures
        poll_meaning(Received::Message(Command::Toggle(settings))) == PollStep::Stop(
            StopReason::User,
        ),
        worker_meaning(Received::Message(Command::Toggle(settings)), false) == WorkerStep::Run,
{
}

/// Longest single sleep, so a stop stays responsive during long intervals
/// (25 ms).
pub const MAX_SLEEP_SLICE_NS: u64 = 25_000_000;
/// Shortest sleep worth asking the OS for (200 us).
pub const MIN_SLEEP_NS: u64 = 200_000;
/// Least spin-wait slice at the end of an interval (300 us).
pub const SLACK_FLOOR_NS: u64 = 300_000;
/// Greatest spin-wait slice (2 ms).
pub const SLACK_CEILING_NS: u64 = 2_000_000;
/// Spin-wait slice before any sleep was measured (1 ms).
pub const SLACK_INITIAL_NS: u64 = 1_000_000;

/// What to do next while waiting for a deadline.
#[derive(Debug, PartialEq, Eq)]
pub enum WaitStep {
    /// The deadline has come.
    Done,
    /// Sleep this many nanoseconds.
    Sleep(u64),
    /// Close to the deadline: spin.
    Spin,
}

/// Sleeps until a deadline in short slices, staying responsive to stop
/// commands. Sleeps are capped at `MAX_SLEEP_SLICE_NS` and end early by the
/// recently observed OS overshoot (the slack), so only the last fraction of a
/// millisecond is ever spun on.
pub struct Waiter {
    slack: u64,
    /// When the last sleep was meant to end.
    wake_at: u64,
}

/// Outside work of a wait, handed to the wait's driver.
#[derive(Debug, PartialEq, Eq)]
pub enum WaitTask {
    /// The deadline has come: the wait is over.
    Done,
    /// Look at the command channel. A command that ends the session ends the
    /// wait with it; otherwise answer `Polled`.
    Poll,
    /// Sleep this many nanoseconds; answer `Slept`.
    Sleep(u64),
    /// Spin once; answer `Spun`.
    Spin,
}

/// The driver's answer on a wait task, with the time it was done.
#[derive(Debug)]
pub enum WaitReport {
    /// The wait begins.
    Began(u64),
    Polled(u64),
    Slept(u64),
    Spun(u64),
}

/// The next task of a wait for `deadline` with spin slice `slack`, after
/// `report`: once the commands were looked at, sleep or spin as planned;
/// otherwise the wait is over at the deadline, and before it the commands
/// are looked at first.
pub open spec fn wait_task(deadline: u64, slack: u64, report: WaitReport) -> WaitTask {
    match report {
        WaitReport::Polled(now) => match wait_plan(now, deadline, slack) {
            WaitStep::Sleep(nanos) => WaitTask::Sleep(nanos),
            _ => WaitTask::Spin,
        },
        WaitReport::Began(now) => if now >= deadline {
            WaitTask::Done
        } else {
            WaitTask::Poll
        },
        WaitReport::Slept(now) => if now >= deadline {
            WaitTask::Done
        } else {
            WaitTask::Poll
        },
        WaitReport::Spun(now) => if now >= deadline {
            WaitTask::Done
        } else {
            WaitTask::Poll
        },
    }
}

/// When to stop sleeping for `deadline`: `slack` before it.
pub open spec fn wake_time(deadline: u64, slack: u64) -> u64 {
    if deadline >= slack {
        (deadline - slack) as u64
    } else {
        deadline
    }
}

/// The step for a wait at `now` towards `deadline` with spin slice `slack`.
pub open spec fn wait_plan(now: u64, deadline: u64, slack: u64) -> WaitStep {
    let wake = wake_time(deadline, slack);
    if now >= deadline {
        WaitStep::Done
    } else if now < wake {
        let until_wake = (wake - now) as u64;
        let capped = if until_wake < MAX_SLEEP_SLICE_NS {
            until_wake
        } else {
            MAX_SLEEP_SLICE_NS
        };
        WaitStep::Sleep(
            if capped < MIN_SLEEP_NS {
                MIN_SLEEP_NS
            } else {
                capped
            },
        )
    } else {
        WaitStep::Spin
    }
}

/// The spin slice learned from a sleep that overshot by `overshoot`: the
/// overshoot plus the floor, kept between floor and ceiling.
pub open spec fn learned_slack(overshoot: u64) -> u64 {
    let wanted = overshoot + SLACK_FLOOR_NS;
    if wanted > SLACK_CEILING_NS {
        SLACK_CEILING_NS
    } else {
        wanted as u64
    }
}

impl Waiter {
    #[verifier::type_invariant]
    closed spec fn slack_in_range(self) -> bool {
        SLACK_FLOOR_NS <= self.slack <= SLACK_CEILING_NS
    }

    /// The current spin slice.
    pub closed spec fn slack(self) -> u64 {
        self.slack
    }

    /// When the last sleep was meant to end.
    pub closed spec fn wake_at(self) -> u64 {
        self.wake_at
    }

    /// Takes the driver's report on the last task of a wait for `deadline`
    /// and hands out the next; a sleep that ended teaches the spin slice.
    pub fn step(&mut self, deadline: u64, report: WaitReport) -> (task: WaitTask)
        ensures
            task == wait_task(deadline, old(self).slack(), report),
            final(self).slack() == (match report {
                WaitReport::Slept(now) => learned_slack(duration_between(old(self).wake_at(), now)),
                _ => old(self).slack(),
            }),
            final(self).wake_at() == (match (report, task) {
                (WaitReport::Polled(now), WaitTask::Sleep(nanos)) => if now + nanos > u64::MAX {
                    u64::MAX
                } else {
                    (now + nanos) as u64
                },
                _ => old(self).wake_at(),
            }),
    {
        match report {
            WaitReport::Polled(now) => match self.plan(now, deadline) {
                WaitStep::Sleep(nanos) => {
                    self.wake_at = now.saturating_add(nanos);
                    WaitTask::Sleep(nanos)
                },
                _ => WaitTask::Spin,
            },
            WaitReport::Began(now) | WaitReport::Spun(now) => {
                if now >= deadline {
                    WaitTask::Done
                } else {
                    WaitTask::Poll
                }
            },
            WaitReport::Slept(now) => {
                let intended = self.wake_at;
                self.woke(intended, now);
                if now >= deadline {
                    WaitTask::Done
                } else {
                    WaitTask::Poll
                }
            },
        }
    }

    pub fn new() -> (waiter: Waiter)
        ensures
            waiter.slack() == SLACK_INITIAL_NS,
    {
        Waiter { slack: SLACK_INITIAL_NS, wake_at: 0 }
    }

    /// The next step at `now` of a wait for `deadline`.
    pub fn plan(&self, now: u64, deadline: u64) -> (step: WaitStep)
        ensures
            step == wait_plan(now, deadline, self.slack()),
            SLACK_FLOOR_NS <= self.slack() <= SLACK_CEILING_NS,
    {
        proof {
            use_type_invariant(self);
        }
        if now >= deadline {
            return WaitStep::Done;
        }
        let wake = if deadline >= self.slack {
            deadline - self.slack
        } else {
            deadline
        };
        if now < wake {
            let until_wake = wake - now;
            let capped = if until_wake < MAX_SLEEP_SLICE_NS {
                until_wake
            } else {
                MAX_SLEEP_SLICE_NS
            };
            WaitStep::Sleep(
                if capped < MIN_SLEEP_NS {
                    MIN_SLEEP_NS
                } else {
                    capped
                },
            )
        } else {
            WaitStep::Spin
        }
    }

    /// A sleep meant to end at `intended` ended at `woke`: the spin slice
    /// becomes the overshoot plus the floor, within floor and ceiling.
    pub fn woke(&mut self, intended: u64, woke: u64)
        ensures
            final(self).slack() == learned_slack(duration_between(intended, woke)),
            final(self).wake_at() == old(self).wake_at(),
    {
        let overshoot = woke.saturating_sub(intended);
        let wanted = overshoot.saturating_add(SLACK_FLOOR_NS);
        self.slack = if wanted > SLACK_CEILING_NS {
            SLACK_CEILING_NS
        } else {
            wanted
        };
    }
}

/// A waiter never sleeps past the deadline it waits for (on a clock that
/// reads at least `SLACK_CEILING_NS` by then), never sleeps longer than one
/// slice, and never asks for less than the shortest sleep; so a stop command
/// is seen within one slice.
pub proof fn lemma_sleep_stays_before_deadline(waiter: Waiter, now: u64, deadline: u64)
    requires
        SLACK_FLOOR_NS <= waiter.slack() <= SLACK_CEILING_NS,
        deadline >= SLACK_CEILING_NS,
    ensures
        wait_plan(now, deadline, waiter.slack()) matches WaitStep::Sleep(d) ==> {
            &&& now + d <= deadline
            &&& MIN_SLEEP_NS <= d <= MAX_SLEEP_SLICE_NS
        },
{
}

/// A wait looks at the commands before every sleep, and no sleep is longer
/// than one slice: a stop command is seen within one slice of sleep. The
/// wait ends only at a check of the clock outside a poll, and only once the
/// deadline has come.
pub proof fn lemma_wait_polls_before_sleeping(deadline: u64, slack: u64, report: WaitReport)
    ensures
        wait_task(deadline, slack, report) is Sleep ==> report is Polled,
        wait_task(deadline, slack, report) matches WaitTask::Sleep(nanos) ==> nanos
            <= MAX_SLEEP_SLICE_NS,
        !(report is Polled) ==> wait_task(deadline, slack, report) is Done || wait_task(
            deadline,
            slack,
            report,
        ) is Poll,
        wait_task(deadline, slack, report) is Done ==> !(report is Polled) && match report {
            WaitReport::Began(now) => now >= deadline,
            WaitReport::Slept(now) => now >= deadline,
            WaitReport::Spun(now) => now >= deadline,
            WaitReport::Polled(_) => false,
        },
{
}

/// The wait ends exactly when the deadline has come: before it the waiter
/// sleeps or spins, at or after it the step is `Done`.
pub proof fn lemma_wait_never_returns_early(slack: u64, now: u64, deadline: u64)
    ensures
        (wait_plan(now, deadline, slack) == WaitStep::Done) <==> now >= deadline,
{
}

} // verus!
