//! The build run as a state machine. The driver performs the action that a
//! step asks for and hands the outcome back as the next event; the machine
//! decides. It triggers the build, waits until a build newer than the first
//! one seen reports that it runs, streams that build's console text until
//! the server reports the build as finished, and on an interrupt turns to
//! stopping the latest build instead.

use crate::config::Config;
use crate::console::{advanced, bytes, fresh, unseen};
use crate::status::{status_of, BuildInfo, BuildInfoView, BuildStatus, BuildStatusView};
use vstd::prelude::*;

verus! {

/// Pause between the trigger and the first look at the job.
pub const SETTLE_SECONDS: u64 = 5;

/// Pause between two looks at the job while the build has not started.
pub const START_POLL_SECONDS: u64 = 5;

/// Pause between two fetches of the console text.
pub const STREAM_POLL_SECONDS: u64 = 2;

/// What the machine waits for while the build has not started.
#[derive(Clone, Copy, Debug, PartialEq, Eq)]
pub enum StartWait {
    /// A pause runs.
    Timer,
    /// The job description was asked for.
    JobDetail,
    /// Build `candidate` exceeds the baseline; its description was asked for.
    BuildInfo { candidate: u64 },
}

/// What the machine waits for while it streams.
#[derive(Clone, Copy, Debug, PartialEq, Eq)]
pub enum StreamWait {
    /// Status and console text were asked for.
    Poll,
    /// A pause runs.
    Timer,
}

/// What the machine waits for while it cancels.
#[derive(Clone, Copy, Debug, PartialEq, Eq)]
pub enum CancelWait {
    /// The job description was asked for.
    JobDetail,
    /// The stop request for `build` is under way.
    Stop { build: u64 },
}

/// State of a run.
#[allow(inconsistent_fields)]
#[derive(Clone, Copy, Debug, PartialEq, Eq)]
pub enum Phase {
    /// No run has begun; `begin` opens one.
    Idle,
    /// The trigger request is under way.
    Triggering,
    /// Triggered; no newer build has been seen running yet. `baseline` is
    /// the first build identifier that the job showed.
    AwaitingStart { baseline: Option<u64>, wait: StartWait },
    /// The build runs; `cursor` bytes of its console text have been shown.
    Streaming { cursor: usize, wait: StreamWait },
    /// The server reported the build as finished.
    Completed,
    /// Interrupted; the latest build is being stopped.
    Cancelling { wait: CancelWait },
    /// The cancel path has ended.
    Cancelled,
    /// A request failed; the run was given up.
    Failed,
    /// Credentials are missing; nothing was requested.
    LoginRequired,
}

/// What the driver reports back.
#[derive(Clone, Debug, PartialEq, Eq)]
pub enum Event {
    /// The trigger request succeeded.
    Triggered,
    /// The pause is over.
    TimerElapsed,
    /// The job description arrived; `last_build` is its latest build.
    JobDetail { last_build: Option<u64> },
    /// The latest build's description arrived.
    BuildInfo { info: BuildInfo },
    /// The latest build's description and console text arrived.
    Poll { info: BuildInfo, console: String },
    /// The stop request succeeded.
    Stopped,
    /// The request under way failed.
    RemoteFailure,
    /// The user interrupted the run.
    Interrupt,
}

/// What the driver is to do next.
#[derive(Clone, Copy, Debug, PartialEq, Eq)]
pub enum Action {
    /// Send the trigger request, then report `Triggered`.
    TriggerBuild,
    /// Pause, then report `TimerElapsed`.
    Sleep { seconds: u64 },
    /// Fetch the job description, then report `JobDetail`.
    FetchJobDetail,
    /// Fetch the latest build's description, then report `BuildInfo`.
    FetchBuildInfo,
    /// Fetch the latest build's description, then its console text, then
    /// report `Poll`.
    PollBuild,
    /// Ask the server to stop `build`, then report `Stopped`.
    StopBuild { build: u64 },
    /// The run is over.
    Finish,
}

/// What the driver is to tell the user.
#[derive(Clone, Debug, PartialEq, Eq)]
pub enum Notice {
    /// Nothing.
    Quiet,
    /// The build is being triggered.
    Triggering,
    /// The build was triggered; waiting for it to start.
    Triggered,
    /// `build` is the job's latest build so far; waiting for a newer one.
    Baseline { build: u64 },
    /// Still waiting for the build to start.
    Waiting,
    /// `build` has started; its console text follows.
    Started { build: u64 },
    /// The build has finished with the outcome `result`.
    Completed { result: String },
    /// The build was stopped.
    Stopped,
    /// The job has no build that could be stopped.
    NoBuildFound,
    /// A request failed.
    Failed,
    /// Credentials are missing; the user has to log in first.
    LoginRequired,
}

/// Result of one step: what to tell, what console text to show, and what
/// to do next.
#[derive(Clone, Debug, PartialEq, Eq)]
pub struct Step {
    pub notice: Notice,
    pub emit: Vec<u8>,
    pub action: Action,
}

/// Mathematical content of an [`Event`]; the console text is held as the
/// bytes of its UTF-8 form.
pub enum EventView {
    Triggered,
    TimerElapsed,
    JobDetail { last_build: Option<u64> },
    BuildInfo { info: BuildInfoView },
    Poll { info: BuildInfoView, console: Seq<u8> },
    Stopped,
    RemoteFailure,
    Interrupt,
}

/// Mathematical content of a [`Notice`].
pub enum NoticeView {
    Quiet,
    Triggering,
    Triggered,
    Baseline { build: u64 },
    Waiting,
    Started { build: u64 },
    Completed { result: Seq<char> },
    Stopped,
    NoBuildFound,
    Failed,
    LoginRequired,
}

/// Mathematical content of a [`Step`].
pub struct StepView {
    pub notice: NoticeView,
    pub emit: Seq<u8>,
    pub action: Action,
}

impl View for Event {
    type V = EventView;

    open spec fn view(&self) -> EventView {
        match *self {
            Event::Triggered => EventView::Triggered,
            Event::TimerElapsed => EventView::TimerElapsed,
            Event::JobDetail { last_build } => EventView::JobDetail { last_build },
            Event::BuildInfo { info } => EventView::BuildInfo { info: info@ },
            Event::Poll { info, console } => EventView::Poll {
                info: info@,
                console: bytes(console@),
            },
            Event::Stopped => EventView::Stopped,
            Event::RemoteFailure => EventView::RemoteFailure,
            Event::Interrupt => EventView::Interrupt,
        }
    }
}

impl View for Notice {
    type V = NoticeView;

    open spec fn view(&self) -> NoticeView {
        match *self {
            Notice::Quiet => NoticeView::Quiet,
            Notice::Triggering => NoticeView::Triggering,
            Notice::Triggered => NoticeView::Triggered,
            Notice::Baseline { build } => NoticeView::Baseline { build },
            Notice::Waiting => NoticeView::Waiting,
            Notice::Started { build } => NoticeView::Started { build },
            Notice::Completed { result } => NoticeView::Completed { result: result@ },
            Notice::Stopped => NoticeView::Stopped,
            Notice::NoBuildFound => NoticeView::NoBuildFound,
            Notice::Failed => NoticeView::Failed,
            Notice::LoginRequired => NoticeView::LoginRequired,
        }
    }
}

impl View for Step {
    type V = StepView;

    open spec fn view(&self) -> StepView {
        StepView { notice: self.notice@, emit: self.emit@, action: self.action }
    }
}

/// Mathematical content of a step function's result.
pub open spec fn outcome(r: Option<(Phase, Step)>) -> Option<(Phase, StepView)> {
    match r {
        Some((phase, step)) => Some((phase, step@)),
        None => None,
    }
}

/// A step that shows no console text.
pub open spec fn say(notice: NoticeView, action: Action) -> StepView {
    StepView { notice, emit: Seq::empty(), action }
}

impl Phase {
    /// The build path is under way: an interrupt turns to the cancel path.
    pub open spec fn active(self) -> bool {
        self is Triggering || self is AwaitingStart || self is Streaming
    }

    /// The run is over: no event is accepted any more.
    pub open spec fn terminal(self) -> bool {
        self is Completed || self is Cancelled || self is Failed || self is LoginRequired
    }

    /// A request is under way, so that it can fail.
    pub open spec fn requesting(self) -> bool {
        match self {
            Phase::Triggering => true,
            Phase::AwaitingStart { wait, .. } => !(wait is Timer),
            Phase::Streaming { wait, .. } => wait is Poll,
            Phase::Cancelling { .. } => true,
            _ => false,
        }
    }

    /// Well-formedness: a candidate build is newer than the baseline.
    /// `begin` establishes it and every step keeps it.
    pub open spec fn wf(self) -> bool {
        self matches Phase::AwaitingStart { baseline, wait: StartWait::BuildInfo { candidate } }
            ==> (baseline matches Some(b) && candidate > b)
    }
}

/// The first step of a run with the credentials in `config`: the trigger
/// request where they are complete, and the end of the run where they are
/// not.
pub open spec fn opening(config: crate::config::ConfigView) -> (Phase, StepView) {
    if config.complete() {
        (Phase::Triggering, say(NoticeView::Triggering, Action::TriggerBuild))
    } else {
        (Phase::LoginRequired, say(NoticeView::LoginRequired, Action::Finish))
    }
}

/// A request failed: the run is given up.
pub open spec fn failure() -> (Phase, StepView) {
    (Phase::Failed, say(NoticeView::Failed, Action::Finish))
}

/// The job showed `seen` as its latest build while the run waits for the
/// build to start. The first identifier seen becomes the baseline and does
/// not count as the new build; a greater one makes the machine ask whether
/// that build runs; anything else means waiting on.
pub open spec fn observed(baseline: Option<u64>, seen: Option<u64>) -> (Phase, StepView) {
    match seen {
        Some(n) => match baseline {
            None => (
                Phase::AwaitingStart { baseline: Some(n), wait: StartWait::Timer },
                say(NoticeView::Baseline { build: n }, Action::Sleep { seconds: START_POLL_SECONDS }),
            ),
            Some(b) => if n > b {
                (
                    Phase::AwaitingStart { baseline, wait: StartWait::BuildInfo { candidate: n } },
                    say(NoticeView::Quiet, Action::FetchBuildInfo),
                )
            } else {
                waiting_on(baseline)
            },
        },
        None => waiting_on(baseline),
    }
}

/// Nothing new: pause, then look again.
pub open spec fn waiting_on(baseline: Option<u64>) -> (Phase, StepView) {
    (
        Phase::AwaitingStart { baseline, wait: StartWait::Timer },
        say(NoticeView::Waiting, Action::Sleep { seconds: START_POLL_SECONDS }),
    )
}

/// The state of the candidate build arrived. Only a build that runs has
/// started.
pub open spec fn confirmed(baseline: Option<u64>, candidate: u64, status: BuildStatusView) -> (
    Phase,
    StepView,
) {
    if status is Running {
        (
            Phase::Streaming { cursor: 0, wait: StreamWait::Poll },
            say(NoticeView::Started { build: candidate }, Action::PollBuild),
        )
    } else {
        waiting_on(baseline)
    }
}

/// State and console text arrived while streaming. What lies beyond the
/// cursor is shown. Only a build that has ended ends the stream; one of
/// which nothing is known is taken to run on.
pub open spec fn polled(cursor: usize, status: BuildStatusView, console: Seq<u8>) -> (
    Phase,
    StepView,
) {
    match status {
        BuildStatusView::Completed { outcome } => (
            Phase::Completed,
            StepView {
                notice: NoticeView::Completed { result: outcome },
                emit: fresh(console, cursor),
                action: Action::Finish,
            },
        ),
        _ => (
            Phase::Streaming { cursor: advanced(console, cursor), wait: StreamWait::Timer },
            StepView {
                notice: NoticeView::Quiet,
                emit: fresh(console, cursor),
                action: Action::Sleep { seconds: STREAM_POLL_SECONDS },
            },
        ),
    }
}

/// One step of streaming.
pub open spec fn streaming(cursor: usize, wait: StreamWait, event: EventView) -> Option<
    (Phase, StepView),
> {
    match wait {
        StreamWait::Poll => match event {
            EventView::Poll { info, console } => Some(polled(cursor, status_of(info), console)),
            EventView::RemoteFailure => Some(failure()),
            _ => None,
        },
        StreamWait::Timer => match event {
            EventView::TimerElapsed => Some(
                (
                    Phase::Streaming { cursor, wait: StreamWait::Poll },
                    say(NoticeView::Quiet, Action::PollBuild),
                ),
            ),
            _ => None,
        },
    }
}

/// One step of waiting for the build to start.
pub open spec fn awaiting(baseline: Option<u64>, wait: StartWait, event: EventView) -> Option<
    (Phase, StepView),
> {
    match wait {
        StartWait::Timer => match event {
            EventView::TimerElapsed => Some(
                (
                    Phase::AwaitingStart { baseline, wait: StartWait::JobDetail },
                    say(NoticeView::Quiet, Action::FetchJobDetail),
                ),
            ),
            _ => None,
        },
        StartWait::JobDetail => match event {
            EventView::JobDetail { last_build } => Some(observed(baseline, last_build)),
            EventView::RemoteFailure => Some(failure()),
            _ => None,
        },
        StartWait::BuildInfo { candidate } => match event {
            EventView::BuildInfo { info } => Some(confirmed(baseline, candidate, status_of(info))),
            EventView::RemoteFailure => Some(failure()),
            _ => None,
        },
    }
}

/// One step of the build path: trigger, wait for the start, stream.
pub open spec fn build_path(phase: Phase, event: EventView) -> Option<(Phase, StepView)> {
    match phase {
        Phase::Triggering => match event {
            EventView::Triggered => Some(
                (
                    Phase::AwaitingStart { baseline: None, wait: StartWait::Timer },
                    say(NoticeView::Triggered, Action::Sleep { seconds: SETTLE_SECONDS }),
                ),
            ),
            EventView::RemoteFailure => Some(failure()),
            _ => None,
        },
        Phase::AwaitingStart { baseline, wait } => awaiting(baseline, wait, event),
        Phase::Streaming { cursor, wait } => streaming(cursor, wait, event),
        _ => None,
    }
}

/// One step of the cancel path: with the job's latest build known, ask the
/// server to stop it; where the job shows none, say so and end.
pub open spec fn cancel_path(wait: CancelWait, event: EventView) -> Option<(Phase, StepView)> {
    match wait {
        CancelWait::JobDetail => match event {
            EventView::JobDetail { last_build } => match last_build {
                Some(build) => Some(
                    (
                        Phase::Cancelling { wait: CancelWait::Stop { build } },
                        say(NoticeView::Quiet, Action::StopBuild { build }),
                    ),
                ),
                None => Some((Phase::Cancelled, say(NoticeView::NoBuildFound, Action::Finish))),
            },
            EventView::RemoteFailure => Some(failure()),
            _ => None,
        },
        CancelWait::Stop { build } => match event {
            EventView::Stopped => Some((Phase::Cancelled, say(NoticeView::Stopped, Action::Finish))),
            EventView::RemoteFailure => Some(failure()),
            _ => None,
        },
    }
}

/// The machine's step: the phase and the step that follow `event` in
/// `phase`, or `None` where the phase does not accept the event. An
/// interrupt is accepted while the build path is under way and turns to the
/// cancel path, whatever the machine was waiting for.
pub open spec fn transition(phase: Phase, event: EventView) -> Option<(Phase, StepView)> {
    match event {
        EventView::Interrupt => if phase.active() {
            Some(
                (
                    Phase::Cancelling { wait: CancelWait::JobDetail },
                    say(NoticeView::Quiet, Action::FetchJobDetail),
                ),
            )
        } else {
            None
        },
        _ => match phase {
            Phase::Cancelling { wait } => cancel_path(wait, event),
            _ => build_path(phase, event),
        },
    }
}

/// The phase reached from `phase` by `events`, and the steps taken on the
/// way. Events that a phase does not accept leave no trace.
pub open spec fn run(phase: Phase, events: Seq<EventView>) -> (Phase, Seq<StepView>)
    decreases events.len(),
{
    if events.len() == 0 {
        (phase, Seq::empty())
    } else {
        match transition(phase, events[0]) {
            Some((next, step)) => {
                let (last, steps) = run(next, events.drop_first());
                (last, seq![step] + steps)
            },
            None => run(phase, events.drop_first()),
        }
    }
}

/// A step that tells `notice`, shows nothing and asks for `action`.
fn tell(notice: Notice, action: Action) -> (step: Step)
    ensures
        step@ == say(notice@, action),
{
    Step { notice, emit: Vec::new(), action }
}

/// The phase and step with which a run is given up.
fn give_up() -> (r: (Phase, Step))
    ensures
        (r.0, r.1@) == failure(),
{
    (Phase::Failed, tell(Notice::Failed, Action::Finish))
}

/// The phase and step with which the wait for the start goes on.
fn wait_on(baseline: Option<u64>) -> (r: (Phase, Step))
    ensures
        (r.0, r.1@) == waiting_on(baseline),
{
    (
        Phase::AwaitingStart { baseline, wait: StartWait::Timer },
        tell(Notice::Waiting, Action::Sleep { seconds: START_POLL_SECONDS }),
    )
}

/// Opens a run. With complete credentials the driver is asked to trigger
/// the build; with any of the three missing the run ends at once, with the
/// advice to log in, and no request is ever asked for.
pub fn begin(config: &Config) -> (r: (Phase, Step))
    ensures
        (r.0, r.1@) == opening(config@),
        r.0.wf(),
{
    if config.endpoint.is_some() && config.username.is_some() && config.token.is_some() {
        (Phase::Triggering, tell(Notice::Triggering, Action::TriggerBuild))
    } else {
        (Phase::LoginRequired, tell(Notice::LoginRequired, Action::Finish))
    }
}

/// Decides what follows a look at the job while the build has not started.
pub fn observe(baseline: Option<u64>, seen: Option<u64>) -> (r: (Phase, Step))
    ensures
        (r.0, r.1@) == observed(baseline, seen),
{
    match seen {
        Some(n) => match baseline {
            None => (
                Phase::AwaitingStart { baseline: Some(n), wait: StartWait::Timer },
                tell(Notice::Baseline { build: n }, Action::Sleep { seconds: START_POLL_SECONDS }),
            ),
            Some(b) => if n > b {
                (
                    Phase::AwaitingStart { baseline, wait: StartWait::BuildInfo { candidate: n } },
                    tell(Notice::Quiet, Action::FetchBuildInfo),
                )
            } else {
                wait_on(baseline)
            },
        },
        None => wait_on(baseline),
    }
}

/// Decides whether the candidate build has started.
pub fn confirm(baseline: Option<u64>, candidate: u64, status: BuildStatus) -> (r: (Phase, Step))
    ensures
        (r.0, r.1@) == confirmed(baseline, candidate, status@),
{
    match status {
        BuildStatus::Running => (
            Phase::Streaming { cursor: 0, wait: StreamWait::Poll },
            tell(Notice::Started { build: candidate }, Action::PollBuild),
        ),
        _ => wait_on(baseline),
    }
}

/// Shows what is new of the console text, and ends the run where the
/// build has ended.
pub fn poll(cursor: usize, status: BuildStatus, console: &str) -> (r: (Phase, Step))
    ensures
        (r.0, r.1@) == polled(cursor, status@, bytes(console@)),
{
    let (emit, next) = unseen(console, cursor);
    match status {
        BuildStatus::Completed { outcome } => (
            Phase::Completed,
            Step { notice: Notice::Completed { result: outcome }, emit, action: Action::Finish },
        ),
        _ => (
            Phase::Streaming { cursor: next, wait: StreamWait::Timer },
            Step {
                notice: Notice::Quiet,
                emit,
                action: Action::Sleep { seconds: STREAM_POLL_SECONDS },
            },
        ),
    }
}

/// One step of streaming the build's console text.
pub fn monitor_build(cursor: usize, wait: StreamWait, event: Event) -> (r: Option<(Phase, Step)>)
    ensures
        outcome(r) == streaming(cursor, wait, event@),
{
    match wait {
        StreamWait::Poll => match event {
            Event::Poll { info, console } => Some(poll(cursor, info.status(), console.as_str())),
            Event::RemoteFailure => Some(give_up()),
            _ => None,
        },
        StreamWait::Timer => match event {
            Event::TimerElapsed => Some(
                (
                    Phase::Streaming { cursor, wait: StreamWait::Poll },
                    tell(Notice::Quiet, Action::PollBuild),
                ),
            ),
            _ => None,
        },
    }
}

/// One step of waiting for the build to start.
pub fn await_start(baseline: Option<u64>, wait: StartWait, event: Event) -> (r: Option<
    (Phase, Step),
>)
    ensures
        outcome(r) == awaiting(baseline, wait, event@),
{
    match wait {
        StartWait::Timer => match event {
            Event::TimerElapsed => Some(
                (
                    Phase::AwaitingStart { baseline, wait: StartWait::JobDetail },
                    tell(Notice::Quiet, Action::FetchJobDetail),
                ),
            ),
            _ => None,
        },
        StartWait::JobDetail => match event {
            Event::JobDetail { last_build } => Some(observe(baseline, last_build)),
            Event::RemoteFailure => Some(give_up()),
            _ => None,
        },
        StartWait::BuildInfo { candidate } => match event {
            Event::BuildInfo { info } => Some(confirm(baseline, candidate, info.status())),
            Event::RemoteFailure => Some(give_up()),
            _ => None,
        },
    }
}

/// One step of the build path: trigger, wait for the start, stream.
pub fn trigger_and_monitor_build(phase: Phase, event: Event) -> (r: Option<(Phase, Step)>)
    ensures
        outcome(r) == build_path(phase, event@),
{
    match phase {
        Phase::Triggering => match event {
            Event::Triggered => Some(
                (
                    Phase::AwaitingStart { baseline: None, wait: StartWait::Timer },
                    tell(Notice::Triggered, Action::Sleep { seconds: SETTLE_SECONDS }),
                ),
            ),
            Event::RemoteFailure => Some(give_up()),
            _ => None,
        },
        Phase::AwaitingStart { baseline, wait } => await_start(baseline, wait, event),
        Phase::Streaming { cursor, wait } => monitor_build(cursor, wait, event),
        _ => None,
    }
}

/// One step of the cancel path.
pub fn jenkins_stop(wait: CancelWait, event: Event) -> (r: Option<(Phase, Step)>)
    ensures
        outcome(r) == cancel_path(wait, event@),
{
    match wait {
        CancelWait::JobDetail => match event {
            Event::JobDetail { last_build } => match last_build {
                Some(build) => Some(
                    (
                        Phase::Cancelling { wait: CancelWait::Stop { build } },
                        tell(Notice::Quiet, Action::StopBuild { build }),
                    ),
                ),
                None => Some((Phase::Cancelled, tell(Notice::NoBuildFound, Action::Finish))),
            },
            Event::RemoteFailure => Some(give_up()),
            _ => None,
        },
        CancelWait::Stop { build } => match event {
            Event::Stopped => Some((Phase::Cancelled, tell(Notice::Stopped, Action::Finish))),
            Event::RemoteFailure => Some(give_up()),
            _ => None,
        },
    }
}

/// The machine's step. `None` means that `phase` does not accept `event`:
/// the driver stays in `phase`.
pub fn step(phase: Phase, event: Event) -> (r: Option<(Phase, Step)>)
    ensures
        outcome(r) == transition(phase, event@),
        phase.wf() ==> (r matches Some((next, _)) ==> next.wf()),
{
    match event {
        Event::Interrupt => match phase {
            Phase::Triggering | Phase::AwaitingStart { .. } | Phase::Streaming { .. } => Some(
                (
                    Phase::Cancelling { wait: CancelWait::JobDetail },
                    tell(Notice::Quiet, Action::FetchJobDetail),
                ),
            ),
            _ => None,
        },
        _ => match phase {
            Phase::Cancelling { wait } => jenkins_stop(wait, event),
            _ => trigger_and_monitor_build(phase, event),
        },
    }
}

} // verus!
