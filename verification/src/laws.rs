//! What holds of every run of the orchestrator, proved from its step
//! relation.

use crate::config::ConfigView;
use crate::console::{advanced, fresh};
use crate::orchestrator::{
    cancel_path, confirmed, observed, opening, polled, run, say, transition, Action, CancelWait,
    EventView, NoticeView, Phase, StartWait, StepView, StreamWait, STREAM_POLL_SECONDS,
};
use crate::status::{label, status_of, BuildInfoView};
use vstd::prelude::*;

verus! {

/// The console text that a series of steps shows, in order.
pub open spec fn output(steps: Seq<StepView>) -> Seq<u8>
    decreases steps.len(),
{
    if steps.len() == 0 {
        Seq::empty()
    } else {
        steps[0].emit + output(steps.drop_first())
    }
}

/// Whether `event` is an outcome that the driver can report after it has
/// performed `action`.
pub open spec fn answers(action: Action, event: EventView) -> bool {
    match action {
        Action::TriggerBuild => event is Triggered || event is RemoteFailure,
        Action::Sleep { .. } => event is TimerElapsed,
        Action::FetchJobDetail => event is JobDetail || event is RemoteFailure,
        Action::FetchBuildInfo => event is BuildInfo || event is RemoteFailure,
        Action::PollBuild => event is Poll || event is RemoteFailure,
        Action::StopBuild { .. } => event is Stopped || event is RemoteFailure,
        Action::Finish => false,
    }
}

/// Driver and machine stay in step. Whatever outcome the driver reports of
/// the action that a step asked for, the phase that the step led to accepts
/// it; and a step asks to finish exactly when it has led to the end of the
/// run.
pub proof fn lemma_reply_is_accepted(phase: Phase, event: EventView, reply: EventView)
    requires
        transition(phase, event) is Some,
    ensures
        ({
            let (next, step) = transition(phase, event)->Some_0;
            &&& answers(step.action, reply) ==> transition(next, reply) is Some
            &&& step.action is Finish <==> next.terminal()
            &&& !(next is Idle)
        }),
{
}

/// The first step of a run is in step with the driver as well.
pub proof fn lemma_opening_reply_is_accepted(config: ConfigView, reply: EventView)
    ensures
        answers(opening(config).1.action, reply) ==> transition(opening(config).0, reply) is Some,
        opening(config).1.action is Finish <==> opening(config).0.terminal(),
        opening(config).1.action is Finish <==> !config.complete(),
{
}

/// With any credential missing the run ends before it starts: the first
/// step asks for nothing but to finish and advises to log in, and whatever
/// events follow, no further step is taken.
pub proof fn lemma_no_request_without_credentials(config: ConfigView, events: Seq<EventView>)
    requires
        !config.complete(),
    ensures
        opening(config) == (Phase::LoginRequired, say(NoticeView::LoginRequired, Action::Finish)),
        run(opening(config).0, events) == (Phase::LoginRequired, Seq::<StepView>::empty()),
{
    lemma_terminal_is_final(Phase::LoginRequired, events);
}

/// A run that has ended accepts no event.
pub proof fn lemma_terminal_is_final(phase: Phase, events: Seq<EventView>)
    requires
        phase.terminal(),
    ensures
        run(phase, events) == (phase, Seq::<StepView>::empty()),
    decreases events.len(),
{
    if events.len() > 0 {
        assert(transition(phase, events[0]) is None);
        lemma_terminal_is_final(phase, events.drop_first());
    }
}

/// A failed request ends the run at once, and nothing is tried again: the
/// failure is accepted exactly while a request is under way, and it leads
/// to the failed phase with nothing left to do.
pub proof fn lemma_failure_gives_up(phase: Phase)
    ensures
        transition(phase, EventView::RemoteFailure) == if phase.requesting() {
            Some((Phase::Failed, say(NoticeView::Failed, Action::Finish)))
        } else {
            None
        },
{
}

/// Every step keeps a candidate build newer than the baseline.
pub proof fn lemma_step_keeps_wf(phase: Phase, event: EventView)
    requires
        phase.wf(),
    ensures
        transition(phase, event) matches Some((next, _)) ==> next.wf(),
{
}

/// So does every run.
pub proof fn lemma_run_keeps_wf(phase: Phase, events: Seq<EventView>)
    requires
        phase.wf(),
    ensures
        run(phase, events).0.wf(),
    decreases events.len(),
{
    if events.len() > 0 {
        lemma_step_keeps_wf(phase, events[0]);
        match transition(phase, events[0]) {
            Some((next, _)) => lemma_run_keeps_wf(next, events.drop_first()),
            None => lemma_run_keeps_wf(phase, events.drop_first()),
        }
    }
}

/// The first build identifier that the job shows becomes the baseline and
/// starts nothing; once set, the baseline stays as it is until streaming
/// begins.
pub proof fn lemma_baseline(baseline: Option<u64>, seen: Option<u64>)
    ensures
        baseline is None && seen is Some ==> observed(baseline, seen).0 == (Phase::AwaitingStart {
            baseline: seen,
            wait: StartWait::Timer,
        }),
        baseline is Some ==> (observed(baseline, seen).0 matches Phase::AwaitingStart {
            baseline: kept,
            ..
        } && kept == baseline),
        observed(baseline, seen).0 is AwaitingStart,
{
}

/// Streaming begins in one way only: a build whose identifier exceeds the
/// baseline was seen, and its description reports that it runs. The step
/// announces that build, and the cursor starts at zero.
pub proof fn lemma_started_only_beyond_baseline(phase: Phase, event: EventView)
    requires
        phase.wf(),
        !(phase is Streaming),
        transition(phase, event) matches Some((next, _)) && next is Streaming,
    ensures
        ({
            &&& phase matches Phase::AwaitingStart {
                baseline: Some(b),
                wait: StartWait::BuildInfo { candidate },
            }
            &&& candidate > b
            &&& event matches EventView::BuildInfo { info }
            &&& info.building == Some(true)
            &&& transition(phase, event) == Some(
                (
                    Phase::Streaming { cursor: 0, wait: StreamWait::Poll },
                    say(NoticeView::Started { build: candidate }, Action::PollBuild),
                ),
            )
        }),
{
}

/// A build description without the `building` flag neither starts the
/// stream nor ends it.
pub proof fn lemma_absent_flag_changes_nothing(
    baseline: Option<u64>,
    candidate: u64,
    cursor: usize,
    info: BuildInfoView,
    console: Seq<u8>,
)
    requires
        info.building is None,
    ensures
        status_of(info) is Pending,
        confirmed(baseline, candidate, status_of(info)).0 is AwaitingStart,
        polled(cursor, status_of(info), console).0 == (Phase::Streaming {
            cursor: advanced(console, cursor),
            wait: StreamWait::Timer,
        }),
        polled(cursor, status_of(info), console).1.action == (Action::Sleep {
            seconds: STREAM_POLL_SECONDS,
        }),
{
}

/// The stream ends exactly when the server reports the build as not
/// running; the step then carries the server's outcome label, or `UNKNOWN`
/// where there is none, and what was left to show of the console text.
pub proof fn lemma_completion(cursor: usize, info: BuildInfoView, console: Seq<u8>)
    ensures
        polled(cursor, status_of(info), console).0 is Completed <==> info.building == Some(false),
        info.building == Some(false) ==> polled(cursor, status_of(info), console).1 == (StepView {
            notice: NoticeView::Completed { result: label(info.result) },
            emit: fresh(console, cursor),
            action: Action::Finish,
        }),
        polled(cursor, status_of(info), console).1.emit == fresh(console, cursor),
{
}

/// While a run streams, its cursor counts the bytes shown: it never moves
/// back, and it moves forward by exactly what the steps show.
pub proof fn lemma_cursor_counts_output(cursor: usize, wait: StreamWait, events: Seq<EventView>)
    ensures
        run(Phase::Streaming { cursor, wait }, events).0 matches Phase::Streaming { cursor: last, .. }
            ==> last == cursor + output(run(Phase::Streaming { cursor, wait }, events).1).len(),
    decreases events.len(),
{
    let phase = Phase::Streaming { cursor, wait };
    if events.len() > 0 {
        let rest = events.drop_first();
        match transition(phase, events[0]) {
            Some((next, step)) => {
                let (last, steps) = run(next, rest);
                assert((seq![step] + steps).drop_first() =~= steps);
                match next {
                    Phase::Streaming { cursor: c, wait: w } => {
                        lemma_cursor_counts_output(c, w, rest);
                        crate::console::lemma_cursor_monotone(
                            events[0]->Poll_console,
                            cursor,
                        );
                    },
                    Phase::Cancelling { .. } => {
                        lemma_cancel_is_final(next, rest);
                    },
                    _ => {
                        lemma_terminal_is_final(next, rest);
                    },
                }
            },
            None => {
                lemma_cursor_counts_output(cursor, wait, rest);
            },
        }
    }
}

/// The cancel path does not lead back: a run that cancels keeps cancelling
/// or has ended.
pub proof fn lemma_cancel_is_final(phase: Phase, events: Seq<EventView>)
    requires
        phase is Cancelling || phase.terminal(),
    ensures
        run(phase, events).0 is Cancelling || run(phase, events).0.terminal(),
    decreases events.len(),
{
    if events.len() > 0 {
        match transition(phase, events[0]) {
            Some((next, _)) => lemma_cancel_is_final(next, events.drop_first()),
            None => lemma_cancel_is_final(phase, events.drop_first()),
        }
    }
}

/// An interrupt while the build path is under way turns to the cancel
/// path: whatever the machine was waiting for, the next thing asked for is
/// the job description.
pub proof fn lemma_interrupt_turns_to_cancel(phase: Phase)
    requires
        phase.active(),
    ensures
        transition(phase, EventView::Interrupt) == Some(
            (
                Phase::Cancelling { wait: CancelWait::JobDetail },
                say(NoticeView::Quiet, Action::FetchJobDetail),
            ),
        ),
{
}

/// The cancel path decides by the job's latest build: a stop request for
/// exactly that build, or the notice that there is none and the end.
pub proof fn lemma_cancel_targets_latest_build(last_build: Option<u64>)
    ensures
        last_build matches Some(build) ==> cancel_path(
            CancelWait::JobDetail,
            EventView::JobDetail { last_build },
        ) == Some(
            (
                Phase::Cancelling { wait: CancelWait::Stop { build } },
                say(NoticeView::Quiet, Action::StopBuild { build }),
            ),
        ),
        last_build is None ==> cancel_path(
            CancelWait::JobDetail,
            EventView::JobDetail { last_build },
        ) == Some((Phase::Cancelled, say(NoticeView::NoBuildFound, Action::Finish))),
{
}

/// After an interrupt nothing is polled any more. Whatever events follow,
/// the run takes at most two further steps; the only action besides the
/// end of the run is one stop request, it comes first, and it names a build
/// that a job description among the events gave as the latest.
pub proof fn lemma_interrupt_stops_once(events: Seq<EventView>)
    ensures
        ({
            let steps = run(Phase::Cancelling { wait: CancelWait::JobDetail }, events).1;
            &&& steps.len() <= 2
            &&& forall|i: int|
                0 <= i < steps.len() ==> (#[trigger] steps[i]).action is StopBuild || steps[i].action
                    is Finish
            &&& forall|i: int| 0 <= i < steps.len() && (#[trigger] steps[i]).action is StopBuild ==> i == 0
            &&& forall|i: int| 0 <= i < steps.len() ==> (#[trigger] steps[i]).emit.len() == 0
            &&& steps.len() > 0 && steps[0].action is StopBuild ==> exists|k: int|
                0 <= k < events.len() && #[trigger] events[k] == (EventView::JobDetail {
                    last_build: Some(steps[0].action->build),
                })
        }),
    decreases events.len(),
{
    let phase = Phase::Cancelling { wait: CancelWait::JobDetail };
    if events.len() > 0 {
        let rest = events.drop_first();
        match transition(phase, events[0]) {
            Some((next, step)) => {
                let (last, tail) = run(next, rest);
                let steps = seq![step] + tail;
                assert(run(phase, events).1 == steps);
                match next {
                    Phase::Cancelling { wait: CancelWait::Stop { build } } => {
                        lemma_stopping(build, rest);
                        assert(events[0] == (EventView::JobDetail { last_build: Some(build) }));
                    },
                    _ => {
                        lemma_terminal_is_final(next, rest);
                    },
                }
                assert forall|i: int| 0 <= i < steps.len() implies (#[trigger] steps[i]).action
                    is StopBuild || steps[i].action is Finish by {
                    if i > 0 {
                        assert(steps[i] == tail[i - 1]);
                    }
                }
                assert forall|i: int| 0 <= i < steps.len() && (#[trigger] steps[i]).action
                    is StopBuild implies i == 0 by {
                    if i > 0 {
                        assert(steps[i] == tail[i - 1]);
                    }
                }
                assert forall|i: int| 0 <= i < steps.len() implies (#[trigger] steps[i]).emit.len()
                    == 0 by {
                    if i > 0 {
                        assert(steps[i] == tail[i - 1]);
                    }
                }
            },
            None => {
                lemma_interrupt_stops_once(rest);
                let steps = run(phase, rest).1;
                assert(run(phase, events).1 == steps);
                if steps.len() > 0 && steps[0].action is StopBuild {
                    let k = choose|k: int|
                        0 <= k < rest.len() && #[trigger] rest[k] == (EventView::JobDetail {
                            last_build: Some(steps[0].action->build),
                        });
                    assert(events[k + 1] == rest[k]);
                }
            },
        }
    }
}

/// With the stop request under way, at most one step remains, and it ends
/// the run.
pub proof fn lemma_stopping(build: u64, events: Seq<EventView>)
    ensures
        ({
            let steps = run(Phase::Cancelling { wait: CancelWait::Stop { build } }, events).1;
            &&& steps.len() <= 1
            &&& forall|i: int|
                0 <= i < steps.len() ==> (#[trigger] steps[i]).action is Finish && steps[i].emit.len()
                    == 0
        }),
    decreases events.len(),
{
    let phase = Phase::Cancelling { wait: CancelWait::Stop { build } };
    if events.len() > 0 {
        let rest = events.drop_first();
        match transition(phase, events[0]) {
            Some((next, step)) => {
                lemma_terminal_is_final(next, rest);
                assert(run(phase, events).1 =~= seq![step]);
            },
            None => {
                lemma_stopping(build, rest);
            },
        }
    }
}

/// The events that the cancel path passes over while it waits for the job
/// description.
pub open spec fn passed_over(events: Seq<EventView>) -> bool {
    forall|i: int|
        0 <= i < events.len() ==> !((#[trigger] events[i]) is JobDetail) && !(events[i]
            is RemoteFailure)
}

/// The cancel path from the interrupt to its end. Once the job description
/// arrives, with whatever came before it passed over: where it names a
/// latest build, the first step is the stop request for that build and at
/// most one step follows, which ends the run; where it names none, the one
/// step taken says so and ends the run.
pub proof fn lemma_cancel_run(before: Seq<EventView>, last_build: Option<u64>, after: Seq<EventView>)
    requires
        passed_over(before),
    ensures
        ({
            let events = before + seq![EventView::JobDetail { last_build }] + after;
            let steps = run(Phase::Cancelling { wait: CancelWait::JobDetail }, events).1;
            &&& last_build matches Some(build) ==> {
                &&& 1 <= steps.len() <= 2
                &&& steps[0] == say(NoticeView::Quiet, Action::StopBuild { build })
                &&& steps.len() == 2 ==> steps[1].action is Finish
            }
            &&& last_build is None ==> steps == seq![say(NoticeView::NoBuildFound, Action::Finish)]
        }),
    decreases before.len(),
{
    let phase = Phase::Cancelling { wait: CancelWait::JobDetail };
    let reply = EventView::JobDetail { last_build };
    let events = before + seq![reply] + after;
    if before.len() == 0 {
        assert(events[0] == reply);
        assert(events.drop_first() =~= after);
        match last_build {
            Some(build) => {
                lemma_stopping(build, after);
                let tail = run(Phase::Cancelling { wait: CancelWait::Stop { build } }, after).1;
                let steps = seq![say(NoticeView::Quiet, Action::StopBuild { build })] + tail;
                assert(run(phase, events).1 == steps);
                if steps.len() == 2 {
                    assert(steps[1] == tail[0]);
                }
            },
            None => {
                lemma_terminal_is_final(Phase::Cancelled, after);
                assert(run(phase, events).1 =~= seq![say(NoticeView::NoBuildFound, Action::Finish)]);
            },
        }
    } else {
        assert(events[0] == before[0]);
        assert(transition(phase, events[0]) is None);
        let rest = before.drop_first();
        assert(events.drop_first() =~= rest + seq![reply] + after);
        assert(passed_over(rest)) by {
            assert forall|i: int| 0 <= i < rest.len() implies !((#[trigger] rest[i]) is JobDetail)
                && !(rest[i] is RemoteFailure) by {
                assert(rest[i] == before[i + 1]);
            }
        }
        lemma_cancel_run(rest, last_build, after);
    }
}

/// The baseline of a phase, where it has one.
pub open spec fn baseline_of(phase: Phase) -> Option<u64> {
    match phase {
        Phase::AwaitingStart { baseline, .. } => baseline,
        _ => None,
    }
}

/// No build is announced as started before the baseline is exceeded: in a
/// run from any well-formed phase, a step that announces build `n` as
/// started comes after a step that announced a baseline below `n`, unless
/// the run set out with such a baseline.
pub proof fn lemma_start_follows_baseline(phase: Phase, events: Seq<EventView>, i: int)
    requires
        phase.wf(),
        0 <= i < run(phase, events).1.len(),
        run(phase, events).1[i].notice is Started,
    ensures
        ({
            let steps = run(phase, events).1;
            let n = steps[i].notice->Started_build;
            ||| baseline_of(phase) matches Some(b) && b < n
            ||| exists|j: int|
                0 <= j < i && (#[trigger] steps[j]).notice is Baseline && steps[j].notice->Baseline_build
                    < n
        }),
    decreases events.len(),
{
    if events.len() == 0 {
    } else {
        let rest = events.drop_first();
        match transition(phase, events[0]) {
            Some((next, step)) => {
                let tail = run(next, rest).1;
                let steps = seq![step] + tail;
                assert(run(phase, events).1 == steps);
                lemma_step_keeps_wf(phase, events[0]);
                if i == 0 {
                } else {
                    assert(steps[i] == tail[i - 1]);
                    lemma_start_follows_baseline(next, rest, i - 1);
                    let n = steps[i].notice->Started_build;
                    if baseline_of(next) matches Some(b) && b < n {
                        if baseline_of(phase) == baseline_of(next) {
                        } else {
                            assert(steps[0].notice is Baseline && steps[0].notice->Baseline_build < n);
                        }
                    } else {
                        let j = choose|j: int|
                            0 <= j < i - 1 && (#[trigger] tail[j]).notice is Baseline
                                && tail[j].notice->Baseline_build < n;
                        assert(steps[j + 1] == tail[j]);
                    }
                }
            },
            None => {
                lemma_start_follows_baseline(phase, rest, i);
            },
        }
    }
}

/// A run from the trigger announces a build as started only after it has
/// announced a baseline below that build.
pub proof fn lemma_start_exceeds_announced_baseline(events: Seq<EventView>, i: int)
    requires
        0 <= i < run(Phase::Triggering, events).1.len(),
        run(Phase::Triggering, events).1[i].notice is Started,
    ensures
        exists|j: int|
            0 <= j < i && (#[trigger] run(Phase::Triggering, events).1[j]).notice is Baseline && run(
                Phase::Triggering,
                events,
            ).1[j].notice->Baseline_build < run(Phase::Triggering, events).1[i].notice->Started_build,
{
    lemma_start_follows_baseline(Phase::Triggering, events, i);
}

/// A run that ends as completed has said so: its last step reports the
/// build's outcome and ends the run.
pub proof fn lemma_completed_run_reports(phase: Phase, events: Seq<EventView>)
    requires
        !(phase is Completed),
        run(phase, events).0 is Completed,
    ensures
        run(phase, events).1.len() > 0,
        run(phase, events).1.last().notice is Completed,
        run(phase, events).1.last().action is Finish,
    decreases events.len(),
{
    if events.len() > 0 {
        let rest = events.drop_first();
        match transition(phase, events[0]) {
            Some((next, step)) => {
                let tail = run(next, rest).1;
                assert(run(phase, events).1 == seq![step] + tail);
                if next is Completed {
                    lemma_terminal_is_final(next, rest);
                    assert(seq![step] + tail =~= seq![step]);
                } else {
                    lemma_completed_run_reports(next, rest);
                    assert((seq![step] + tail).last() == tail.last());
                }
            },
            None => {
                lemma_completed_run_reports(phase, rest);
            },
        }
    }
}

/// The console texts that a run takes in: those of the polls that arrive
/// while the stream waits for one.
pub open spec fn heard(phase: Phase, events: Seq<EventView>) -> Seq<Seq<u8>>
    decreases events.len(),
{
    if events.len() == 0 {
        Seq::empty()
    } else {
        match transition(phase, events[0]) {
            Some((next, _)) => {
                let first = if phase is Streaming && events[0] is Poll {
                    seq![events[0]->Poll_console]
                } else {
                    Seq::empty()
                };
                first + heard(next, events.drop_first())
            },
            None => heard(phase, events.drop_first()),
        }
    }
}

/// Steps that show nothing add up to nothing.
pub proof fn lemma_silent_steps(steps: Seq<StepView>)
    requires
        forall|i: int| 0 <= i < steps.len() ==> (#[trigger] steps[i]).emit.len() == 0,
    ensures
        output(steps) == Seq::<u8>::empty(),
    decreases steps.len(),
{
    if steps.len() > 0 {
        let rest = steps.drop_first();
        assert forall|i: int| 0 <= i < rest.len() implies (#[trigger] rest[i]).emit.len() == 0 by {
            assert(rest[i] == steps[i + 1]);
        }
        lemma_silent_steps(rest);
        assert(steps[0].emit =~= Seq::<u8>::empty());
    }
}

/// Off the stream nothing is heard and nothing is shown.
pub proof fn lemma_quiet_off_stream(phase: Phase, events: Seq<EventView>)
    requires
        phase is Cancelling || phase.terminal(),
    ensures
        heard(phase, events) == Seq::<Seq<u8>>::empty(),
        output(run(phase, events).1) == Seq::<u8>::empty(),
    decreases events.len(),
{
    if events.len() > 0 {
        let rest = events.drop_first();
        match transition(phase, events[0]) {
            Some((next, step)) => {
                lemma_quiet_off_stream(next, rest);
                let tail = run(next, rest).1;
                assert((seq![step] + tail).drop_first() =~= tail);
                assert(step.emit =~= Seq::<u8>::empty());
                assert(heard(phase, events) =~= heard(next, rest));
            },
            None => {
                lemma_quiet_off_stream(phase, rest);
            },
        }
    }
}

/// The stream shows the console text once and in order. Let `before` be
/// what has been shown, with the cursor at its end. Where each text that
/// the run takes in continues what came before it, what has been shown
/// and what the run shows make up the last text taken in; and where the
/// run takes in no text, it shows nothing.
pub proof fn lemma_stream_shows_console_once(
    before: Seq<u8>,
    wait: StreamWait,
    events: Seq<EventView>,
)
    requires
        before.len() <= usize::MAX,
        crate::console::growing(
            heard(Phase::Streaming { cursor: before.len() as usize, wait }, events),
        ),
        heard(Phase::Streaming { cursor: before.len() as usize, wait }, events).len() > 0
            ==> before.is_prefix_of(
            heard(Phase::Streaming { cursor: before.len() as usize, wait }, events)[0],
        ),
    ensures
        ({
            let phase = Phase::Streaming { cursor: before.len() as usize, wait };
            let texts = heard(phase, events);
            let shown = output(run(phase, events).1);
            &&& texts.len() > 0 ==> before + shown == texts.last()
            &&& texts.len() == 0 ==> shown == Seq::<u8>::empty()
        }),
    decreases events.len(),
{
    let cursor = before.len() as usize;
    let phase = Phase::Streaming { cursor, wait };
    if events.len() > 0 {
        let rest = events.drop_first();
        match transition(phase, events[0]) {
            Some((next, step)) => {
                let tail = run(next, rest).1;
                let steps = seq![step] + tail;
                assert(run(phase, events).1 == steps);
                assert(steps.drop_first() =~= tail);
                assert(output(steps) == step.emit + output(tail));
                let later = heard(next, rest);
                if events[0] is Poll {
                    let console = events[0]->Poll_console;
                    let texts = seq![console] + later;
                    assert(heard(phase, events) == texts);
                    assert(texts[0] == console);
                    assert(before + step.emit =~= console) by {
                        assert(step.emit == fresh(console, cursor));
                    }
                    match next {
                        Phase::Streaming { cursor: c, wait: w } => {
                            assert(c == console.len());
                            assert(crate::console::growing(later)) by {
                                assert forall|i: int| 0 <= i < later.len() implies (
                                #[trigger] later[i]).len() <= usize::MAX by {
                                    assert(later[i] == texts[i + 1]);
                                }
                                assert forall|i: int, j: int|
                                    0 <= i <= j < later.len() implies (#[trigger] later[i]).is_prefix_of(
                                    #[trigger] later[j],
                                ) by {
                                    assert(later[i] == texts[i + 1]);
                                    assert(later[j] == texts[j + 1]);
                                }
                            }
                            if later.len() > 0 {
                                assert(later[0] == texts[1]);
                                assert(texts[0].is_prefix_of(texts[1]));
                                assert(texts.last() == later.last());
                            } else {
                                assert(texts =~= seq![console]);
                            }
                            lemma_stream_shows_console_once(console, w, rest);
                            assert(before + output(steps) =~= (before + step.emit) + output(tail));
                        },
                        _ => {
                            lemma_quiet_off_stream(next, rest);
                            assert(texts =~= seq![console]);
                            assert(before + output(steps) =~= before + step.emit);
                        },
                    }
                } else {
                    assert(heard(phase, events) =~= later);
                    assert(step.emit =~= Seq::<u8>::empty());
                    assert(output(steps) =~= output(tail));
                    match next {
                        Phase::Streaming { cursor: c, wait: w } => {
                            lemma_stream_shows_console_once(before, w, rest);
                        },
                        _ => {
                            lemma_quiet_off_stream(next, rest);
                        },
                    }
                }
            },
            None => {
                lemma_stream_shows_console_once(before, wait, rest);
            },
        }
    }
}

} // verus!
