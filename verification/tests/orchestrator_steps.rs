use hss_cli::config::read_config;
use hss_cli::orchestrator::{
    begin, confirm, jenkins_stop, monitor_build, observe, poll, step, trigger_and_monitor_build,
    Action, CancelWait, Event, Notice, Phase, StartWait, Step, StreamWait, SETTLE_SECONDS,
    START_POLL_SECONDS, STREAM_POLL_SECONDS,
};
use hss_cli::status::{BuildInfo, BuildStatus};

fn info(building: Option<bool>, result: Option<&str>) -> BuildInfo {
    BuildInfo { building, result: result.map(|s| s.to_string()) }
}

fn quiet(action: Action) -> Step {
    Step { notice: Notice::Quiet, emit: vec![], action }
}

fn say(notice: Notice, action: Action) -> Step {
    Step { notice, emit: vec![], action }
}

fn polling(text: &str, building: Option<bool>, result: Option<&str>) -> Event {
    Event::Poll { info: info(building, result), console: text.to_string() }
}

#[test]
fn pauses_are_five_five_and_two_seconds() {
    assert_eq!((SETTLE_SECONDS, START_POLL_SECONDS, STREAM_POLL_SECONDS), (5, 5, 2));
}

#[test]
fn begin_with_complete_credentials_triggers() {
    let cfg = read_config("jenkins_url=h\nuser=u\ntoken=t\n");
    assert_eq!(begin(&cfg), (Phase::Triggering, say(Notice::Triggering, Action::TriggerBuild)));
}

#[test]
fn begin_without_any_one_credential_asks_for_login_and_requests_nothing() {
    for text in ["", "user=u\ntoken=t\n", "jenkins_url=h\ntoken=t\n", "jenkins_url=h\nuser=u\n"] {
        let (phase, first) = begin(&read_config(text));
        assert_eq!(phase, Phase::LoginRequired);
        assert_eq!(first, say(Notice::LoginRequired, Action::Finish));
        for event in [
            Event::Triggered,
            Event::TimerElapsed,
            Event::JobDetail { last_build: Some(1) },
            Event::Stopped,
            Event::RemoteFailure,
            Event::Interrupt,
            polling("x", Some(false), None),
        ] {
            assert_eq!(step(phase, event), None);
        }
    }
}

#[test]
fn trigger_success_starts_the_grace_pause() {
    assert_eq!(
        step(Phase::Triggering, Event::Triggered),
        Some((
            Phase::AwaitingStart { baseline: None, wait: StartWait::Timer },
            say(Notice::Triggered, Action::Sleep { seconds: 5 }),
        ))
    );
}

#[test]
fn trigger_failure_gives_up_without_retry() {
    let (phase, s) = step(Phase::Triggering, Event::RemoteFailure).unwrap();
    assert_eq!((phase, s.clone()), (Phase::Failed, say(Notice::Failed, Action::Finish)));
    assert_eq!(step(phase, Event::Triggered), None);
    assert_eq!(step(phase, Event::TimerElapsed), None);
    assert_eq!(step(phase, Event::Interrupt), None);
}

#[test]
fn after_a_pause_the_job_is_looked_at() {
    assert_eq!(
        step(Phase::AwaitingStart { baseline: Some(3), wait: StartWait::Timer }, Event::TimerElapsed),
        Some((
            Phase::AwaitingStart { baseline: Some(3), wait: StartWait::JobDetail },
            quiet(Action::FetchJobDetail),
        ))
    );
}

#[test]
fn first_identifier_becomes_the_baseline_and_starts_nothing() {
    assert_eq!(
        observe(None, Some(17)),
        (
            Phase::AwaitingStart { baseline: Some(17), wait: StartWait::Timer },
            say(Notice::Baseline { build: 17 }, Action::Sleep { seconds: 5 }),
        )
    );
}

#[test]
fn no_identifier_or_an_old_one_means_waiting_on() {
    let waiting = |baseline| {
        (
            Phase::AwaitingStart { baseline, wait: StartWait::Timer },
            say(Notice::Waiting, Action::Sleep { seconds: 5 }),
        )
    };
    assert_eq!(observe(None, None), waiting(None));
    assert_eq!(observe(Some(17), None), waiting(Some(17)));
    assert_eq!(observe(Some(17), Some(17)), waiting(Some(17)));
    assert_eq!(observe(Some(17), Some(4)), waiting(Some(17)));
    assert_eq!(observe(Some(u64::MAX), Some(u64::MAX)), waiting(Some(u64::MAX)));
}

#[test]
fn a_greater_identifier_is_checked_before_it_counts() {
    assert_eq!(
        observe(Some(17), Some(18)),
        (
            Phase::AwaitingStart { baseline: Some(17), wait: StartWait::BuildInfo { candidate: 18 } },
            quiet(Action::FetchBuildInfo),
        )
    );
    assert_eq!(
        observe(Some(0), Some(u64::MAX)),
        (
            Phase::AwaitingStart {
                baseline: Some(0),
                wait: StartWait::BuildInfo { candidate: u64::MAX },
            },
            quiet(Action::FetchBuildInfo),
        )
    );
}

#[test]
fn only_a_running_candidate_has_started() {
    assert_eq!(
        confirm(Some(17), 18, BuildStatus::Running),
        (
            Phase::Streaming { cursor: 0, wait: StreamWait::Poll },
            say(Notice::Started { build: 18 }, Action::PollBuild),
        )
    );
    for status in [BuildStatus::Pending, BuildStatus::Completed { outcome: "SUCCESS".to_string() }] {
        assert_eq!(
            confirm(Some(17), 18, status),
            (
                Phase::AwaitingStart { baseline: Some(17), wait: StartWait::Timer },
                say(Notice::Waiting, Action::Sleep { seconds: 5 }),
            )
        );
    }
}

#[test]
fn baseline_is_kept_when_a_candidate_does_not_run() {
    let phase = Phase::AwaitingStart { baseline: Some(5), wait: StartWait::BuildInfo { candidate: 9 } };
    let (next, _) = step(phase, Event::BuildInfo { info: info(Some(false), Some("SUCCESS")) }).unwrap();
    assert_eq!(next, Phase::AwaitingStart { baseline: Some(5), wait: StartWait::Timer });
}

#[test]
fn console_a_then_abc_shows_a_once_and_bc_once() {
    let (phase, first) = poll(0, info(Some(true), None).status(), "A");
    assert_eq!(first.emit, b"A".to_vec());
    assert_eq!(phase, Phase::Streaming { cursor: 1, wait: StreamWait::Timer });
    let (phase, s) = step(phase, Event::TimerElapsed).unwrap();
    assert_eq!(s, quiet(Action::PollBuild));
    let (phase, second) = step(phase, polling("ABC", Some(true), None)).unwrap();
    assert_eq!(second.emit, b"BC".to_vec());
    assert_eq!(phase, Phase::Streaming { cursor: 3, wait: StreamWait::Timer });
    assert_eq!(second.action, Action::Sleep { seconds: 2 });
}

#[test]
fn unchanged_or_shorter_console_shows_nothing_and_keeps_the_cursor() {
    for text in ["ABC", "AB", ""] {
        let (phase, s) = poll(3, info(Some(true), None).status(), text);
        assert_eq!(s.emit, Vec::<u8>::new());
        assert_eq!(phase, Phase::Streaming { cursor: 3, wait: StreamWait::Timer });
    }
}

#[test]
fn cursor_counts_bytes_not_characters() {
    let (phase, s) = poll(0, info(None, None).status(), "é");
    assert_eq!(s.emit, vec![0xC3, 0xA9]);
    assert_eq!(phase, Phase::Streaming { cursor: 2, wait: StreamWait::Timer });
    let (_, s) = poll(2, info(None, None).status(), "éß!");
    assert_eq!(s.emit, vec![0xC3, 0x9F, b'!']);
}

#[test]
fn text_that_does_not_continue_the_earlier_one_is_shown_from_the_cursor_on() {
    let (phase, s) = poll(2, info(Some(true), None).status(), "aéx");
    assert_eq!(s.emit, vec![0xA9, b'x']);
    assert_eq!(phase, Phase::Streaming { cursor: 4, wait: StreamWait::Timer });
}

#[test]
fn absent_building_flag_does_not_complete_the_build() {
    let (phase, s) = step(
        Phase::Streaming { cursor: 0, wait: StreamWait::Poll },
        polling("log", None, Some("SUCCESS")),
    )
    .unwrap();
    assert_eq!(phase, Phase::Streaming { cursor: 3, wait: StreamWait::Timer });
    assert_eq!(s, Step { notice: Notice::Quiet, emit: b"log".to_vec(), action: Action::Sleep { seconds: 2 } });
}

#[test]
fn finished_build_reports_the_label_verbatim() {
    for label in ["SUCCESS", "FAILURE", "ABORTED", "something else"] {
        let (phase, s) = poll(1, info(Some(false), Some(label)).status(), "xyz");
        assert_eq!(phase, Phase::Completed);
        assert_eq!(
            s,
            Step {
                notice: Notice::Completed { result: label.to_string() },
                emit: b"yz".to_vec(),
                action: Action::Finish,
            }
        );
    }
}

#[test]
fn finished_build_without_label_reports_unknown() {
    let (phase, s) = poll(0, info(Some(false), None).status(), "");
    assert_eq!(phase, Phase::Completed);
    assert_eq!(s, say(Notice::Completed { result: "UNKNOWN".to_string() }, Action::Finish));
}

#[test]
fn completed_run_accepts_nothing() {
    for event in [Event::TimerElapsed, Event::Interrupt, Event::RemoteFailure, polling("", None, None)] {
        assert_eq!(step(Phase::Completed, event), None);
    }
}

#[test]
fn request_failures_give_up_wherever_a_request_is_under_way() {
    let failed = Some((Phase::Failed, say(Notice::Failed, Action::Finish)));
    for phase in [
        Phase::Triggering,
        Phase::AwaitingStart { baseline: None, wait: StartWait::JobDetail },
        Phase::AwaitingStart { baseline: Some(1), wait: StartWait::BuildInfo { candidate: 2 } },
        Phase::Streaming { cursor: 9, wait: StreamWait::Poll },
        Phase::Cancelling { wait: CancelWait::JobDetail },
        Phase::Cancelling { wait: CancelWait::Stop { build: 2 } },
    ] {
        assert_eq!(step(phase, Event::RemoteFailure), failed);
    }
    for phase in [
        Phase::Idle,
        Phase::AwaitingStart { baseline: None, wait: StartWait::Timer },
        Phase::Streaming { cursor: 9, wait: StreamWait::Timer },
        Phase::Completed,
        Phase::Cancelled,
        Phase::Failed,
        Phase::LoginRequired,
    ] {
        assert_eq!(step(phase, Event::RemoteFailure), None);
    }
}

#[test]
fn events_that_a_phase_does_not_wait_for_are_rejected() {
    assert_eq!(step(Phase::Triggering, Event::TimerElapsed), None);
    assert_eq!(step(Phase::Idle, Event::Triggered), None);
    assert_eq!(step(Phase::Idle, Event::Interrupt), None);
    let w = Phase::AwaitingStart { baseline: Some(1), wait: StartWait::Timer };
    assert_eq!(step(w, Event::JobDetail { last_build: Some(2) }), None);
    let j = Phase::AwaitingStart { baseline: Some(1), wait: StartWait::JobDetail };
    assert_eq!(step(j, Event::TimerElapsed), None);
    assert_eq!(step(j, Event::BuildInfo { info: info(Some(true), None) }), None);
    let s = Phase::Streaming { cursor: 0, wait: StreamWait::Timer };
    assert_eq!(step(s, polling("x", Some(false), None)), None);
    assert_eq!(step(Phase::Streaming { cursor: 0, wait: StreamWait::Poll }, Event::TimerElapsed), None);
    assert_eq!(step(Phase::Cancelling { wait: CancelWait::JobDetail }, Event::Stopped), None);
    assert_eq!(
        step(Phase::Cancelling { wait: CancelWait::Stop { build: 1 } }, Event::JobDetail { last_build: Some(1) }),
        None
    );
}

#[test]
fn interrupt_turns_every_active_phase_to_the_cancel_path() {
    for phase in [
        Phase::Triggering,
        Phase::AwaitingStart { baseline: None, wait: StartWait::Timer },
        Phase::AwaitingStart { baseline: Some(4), wait: StartWait::JobDetail },
        Phase::AwaitingStart { baseline: Some(4), wait: StartWait::BuildInfo { candidate: 5 } },
        Phase::Streaming { cursor: 7, wait: StreamWait::Poll },
        Phase::Streaming { cursor: 7, wait: StreamWait::Timer },
    ] {
        assert_eq!(
            step(phase, Event::Interrupt),
            Some((Phase::Cancelling { wait: CancelWait::JobDetail }, quiet(Action::FetchJobDetail)))
        );
    }
}

#[test]
fn interrupt_while_awaiting_start_sends_exactly_one_stop_for_the_latest_build() {
    let mut phase = Phase::AwaitingStart { baseline: Some(41), wait: StartWait::Timer };
    let mut actions = Vec::new();
    let events = vec![
        Event::Interrupt,
        Event::TimerElapsed,
        Event::JobDetail { last_build: Some(42) },
        Event::TimerElapsed,
        Event::JobDetail { last_build: Some(43) },
        polling("late", Some(true), None),
        Event::Stopped,
        Event::Stopped,
        Event::Interrupt,
    ];
    for event in events {
        if let Some((next, s)) = step(phase, event) {
            phase = next;
            assert!(s.emit.is_empty());
            actions.push(s.action);
        }
    }
    assert_eq!(actions, vec![Action::FetchJobDetail, Action::StopBuild { build: 42 }, Action::Finish]);
    assert_eq!(phase, Phase::Cancelled);
}

#[test]
fn interrupt_with_no_build_reports_not_found_and_stops_nothing() {
    let (phase, _) = step(Phase::Triggering, Event::Interrupt).unwrap();
    let (phase, s) = step(phase, Event::JobDetail { last_build: None }).unwrap();
    assert_eq!(phase, Phase::Cancelled);
    assert_eq!(s, say(Notice::NoBuildFound, Action::Finish));
    assert_eq!(step(phase, Event::Stopped), None);
    assert_eq!(step(phase, Event::JobDetail { last_build: Some(1) }), None);
}

#[test]
fn stop_success_ends_the_cancel_path() {
    assert_eq!(
        jenkins_stop(CancelWait::Stop { build: 8 }, Event::Stopped),
        Some((Phase::Cancelled, say(Notice::Stopped, Action::Finish)))
    );
    assert_eq!(
        jenkins_stop(CancelWait::JobDetail, Event::JobDetail { last_build: Some(8) }),
        Some((Phase::Cancelling { wait: CancelWait::Stop { build: 8 } }, quiet(Action::StopBuild { build: 8 })))
    );
}

#[test]
fn path_functions_agree_with_step() {
    let p = Phase::Streaming { cursor: 1, wait: StreamWait::Poll };
    assert_eq!(
        trigger_and_monitor_build(p, polling("abc", None, None)),
        step(p, polling("abc", None, None))
    );
    assert_eq!(
        monitor_build(1, StreamWait::Poll, polling("abc", None, None)),
        step(p, polling("abc", None, None))
    );
    assert_eq!(trigger_and_monitor_build(Phase::Cancelling { wait: CancelWait::JobDetail }, Event::Stopped), None);
    assert_eq!(trigger_and_monitor_build(Phase::Triggering, Event::Interrupt), None);
}

/// A server whose latest build number only grows and whose new build
/// reports `building` once before it is done.
struct Server {
    polls: u32,
}

impl Server {
    fn last_build(&self) -> Option<u64> {
        if self.polls < 2 { Some(7) } else { Some(8) }
    }

    fn answer(&mut self, action: Action) -> Option<Event> {
        match action {
            Action::TriggerBuild => Some(Event::Triggered),
            Action::Sleep { .. } => Some(Event::TimerElapsed),
            Action::FetchJobDetail => {
                let e = Event::JobDetail { last_build: self.last_build() };
                self.polls += 1;
                Some(e)
            }
            Action::FetchBuildInfo => Some(Event::BuildInfo { info: info(Some(true), None) }),
            Action::PollBuild => {
                self.polls += 1;
                if self.polls < 6 {
                    Some(polling("Started\n", Some(true), None))
                } else {
                    Some(polling("Started\nDone\n", Some(false), Some("SUCCESS")))
                }
            }
            Action::StopBuild { .. } => Some(Event::Stopped),
            Action::Finish => None,
        }
    }
}

#[test]
fn simulated_server_run_starts_after_the_baseline_and_ends_with_the_label() {
    let mut server = Server { polls: 0 };
    let (mut phase, mut current) = begin(&read_config("jenkins_url=h\nuser=u\ntoken=t\n"));
    let mut shown = Vec::new();
    let mut notices = Vec::new();
    let mut actions = Vec::new();
    loop {
        shown.extend_from_slice(&current.emit);
        notices.push(current.notice.clone());
        actions.push(current.action);
        let Some(event) = server.answer(current.action) else { break };
        let (next, s) = step(phase, event).unwrap();
        phase = next;
        current = s;
    }
    assert_eq!(phase, Phase::Completed);
    assert_eq!(shown, b"Started\nDone\n".to_vec());
    let important: Vec<Notice> = notices.into_iter().filter(|n| *n != Notice::Quiet).collect();
    assert_eq!(
        important,
        vec![
            Notice::Triggering,
            Notice::Triggered,
            Notice::Baseline { build: 7 },
            Notice::Waiting,
            Notice::Started { build: 8 },
            Notice::Completed { result: "SUCCESS".to_string() },
        ]
    );
    assert_eq!(
        actions,
        vec![
            Action::TriggerBuild,
            Action::Sleep { seconds: 5 },
            Action::FetchJobDetail,
            Action::Sleep { seconds: 5 },
            Action::FetchJobDetail,
            Action::Sleep { seconds: 5 },
            Action::FetchJobDetail,
            Action::FetchBuildInfo,
            Action::PollBuild,
            Action::Sleep { seconds: 2 },
            Action::PollBuild,
            Action::Sleep { seconds: 2 },
            Action::PollBuild,
            Action::Finish,
        ]
    );
}
