use macos_task_cleaner_core::app::AppTarget;
use macos_task_cleaner_core::signal::{
    EngineAction, EngineEvent, Signal, SignalOutcome, Stage, TerminationReport,
    TerminationStatusCode, TieredTermination,
};

fn target(pid: i32, name: &str, bundle_id: &str) -> AppTarget {
    AppTarget { pid, name: name.to_string(), bundle_id: bundle_id.to_string() }
}

/// Runs the engine against a scripted list of answers, checking each action.
fn run(engine: &mut TieredTermination, script: Vec<(EngineAction, Option<EngineEvent>)>) {
    let mut action = engine.start();
    for (expected, answer) in script {
        assert_eq!(action, expected);
        match answer {
            Some(ev) => {
                assert!(engine.accepts(&ev));
                action = engine.step(ev);
            }
            None => return,
        }
    }
}

#[test]
fn graceful_run_with_exit_inside_grace_period() {
    let targets = vec![
        target(10, "Mine", "com.me"),
        target(11, "Dock", "com.apple.dock"),
        target(12, "Safari", "com.apple.Safari"),
    ];
    let mut engine = TieredTermination::new(&targets, 400, false, 10, 1);
    run(
        &mut engine,
        vec![
            (EngineAction::Send(12, Signal::Term), Some(EngineEvent::Sent(SignalOutcome::Delivered))),
            (EngineAction::StartTimer, Some(EngineEvent::Done)),
            (EngineAction::ReadTimer, Some(EngineEvent::Elapsed(0))),
            (EngineAction::Sleep(25), Some(EngineEvent::Done)),
            (EngineAction::ProbeAlive(12), Some(EngineEvent::Alive(false))),
            (EngineAction::Finish, None),
        ],
    );
    assert_eq!(engine.stage(), Stage::Finished);
    let report = engine.into_report();
    assert_eq!(report.total_targets, 3);
    assert_eq!(report.terminated_sigterm, 1);
    assert_eq!(report.terminated_sigkill, 0);
    assert_eq!(report.failed, 2);
    assert_eq!(report.records.len(), 3);
    assert_eq!(report.records[0].app.pid, 10);
    assert_eq!(report.records[0].status, "保护调用者会话，跳过终止");
    assert_eq!(report.records[0].error_msg.as_deref(), Some("当前执行会话或父进程处于受保护状态"));
    assert_eq!(report.records[1].status, "系统底层守护进程受常驻保护，已跳过终止");
    assert_eq!(report.records[1].exit_signal, None);
    assert_eq!(report.records[2].status, "终止成功");
    assert_eq!(report.records[2].exit_signal.as_deref(), Some("SIGTERM"));
}

#[test]
fn stubborn_target_is_killed_after_grace_period() {
    let targets = vec![target(20, "Hung", "com.hung"), target(21, "Busy", "com.busy")];
    let mut engine = TieredTermination::new(&targets, 400, false, 1, 2);
    run(
        &mut engine,
        vec![
            (EngineAction::Send(20, Signal::Term), Some(EngineEvent::Sent(SignalOutcome::Delivered))),
            (
                EngineAction::Send(21, Signal::Term),
                Some(EngineEvent::Sent(SignalOutcome::PermissionDenied("denied".to_string()))),
            ),
            (EngineAction::StartTimer, Some(EngineEvent::Done)),
            (EngineAction::ReadTimer, Some(EngineEvent::Elapsed(100))),
            (EngineAction::Sleep(25), Some(EngineEvent::Done)),
            (EngineAction::ProbeAlive(20), Some(EngineEvent::Alive(true))),
            (EngineAction::ReadTimer, Some(EngineEvent::Elapsed(400))),
            (EngineAction::Send(20, Signal::Kill), Some(EngineEvent::Sent(SignalOutcome::Delivered))),
            (EngineAction::Finish, None),
        ],
    );
    let report = engine.into_report();
    assert_eq!((report.terminated_sigterm, report.terminated_sigkill, report.failed), (0, 1, 1));
    assert_eq!(report.records[0].app.pid, 21);
    assert_eq!(report.records[0].status, "权限拒绝");
    assert_eq!(report.records[0].error_msg.as_deref(), Some("denied"));
    assert_eq!(report.records[1].status, "强制终止成功 (SIGKILL)");
}

#[test]
fn vanished_target_counts_as_terminated_and_failed_kill_is_reported() {
    let targets = vec![target(30, "Gone", "com.gone"), target(31, "Stuck", "com.stuck")];
    let mut engine = TieredTermination::new(&targets, 0, false, 1, 2);
    run(
        &mut engine,
        vec![
            (
                EngineAction::Send(30, Signal::Term),
                Some(EngineEvent::Sent(SignalOutcome::Failed("no such process".to_string()))),
            ),
            (EngineAction::Send(31, Signal::Term), Some(EngineEvent::Sent(SignalOutcome::Delivered))),
            (EngineAction::StartTimer, Some(EngineEvent::Done)),
            (EngineAction::ReadTimer, Some(EngineEvent::Elapsed(0))),
            (
                EngineAction::Send(31, Signal::Kill),
                Some(EngineEvent::Sent(SignalOutcome::Failed("oops".to_string()))),
            ),
            (EngineAction::Finish, None),
        ],
    );
    let report = engine.into_report();
    assert_eq!((report.terminated_sigterm, report.terminated_sigkill, report.failed), (1, 0, 1));
    assert_eq!(report.records[0].exit_signal.as_deref(), Some("SIGTERM"));
    assert_eq!(report.records[0].error_msg, None);
    assert_eq!(report.records[1].status, "强制终止失败 (SIGKILL)");
    assert_eq!(report.records[1].error_msg.as_deref(), Some("oops"));
}

#[test]
fn finder_is_asked_to_quit_in_graceful_mode() {
    let targets = vec![target(40, "Finder", "com.apple.finder")];
    let mut engine = TieredTermination::new(&targets, 400, false, 1, 2);
    run(
        &mut engine,
        vec![
            (EngineAction::RequestQuit(40), Some(EngineEvent::QuitRequested(true))),
            (EngineAction::StartTimer, Some(EngineEvent::Done)),
            (EngineAction::ReadTimer, Some(EngineEvent::Elapsed(30))),
            (EngineAction::Sleep(25), Some(EngineEvent::Done)),
            (EngineAction::ProbeAlive(40), Some(EngineEvent::Alive(false))),
            (EngineAction::Finish, None),
        ],
    );
    let report = engine.into_report();
    assert_eq!(report.terminated_sigterm, 1);
    assert_eq!(report.records[0].exit_signal.as_deref(), Some("NSApplicationTerminate"));
}

#[test]
fn finder_refusing_to_quit_gets_sigterm_or_fails() {
    let targets = vec![target(41, "访达", "com.apple.finder"), target(42, "Finder", "")];
    let mut engine = TieredTermination::new(&targets, 400, false, 1, 2);
    run(
        &mut engine,
        vec![
            (EngineAction::RequestQuit(41), Some(EngineEvent::QuitRequested(false))),
            (EngineAction::ProbeAlive(41), Some(EngineEvent::Alive(true))),
            (
                EngineAction::Send(41, Signal::Term),
                Some(EngineEvent::Sent(SignalOutcome::Failed("bad".to_string()))),
            ),
            (EngineAction::RequestQuit(42), Some(EngineEvent::QuitRequested(false))),
            (EngineAction::ProbeAlive(42), Some(EngineEvent::Alive(false))),
            (EngineAction::Finish, None),
        ],
    );
    let report = engine.into_report();
    assert_eq!((report.terminated_sigterm, report.terminated_sigkill, report.failed), (1, 0, 1));
    assert_eq!(report.records[0].status, "退出派发失败");
    assert_eq!(report.records[0].exit_signal, None);
    assert_eq!(report.records[1].exit_signal.as_deref(), Some("NSApplicationTerminate"));
}

#[test]
fn immediate_mode_kills_and_lets_finder_quit() {
    let targets = vec![target(50, "Finder", "com.apple.finder"), target(51, "Mail", "com.apple.mail")];
    let mut engine = TieredTermination::new(&targets, 400, true, 1, 2);
    run(
        &mut engine,
        vec![
            (EngineAction::RequestQuit(50), Some(EngineEvent::QuitRequested(true))),
            (EngineAction::StartTimer, Some(EngineEvent::Done)),
            (EngineAction::ReadTimer, Some(EngineEvent::Elapsed(0))),
            (EngineAction::ProbeAlive(50), Some(EngineEvent::Alive(true))),
            (EngineAction::Sleep(20), Some(EngineEvent::Done)),
            (EngineAction::ReadTimer, Some(EngineEvent::Elapsed(21))),
            (EngineAction::ProbeAlive(50), Some(EngineEvent::Alive(false))),
            (EngineAction::ProbeAlive(50), Some(EngineEvent::Alive(false))),
            (EngineAction::Send(51, Signal::Kill), Some(EngineEvent::Sent(SignalOutcome::Delivered))),
            (EngineAction::Finish, None),
        ],
    );
    let report = engine.into_report();
    assert_eq!((report.terminated_sigterm, report.terminated_sigkill, report.failed), (0, 2, 0));
    assert_eq!(report.records[0].exit_signal.as_deref(), Some("NSApplicationTerminate"));
    assert_eq!(report.records[1].exit_signal.as_deref(), Some("SIGKILL"));
}

#[test]
fn immediate_mode_never_kills_finder_that_outlives_the_wait() {
    let targets = vec![target(60, "Finder", "com.apple.finder")];
    let mut engine = TieredTermination::new(&targets, 400, true, 1, 2);
    run(
        &mut engine,
        vec![
            (EngineAction::RequestQuit(60), Some(EngineEvent::QuitRequested(true))),
            (EngineAction::StartTimer, Some(EngineEvent::Done)),
            (EngineAction::ReadTimer, Some(EngineEvent::Elapsed(250))),
            (EngineAction::ProbeAlive(60), Some(EngineEvent::Alive(true))),
            (EngineAction::Finish, None),
        ],
    );
    let report = engine.into_report();
    assert_eq!((report.terminated_sigterm, report.terminated_sigkill, report.failed), (0, 0, 1));
    assert_eq!(report.records[0].status, "终止超时 (访达)");
    assert_eq!(report.records[0].exit_signal, None);
    assert_eq!(
        report.records[0].error_msg.as_deref(),
        Some("访达未能按时响应退出请求，避免发送 SIGKILL 导致 launchd 异常闪回重拉")
    );
}

#[test]
fn graceful_mode_never_kills_finder_after_the_grace_period() {
    let targets = vec![
        target(80, "Finder", "com.apple.finder"),
        target(81, "Mail", "com.apple.mail"),
        target(82, "访达", ""),
    ];
    let mut engine = TieredTermination::new(&targets, 100, false, 1, 2);
    run(
        &mut engine,
        vec![
            (EngineAction::RequestQuit(80), Some(EngineEvent::QuitRequested(true))),
            (EngineAction::Send(81, Signal::Term), Some(EngineEvent::Sent(SignalOutcome::Delivered))),
            (EngineAction::RequestQuit(82), Some(EngineEvent::QuitRequested(true))),
            (EngineAction::StartTimer, Some(EngineEvent::Done)),
            (EngineAction::ReadTimer, Some(EngineEvent::Elapsed(100))),
            (EngineAction::ProbeAlive(80), Some(EngineEvent::Alive(true))),
            (EngineAction::Send(81, Signal::Kill), Some(EngineEvent::Sent(SignalOutcome::Delivered))),
            (EngineAction::ProbeAlive(82), Some(EngineEvent::Alive(false))),
            (EngineAction::Finish, None),
        ],
    );
    assert_eq!(engine.stage(), Stage::Finished);
    let report = engine.into_report();
    assert_eq!((report.terminated_sigterm, report.terminated_sigkill, report.failed), (1, 1, 1));
    assert_eq!(report.records.len(), 3);
    assert_eq!(report.records[0].status, "终止超时 (访达)");
    assert_eq!(report.records[1].exit_signal.as_deref(), Some("SIGKILL"));
    assert_eq!(report.records[2].exit_signal.as_deref(), Some("NSApplicationTerminate"));
}

#[test]
fn empty_run_and_default_report() {
    let mut engine = TieredTermination::new(&[], 400, false, 1, 2);
    assert_eq!(engine.start(), EngineAction::Finish);
    let report = engine.into_report();
    assert_eq!(report.total_targets, 0);
    assert!(report.records.is_empty());
    let d = TerminationReport::default();
    assert_eq!((d.total_targets, d.failed), (0, 0));
    assert_eq!(TerminationStatusCode::FailedKill, TerminationStatusCode::FailedKill);
}

#[test]
fn accepts_only_fitting_answers() {
    let targets = vec![target(70, "Notes", "com.apple.Notes")];
    let mut engine = TieredTermination::new(&targets, 400, false, 1, 2);
    assert_eq!(engine.start(), EngineAction::Send(70, Signal::Term));
    assert!(!engine.accepts(&EngineEvent::Done));
    assert!(!engine.accepts(&EngineEvent::Alive(true)));
    assert!(engine.accepts(&EngineEvent::Sent(SignalOutcome::Delivered)));
}
