//! Termination outcomes, reports and the tiered termination engine.

use vstd::prelude::*;
use vstd::string::*;

use crate::app::AppTarget;
use crate::i18n::{finder_timeout_text, CoreMessages, Language};
use crate::text::{eq_ignore_ascii_case, str_eq_ignore_ascii_case, str_equal, trim, trim_str};
use crate::whitelist::{is_critical_daemon, opt_text, WhitelistManager};

verus! {

/// Whether an identifier, trimmed, names Finder: its bundle identifier or
/// English name (ASCII case ignored) or its Chinese name.
pub open spec fn is_finder_identifier(s: Seq<char>) -> bool {
    let t = trim(s);
    ||| eq_ignore_ascii_case(t, "com.apple.finder"@)
    ||| eq_ignore_ascii_case(t, "Finder"@)
    ||| t == "访达"@
}

/// Whether a bundle identifier or application name is Finder's.
pub fn is_finder(identifier: &str) -> (r: bool)
    ensures
        r == is_finder_identifier(identifier@),
{
    let t = trim_str(identifier);
    str_eq_ignore_ascii_case(t, "com.apple.finder") || str_eq_ignore_ascii_case(t, "Finder")
        || str_equal(t, "访达")
}

/// The outcome of terminating one target.
#[derive(Debug, Clone, Copy, PartialEq, Eq, Structural)]
pub enum TerminationStatusCode {
    SuccessSigterm,
    SuccessSigkill,
    SuccessAppKit,
    SkippedCallerLineage,
    SkippedCriticalDaemon,
    FailedPermissionDenied,
    FailedDispatch,
    FailedTimeout,
    FailedKill,
    Unknown,
}

/// A POSIX signal the engine asks for.
#[derive(Debug, Clone, Copy, PartialEq, Eq, Structural)]
pub enum Signal {
    /// SIGTERM: a request to exit.
    Term,
    /// SIGKILL: immediate termination.
    Kill,
}

/// What came of sending a signal.
#[derive(Debug)]
pub enum SignalOutcome {
    Delivered,
    /// The process exists but may not be signalled; the text says why.
    PermissionDenied(String),
    /// Any other failure; the text says why.
    Failed(String),
}

/// What the engine asks its driver to do next.
#[derive(Debug, Clone, Copy, PartialEq, Eq, Structural)]
pub enum EngineAction {
    /// Ask the application with this PID to quit through AppKit.
    RequestQuit(i32),
    /// Report whether the process with this PID is still alive.
    ProbeAlive(i32),
    /// Send a signal to the process with this PID.
    Send(i32, Signal),
    /// Start (or restart) the timer.
    StartTimer,
    /// Report the milliseconds since the timer started.
    ReadTimer,
    /// Sleep for this many milliseconds.
    Sleep(u64),
    /// Nothing is left to do; the report is ready.
    Finish,
}

/// What the driver reports back after an action.
#[derive(Debug)]
pub enum EngineEvent {
    /// The timer was started, or the sleep is over.
    Done,
    /// Whether the AppKit quit request was accepted.
    QuitRequested(bool),
    /// Whether the probed process is alive.
    Alive(bool),
    /// What came of a signal.
    Sent(SignalOutcome),
    /// Milliseconds since the timer started.
    Elapsed(u64),
}

/// Where the engine stands: which reply it waits for.
#[derive(Debug, Clone, Copy, PartialEq, Eq, Structural)]
pub enum Stage {
    /// Not started.
    Ready,
    /// Immediate mode, Finder: awaiting the quit request's answer.
    ForceQuit,
    /// Immediate mode, Finder: awaiting the timer's start.
    ForceTimer,
    /// Immediate mode, Finder: awaiting the time since the quit request.
    ForceClock,
    /// Immediate mode, Finder: awaiting a liveness probe while waiting.
    ForceProbe,
    /// Immediate mode, Finder: awaiting the end of a short sleep.
    ForceSleep,
    /// Immediate mode, Finder: awaiting the last liveness probe.
    ForceFinalProbe,
    /// Immediate mode: awaiting the outcome of SIGKILL.
    ForceKill,
    /// Graceful mode, Finder: awaiting the quit request's answer.
    SoftQuit,
    /// Graceful mode, Finder: awaiting a liveness probe after a refused quit.
    SoftProbe,
    /// Graceful mode: awaiting the outcome of SIGTERM.
    SoftTerm,
    /// Grace period: awaiting the timer's start.
    GraceTimer,
    /// Grace period: awaiting the time spent so far.
    GraceClock,
    /// Grace period: awaiting the end of a polling sleep.
    GraceSleep,
    /// Grace period: awaiting the probe of one pending target.
    GraceProbe,
    /// After the grace period: awaiting the outcome of SIGKILL.
    Kill,
    /// After the grace period, Finder: awaiting a last liveness probe; Finder
    /// is never sent SIGKILL.
    LateFinderProbe,
    /// Done.
    Finished,
}

/// The outcome recorded for one target, with the error text if any.
pub struct OutcomeView {
    pub app: AppTarget,
    pub status: TerminationStatusCode,
    pub error: Option<Seq<char>>,
}

/// The state of a termination run.
#[verifier::ext_equal]
pub struct EngineView {
    /// The targets the run was given, in order.
    pub targets: Seq<AppTarget>,
    pub own_pid: i32,
    pub parent_pid: i32,
    /// Immediate mode: SIGKILL without a grace period.
    pub force: bool,
    pub grace_ms: u64,
    /// The targets that passed the safety screen, in order.
    pub valid: Seq<AppTarget>,
    /// The next valid target to dispatch.
    pub cursor: int,
    /// Targets asked to exit that have not been seen to exit yet.
    pub pending: Seq<AppTarget>,
    /// Pending targets found alive in the current polling pass.
    pub survivors: Seq<AppTarget>,
    /// The next pending target to probe or kill.
    pub index: int,
    pub outcomes: Seq<OutcomeView>,
    pub sigterm: int,
    pub sigkill: int,
    pub failed: int,
    /// Whether the grace period ran out.
    pub grace_over: bool,
    pub stage: Stage,
}

/// Whether a target is Finder, by bundle identifier or by name.
pub open spec fn is_finder_target(a: AppTarget) -> bool {
    is_finder_identifier(a.bundle_id@) || is_finder_identifier(a.name@)
}

/// Whether a target may be acted on: it is neither the caller, the caller's
/// parent, nor a critical system daemon.
pub open spec fn may_terminate(a: AppTarget, own_pid: i32, parent_pid: i32) -> bool {
    &&& a.pid != own_pid
    &&& a.pid != parent_pid
    &&& !is_critical_daemon(a.bundle_id@)
    &&& !is_critical_daemon(a.name@)
}

/// The record of a target that the safety screen keeps from any signal.
pub open spec fn screen_one(a: AppTarget, own_pid: i32, parent_pid: i32) -> Option<OutcomeView> {
    if a.pid == own_pid || a.pid == parent_pid {
        Some(
            OutcomeView {
                app: a,
                status: TerminationStatusCode::SkippedCallerLineage,
                error: Some("当前执行会话或父进程处于受保护状态"@),
            },
        )
    } else if is_critical_daemon(a.bundle_id@) || is_critical_daemon(a.name@) {
        Some(
            OutcomeView {
                app: a,
                status: TerminationStatusCode::SkippedCriticalDaemon,
                error: Some("系统底层关键守护服务禁止强制终止"@),
            },
        )
    } else {
        None
    }
}

/// The safety screen over all targets: those that may be acted on, in
/// order, and the records of those skipped, in order.
pub open spec fn screened(targets: Seq<AppTarget>, own_pid: i32, parent_pid: i32) -> (
    Seq<AppTarget>,
    Seq<OutcomeView>,
)
    decreases targets.len(),
{
    if targets.len() == 0 {
        (Seq::empty(), Seq::empty())
    } else {
        let (v, o) = screened(targets.drop_last(), own_pid, parent_pid);
        match screen_one(targets.last(), own_pid, parent_pid) {
            None => (v.push(targets.last()), o),
            Some(r) => (v, o.push(r)),
        }
    }
}

/// A run before it starts.
pub open spec fn engine_initial(
    targets: Seq<AppTarget>,
    grace_ms: u64,
    force: bool,
    own_pid: i32,
    parent_pid: i32,
) -> EngineView {
    let (valid, skipped) = screened(targets, own_pid, parent_pid);
    EngineView {
        targets,
        own_pid,
        parent_pid,
        force,
        grace_ms,
        valid,
        cursor: 0,
        pending: Seq::empty(),
        survivors: Seq::empty(),
        index: 0,
        outcomes: skipped,
        sigterm: 0,
        sigkill: 0,
        failed: skipped.len() as int,
        grace_over: false,
        stage: Stage::Ready,
    }
}

/// The valid target being dispatched.
pub open spec fn current(v: EngineView) -> AppTarget {
    v.valid[v.cursor]
}

/// The pending target being probed or killed.
pub open spec fn probed(v: EngineView) -> AppTarget {
    v.pending[v.index]
}

/// A record added for a target.
pub open spec fn with_outcome(
    v: EngineView,
    a: AppTarget,
    status: TerminationStatusCode,
    error: Option<Seq<char>>,
) -> EngineView {
    EngineView { outcomes: v.outcomes.push(OutcomeView { app: a, status, error }), ..v }
}

/// The text of an optional message.
pub open spec fn message_of(o: SignalOutcome) -> Option<Seq<char>> {
    match o {
        SignalOutcome::Delivered => None,
        SignalOutcome::PermissionDenied(m) => Some(m@),
        SignalOutcome::Failed(m) => Some(m@),
    }
}

/// Immediate mode: the next valid target, or the end.
pub open spec fn next_force(v: EngineView) -> (EngineView, EngineAction) {
    if v.cursor >= v.valid.len() {
        (EngineView { stage: Stage::Finished, ..v }, EngineAction::Finish)
    } else if is_finder_target(current(v)) {
        (EngineView { stage: Stage::ForceQuit, ..v }, EngineAction::RequestQuit(current(v).pid))
    } else {
        (
            EngineView { stage: Stage::ForceKill, ..v },
            EngineAction::Send(current(v).pid, Signal::Kill),
        )
    }
}

/// Graceful mode: the next valid target, or the grace period once all are
/// dispatched (the end when nothing is pending).
pub open spec fn next_soft(v: EngineView) -> (EngineView, EngineAction) {
    if v.cursor >= v.valid.len() {
        if v.pending.len() == 0 {
            (EngineView { stage: Stage::Finished, ..v }, EngineAction::Finish)
        } else {
            (EngineView { stage: Stage::GraceTimer, ..v }, EngineAction::StartTimer)
        }
    } else if is_finder_target(current(v)) {
        (EngineView { stage: Stage::SoftQuit, ..v }, EngineAction::RequestQuit(current(v).pid))
    } else {
        (
            EngineView { stage: Stage::SoftTerm, ..v },
            EngineAction::Send(current(v).pid, Signal::Term),
        )
    }
}

/// Grace period: probe the next pending target; after a pass the survivors
/// stay pending, and the clock is read again unless none survived.
pub open spec fn next_probe(v: EngineView) -> (EngineView, EngineAction) {
    if v.index < v.pending.len() {
        (EngineView { stage: Stage::GraceProbe, ..v }, EngineAction::ProbeAlive(probed(v).pid))
    } else if v.survivors.len() == 0 {
        (
            EngineView { pending: Seq::empty(), index: 0, stage: Stage::Finished, ..v },
            EngineAction::Finish,
        )
    } else {
        (
            EngineView {
                pending: v.survivors,
                survivors: Seq::empty(),
                index: 0,
                stage: Stage::GraceClock,
                ..v
            },
            EngineAction::ReadTimer,
        )
    }
}

/// After the grace period: SIGKILL to the next pending target, or the end.
pub open spec fn next_kill(v: EngineView) -> (EngineView, EngineAction) {
    if v.index < v.pending.len() {
        if is_finder_target(probed(v)) {
            (
                EngineView { stage: Stage::LateFinderProbe, ..v },
                EngineAction::ProbeAlive(probed(v).pid),
            )
        } else {
            (EngineView { stage: Stage::Kill, ..v }, EngineAction::Send(probed(v).pid, Signal::Kill))
        }
    } else {
        (EngineView { stage: Stage::Finished, ..v }, EngineAction::Finish)
    }
}

/// The first action of a run.
pub open spec fn engine_start(v: EngineView) -> (EngineView, EngineAction) {
    if v.force {
        next_force(v)
    } else {
        next_soft(v)
    }
}

/// Whether an event answers the action the engine is waiting on.
pub open spec fn answers(stage: Stage, ev: EngineEvent) -> bool {
    match ev {
        EngineEvent::Done => stage == Stage::ForceTimer || stage == Stage::ForceSleep || stage
            == Stage::GraceTimer || stage == Stage::GraceSleep,
        EngineEvent::QuitRequested(_) => stage == Stage::ForceQuit || stage == Stage::SoftQuit,
        EngineEvent::Alive(_) => stage == Stage::ForceProbe || stage == Stage::ForceFinalProbe
            || stage == Stage::SoftProbe || stage == Stage::GraceProbe || stage
            == Stage::LateFinderProbe,
        EngineEvent::Sent(_) => stage == Stage::ForceKill || stage == Stage::SoftTerm || stage
            == Stage::Kill,
        EngineEvent::Elapsed(_) => stage == Stage::ForceClock || stage == Stage::GraceClock,
    }
}

/// How long Finder is given to quit in immediate mode, in milliseconds.
pub open spec fn finder_quit_wait_ms() -> u64 {
    250
}

/// One step of a run: the event answers the last action; the result is the
/// new state and the next action.
pub open spec fn engine_step(v: EngineView, ev: EngineEvent) -> (EngineView, EngineAction) {
    let cur = current(v);
    match v.stage {
        Stage::ForceQuit => match ev {
            EngineEvent::QuitRequested(true) => (
                EngineView { stage: Stage::ForceTimer, ..v },
                EngineAction::StartTimer,
            ),
            _ => (
                EngineView { stage: Stage::ForceFinalProbe, ..v },
                EngineAction::ProbeAlive(cur.pid),
            ),
        },
        Stage::ForceTimer => (EngineView { stage: Stage::ForceClock, ..v }, EngineAction::ReadTimer),
        Stage::ForceClock => match ev {
            EngineEvent::Elapsed(e) => if e < finder_quit_wait_ms() {
                (EngineView { stage: Stage::ForceProbe, ..v }, EngineAction::ProbeAlive(cur.pid))
            } else {
                (
                    EngineView { stage: Stage::ForceFinalProbe, ..v },
                    EngineAction::ProbeAlive(cur.pid),
                )
            },
            _ => (v, EngineAction::Finish),
        },
        Stage::ForceProbe => match ev {
            EngineEvent::Alive(true) => (
                EngineView { stage: Stage::ForceSleep, ..v },
                EngineAction::Sleep(20),
            ),
            _ => (
                EngineView { stage: Stage::ForceFinalProbe, ..v },
                EngineAction::ProbeAlive(cur.pid),
            ),
        },
        Stage::ForceSleep => (EngineView { stage: Stage::ForceClock, ..v }, EngineAction::ReadTimer),
        Stage::ForceFinalProbe => match ev {
            EngineEvent::Alive(true) => next_force(
                EngineView {
                    failed: v.failed + 1,
                    cursor: v.cursor + 1,
                    ..with_outcome(
                        v,
                        cur,
                        TerminationStatusCode::FailedTimeout,
                        Some(finder_timeout_text(Language::ZhHans)),
                    )
                },
            ),
            _ => next_force(
                EngineView {
                    sigkill: v.sigkill + 1,
                    cursor: v.cursor + 1,
                    ..with_outcome(v, cur, TerminationStatusCode::SuccessAppKit, None)
                },
            ),
        },
        Stage::ForceKill => match ev {
            EngineEvent::Sent(SignalOutcome::Delivered) => next_force(
                EngineView {
                    sigkill: v.sigkill + 1,
                    cursor: v.cursor + 1,
                    ..with_outcome(v, cur, TerminationStatusCode::SuccessSigkill, None)
                },
            ),
            EngineEvent::Sent(o) => next_force(
                EngineView {
                    failed: v.failed + 1,
                    cursor: v.cursor + 1,
                    ..with_outcome(v, cur, TerminationStatusCode::FailedKill, message_of(o))
                },
            ),
            _ => (v, EngineAction::Finish),
        },
        Stage::SoftQuit => match ev {
            EngineEvent::QuitRequested(true) => next_soft(
                EngineView { pending: v.pending.push(cur), cursor: v.cursor + 1, ..v },
            ),
            _ => (EngineView { stage: Stage::SoftProbe, ..v }, EngineAction::ProbeAlive(cur.pid)),
        },
        Stage::SoftProbe => match ev {
            EngineEvent::Alive(true) => (
                EngineView { stage: Stage::SoftTerm, ..v },
                EngineAction::Send(cur.pid, Signal::Term),
            ),
            _ => next_soft(
                EngineView {
                    sigterm: v.sigterm + 1,
                    cursor: v.cursor + 1,
                    ..with_outcome(v, cur, TerminationStatusCode::SuccessAppKit, None)
                },
            ),
        },
        Stage::SoftTerm => match ev {
            EngineEvent::Sent(SignalOutcome::Delivered) => next_soft(
                EngineView { pending: v.pending.push(cur), cursor: v.cursor + 1, ..v },
            ),
            EngineEvent::Sent(o) => if is_finder_target(cur) {
                next_soft(
                    EngineView {
                        failed: v.failed + 1,
                        cursor: v.cursor + 1,
                        ..with_outcome(v, cur, TerminationStatusCode::FailedDispatch, message_of(o))
                    },
                )
            } else if o is PermissionDenied {
                next_soft(
                    EngineView {
                        failed: v.failed + 1,
                        cursor: v.cursor + 1,
                        ..with_outcome(
                            v,
                            cur,
                            TerminationStatusCode::FailedPermissionDenied,
                            message_of(o),
                        )
                    },
                )
            } else {
                next_soft(
                    EngineView {
                        sigterm: v.sigterm + 1,
                        cursor: v.cursor + 1,
                        ..with_outcome(v, cur, TerminationStatusCode::SuccessSigterm, None)
                    },
                )
            },
            _ => (v, EngineAction::Finish),
        },
        Stage::GraceTimer => (EngineView { stage: Stage::GraceClock, ..v }, EngineAction::ReadTimer),
        Stage::GraceClock => match ev {
            EngineEvent::Elapsed(e) => if e < v.grace_ms {
                (EngineView { stage: Stage::GraceSleep, ..v }, EngineAction::Sleep(25))
            } else {
                next_kill(EngineView { grace_over: true, index: 0, ..v })
            },
            _ => (v, EngineAction::Finish),
        },
        Stage::GraceSleep => next_probe(EngineView { index: 0, survivors: Seq::empty(), ..v }),
        Stage::GraceProbe => {
            let p = probed(v);
            match ev {
                EngineEvent::Alive(true) => next_probe(
                    EngineView { survivors: v.survivors.push(p), index: v.index + 1, ..v },
                ),
                _ => next_probe(
                    EngineView {
                        sigterm: v.sigterm + 1,
                        index: v.index + 1,
                        ..with_outcome(
                            v,
                            p,
                            if is_finder_target(p) {
                                TerminationStatusCode::SuccessAppKit
                            } else {
                                TerminationStatusCode::SuccessSigterm
                            },
                            None,
                        )
                    },
                ),
            }
        },
        Stage::Kill => {
            let p = probed(v);
            match ev {
                EngineEvent::Sent(SignalOutcome::Delivered) => next_kill(
                    EngineView {
                        sigkill: v.sigkill + 1,
                        index: v.index + 1,
                        ..with_outcome(v, p, TerminationStatusCode::SuccessSigkill, None)
                    },
                ),
                EngineEvent::Sent(o) => next_kill(
                    EngineView {
                        failed: v.failed + 1,
                        index: v.index + 1,
                        ..with_outcome(v, p, TerminationStatusCode::FailedKill, message_of(o))
                    },
                ),
                _ => (v, EngineAction::Finish),
            }
        },
        Stage::LateFinderProbe => {
            let p = probed(v);
            match ev {
                EngineEvent::Alive(true) => next_kill(
                    EngineView {
                        failed: v.failed + 1,
                        index: v.index + 1,
                        ..with_outcome(
                            v,
                            p,
                            TerminationStatusCode::FailedTimeout,
                            Some(finder_timeout_text(Language::ZhHans)),
                        )
                    },
                ),
                _ => next_kill(
                    EngineView {
                        sigterm: v.sigterm + 1,
                        index: v.index + 1,
                        ..with_outcome(v, p, TerminationStatusCode::SuccessAppKit, None)
                    },
                ),
            }
        },
        _ => (v, EngineAction::Finish),
    }
}

/// The targets of a sequence of records.
pub open spec fn apps_of(outcomes: Seq<OutcomeView>) -> Seq<AppTarget> {
    outcomes.map_values(|o: OutcomeView| o.app)
}

/// The targets that have no record yet: valid targets not dispatched,
/// survivors of the current pass, and pending targets not yet probed.
pub open spec fn outstanding(v: EngineView) -> Seq<AppTarget> {
    v.valid.subrange(v.cursor, v.valid.len() as int) + v.survivors + v.pending.subrange(
        v.index,
        v.pending.len() as int,
    )
}

/// The shape each stage requires of the state.
pub open spec fn stage_shape(v: EngineView) -> bool {
    match v.stage {
        Stage::Ready => v.cursor == 0 && v.pending.len() == 0 && v.survivors.len() == 0 && v.index
            == 0 && !v.grace_over,
        Stage::ForceQuit | Stage::ForceTimer | Stage::ForceClock | Stage::ForceProbe
        | Stage::ForceSleep | Stage::ForceFinalProbe | Stage::ForceKill => v.force && v.cursor
            < v.valid.len() && v.pending.len() == 0 && v.survivors.len() == 0 && v.index == 0,
        Stage::SoftQuit | Stage::SoftProbe | Stage::SoftTerm => !v.force && v.cursor
            < v.valid.len() && v.survivors.len() == 0 && v.index == 0,
        Stage::GraceTimer | Stage::GraceClock | Stage::GraceSleep => !v.force && v.cursor
            == v.valid.len() && v.survivors.len() == 0 && v.index == 0 && v.pending.len() > 0,
        Stage::GraceProbe => !v.force && v.cursor == v.valid.len() && v.index < v.pending.len(),
        Stage::Kill | Stage::LateFinderProbe => !v.force && v.cursor == v.valid.len()
            && v.survivors.len() == 0 && v.index < v.pending.len() && v.grace_over,
        Stage::Finished => outstanding(v).len() == 0,
    }
}

/// The invariant of a run: positions in range, the counters add up to the
/// records, every target is either recorded or outstanding exactly as often
/// as it was given, only targets that may be acted on are outstanding, and
/// the state has the shape its stage requires.
pub open spec fn engine_wf(v: EngineView) -> bool {
    &&& core_wf(v)
    &&& stage_shape(v)
}

/// The part of the invariant that holds between stages too.
pub open spec fn core_wf(v: EngineView) -> bool {
    &&& 0 <= v.cursor <= v.valid.len()
    &&& 0 <= v.index <= v.pending.len()
    &&& v.sigterm >= 0 && v.sigkill >= 0 && v.failed >= 0
    &&& v.sigterm + v.sigkill + v.failed == v.outcomes.len()
    &&& v.targets.to_multiset() == apps_of(v.outcomes).to_multiset().add(
        outstanding(v).to_multiset(),
    )
    &&& forall|i: int|
        0 <= i < v.valid.len() ==> may_terminate(#[trigger] v.valid[i], v.own_pid, v.parent_pid)
    &&& forall|i: int|
        0 <= i < v.pending.len() ==> may_terminate(#[trigger] v.pending[i], v.own_pid, v.parent_pid)
    &&& forall|i: int|
        0 <= i < v.survivors.len() ==> may_terminate(
            #[trigger] v.survivors[i],
            v.own_pid,
            v.parent_pid,
        )
}

/// The process an action is aimed at, if any.
pub open spec fn action_pid(a: EngineAction) -> Option<i32> {
    match a {
        EngineAction::RequestQuit(p) => Some(p),
        EngineAction::ProbeAlive(p) => Some(p),
        EngineAction::Send(p, _) => Some(p),
        _ => None,
    }
}

/// An action is aimed only at one of the run's targets that may be acted
/// on: never the caller, its parent or a critical system daemon.
pub open spec fn acts_safely(v: EngineView, a: EngineAction) -> bool {
    match action_pid(a) {
        Some(p) => exists|x: AppTarget|
            #[trigger] v.targets.contains(x) && x.pid == p && may_terminate(
                x,
                v.own_pid,
                v.parent_pid,
            ),
        None => true,
    }
}

/// SIGTERM is sent only in graceful mode, and SIGKILL in graceful mode only
/// after the grace period ran out.
pub open spec fn fits_mode(v: EngineView, a: EngineAction) -> bool {
    match a {
        EngineAction::Send(_, Signal::Term) => !v.force,
        EngineAction::Send(_, Signal::Kill) => v.force || v.grace_over,
        _ => true,
    }
}

/// The parameters of a run do not change.
pub open spec fn same_run(v: EngineView, w: EngineView) -> bool {
    &&& w.targets == v.targets
    &&& w.own_pid == v.own_pid
    &&& w.parent_pid == v.parent_pid
    &&& w.force == v.force
    &&& w.grace_ms == v.grace_ms
}

proof fn lemma_ms3(a: Seq<AppTarget>, b: Seq<AppTarget>, c: Seq<AppTarget>)
    ensures
        (a + b + c).to_multiset() == a.to_multiset().add(b.to_multiset()).add(c.to_multiset()),
{
    vstd::seq_lib::lemma_multiset_commutative(a, b);
    vstd::seq_lib::lemma_multiset_commutative(a + b, c);
}

proof fn lemma_ms_front(s: Seq<AppTarget>, i: int)
    requires
        0 <= i < s.len(),
    ensures
        s.subrange(i, s.len() as int).to_multiset() == s.subrange(i + 1, s.len() as int).to_multiset().insert(
            s[i],
        ),
{
    let tail = s.subrange(i + 1, s.len() as int);
    assert(s.subrange(i, s.len() as int) == seq![s[i]] + tail);
    vstd::seq_lib::lemma_multiset_commutative(seq![s[i]], tail);
    broadcast use vstd::seq_lib::group_to_multiset_ensures;
    broadcast use vstd::multiset::group_multiset_axioms;

    assert(seq![s[i]] == Seq::<AppTarget>::empty().push(s[i]));
    assert(seq![s[i]].to_multiset() =~= vstd::multiset::Multiset::<AppTarget>::empty().insert(s[i]));
    assert(seq![s[i]].to_multiset().add(tail.to_multiset()) =~= tail.to_multiset().insert(s[i]));
}

proof fn lemma_ms_push(s: Seq<AppTarget>, i: int, x: AppTarget)
    requires
        0 <= i <= s.len(),
    ensures
        s.push(x).subrange(i, s.len() as int + 1).to_multiset() == s.subrange(i, s.len() as int).to_multiset().insert(x),
{
    broadcast use vstd::seq_lib::group_to_multiset_ensures;

    assert(s.push(x).subrange(i, s.len() as int + 1) == s.subrange(i, s.len() as int).push(x));
}

proof fn lemma_apps_push(outcomes: Seq<OutcomeView>, o: OutcomeView)
    ensures
        apps_of(outcomes.push(o)).to_multiset() == apps_of(outcomes).to_multiset().insert(o.app),
{
    broadcast use vstd::seq_lib::group_to_multiset_ensures;

    assert(apps_of(outcomes.push(o)) == apps_of(outcomes).push(o.app));
}

proof fn lemma_outstanding_in_targets(v: EngineView, x: AppTarget)
    requires
        v.targets.to_multiset() == apps_of(v.outcomes).to_multiset().add(
            outstanding(v).to_multiset(),
        ),
        outstanding(v).contains(x),
    ensures
        v.targets.contains(x),
{
    broadcast use vstd::seq_lib::group_to_multiset_ensures;
    broadcast use vstd::multiset::group_multiset_axioms;

    assert(outstanding(v).to_multiset().count(x) > 0);
    assert(v.targets.to_multiset().count(x) > 0);
}

proof fn lemma_current_safe(v: EngineView)
    requires
        core_wf(v),
        v.cursor < v.valid.len(),
    ensures
        v.targets.contains(current(v)),
        may_terminate(current(v), v.own_pid, v.parent_pid),
{
    let x = current(v);
    assert(outstanding(v)[0] == x);
    lemma_outstanding_in_targets(v, x);
}

proof fn lemma_probed_safe(v: EngineView)
    requires
        core_wf(v),
        v.cursor == v.valid.len(),
        v.index < v.pending.len(),
    ensures
        v.targets.contains(probed(v)),
        may_terminate(probed(v), v.own_pid, v.parent_pid),
{
    let x = probed(v);
    assert(outstanding(v)[v.survivors.len() as int] == x);
    lemma_outstanding_in_targets(v, x);
}

proof fn lemma_next_force(v: EngineView)
    requires
        core_wf(v),
        v.force,
        v.pending.len() == 0,
        v.survivors.len() == 0,
        v.index == 0,
    ensures
        engine_wf(next_force(v).0),
        acts_safely(next_force(v).0, next_force(v).1),
        fits_mode(next_force(v).0, next_force(v).1),
        same_run(v, next_force(v).0),
{
    if v.cursor < v.valid.len() {
        lemma_current_safe(v);
        let w = next_force(v).0;
        assert(w.targets.contains(current(v)) && may_terminate(current(v), w.own_pid, w.parent_pid));
    } else {
        assert(outstanding(v) =~= Seq::<AppTarget>::empty());
    }
}

proof fn lemma_next_soft(v: EngineView)
    requires
        core_wf(v),
        !v.force,
        v.survivors.len() == 0,
        v.index == 0,
    ensures
        engine_wf(next_soft(v).0),
        acts_safely(next_soft(v).0, next_soft(v).1),
        fits_mode(next_soft(v).0, next_soft(v).1),
        same_run(v, next_soft(v).0),
{
    if v.cursor < v.valid.len() {
        lemma_current_safe(v);
        let w = next_soft(v).0;
        assert(w.targets.contains(current(v)) && may_terminate(current(v), w.own_pid, w.parent_pid));
    } else if v.pending.len() == 0 {
        assert(outstanding(v) =~= Seq::<AppTarget>::empty());
    }
}

proof fn lemma_next_probe(v: EngineView)
    requires
        core_wf(v),
        !v.force,
        v.cursor == v.valid.len(),
    ensures
        engine_wf(next_probe(v).0),
        acts_safely(next_probe(v).0, next_probe(v).1),
        fits_mode(next_probe(v).0, next_probe(v).1),
        same_run(v, next_probe(v).0),
{
    if v.index < v.pending.len() {
        lemma_probed_safe(v);
        let w = next_probe(v).0;
        assert(w.targets.contains(probed(v)) && may_terminate(probed(v), w.own_pid, w.parent_pid));
    } else {
        let w = next_probe(v).0;
        assert(outstanding(v) =~= v.survivors);
        if v.survivors.len() == 0 {
            assert(outstanding(w) =~= Seq::<AppTarget>::empty());
        } else {
            assert(outstanding(w) =~= v.survivors);
        }
    }
}

proof fn lemma_next_kill(v: EngineView)
    requires
        core_wf(v),
        !v.force,
        v.cursor == v.valid.len(),
        v.survivors.len() == 0,
        v.grace_over,
    ensures
        engine_wf(next_kill(v).0),
        acts_safely(next_kill(v).0, next_kill(v).1),
        fits_mode(next_kill(v).0, next_kill(v).1),
        same_run(v, next_kill(v).0),
{
    if v.index < v.pending.len() {
        lemma_probed_safe(v);
        let w = next_kill(v).0;
        assert(w.targets.contains(probed(v)) && may_terminate(probed(v), w.own_pid, w.parent_pid));
    } else {
        assert(outstanding(v) =~= Seq::<AppTarget>::empty());
    }
}

/// Recording the outcome of the current valid target and moving on.
proof fn lemma_record_current(
    v: EngineView,
    status: TerminationStatusCode,
    error: Option<Seq<char>>,
    w: EngineView,
)
    requires
        core_wf(v),
        v.cursor < v.valid.len(),
        w == (EngineView { cursor: v.cursor + 1, ..with_outcome(v, current(v), status, error) }),
    ensures
        v.targets.to_multiset() == apps_of(w.outcomes).to_multiset().add(
            outstanding(w).to_multiset(),
        ),
{
    broadcast use vstd::multiset::group_multiset_axioms;

    let x = current(v);
    lemma_apps_push(v.outcomes, OutcomeView { app: x, status, error });
    lemma_ms_front(v.valid, v.cursor);
    lemma_ms3(
        v.valid.subrange(v.cursor, v.valid.len() as int),
        v.survivors,
        v.pending.subrange(v.index, v.pending.len() as int),
    );
    lemma_ms3(
        w.valid.subrange(w.cursor, w.valid.len() as int),
        w.survivors,
        w.pending.subrange(w.index, w.pending.len() as int),
    );
    assert(apps_of(w.outcomes).to_multiset().add(outstanding(w).to_multiset()) =~= apps_of(
        v.outcomes,
    ).to_multiset().add(outstanding(v).to_multiset()));
}

/// Moving the current valid target to the pending list.
proof fn lemma_pend_current(v: EngineView, w: EngineView)
    requires
        core_wf(v),
        v.cursor < v.valid.len(),
        w == (EngineView { pending: v.pending.push(current(v)), cursor: v.cursor + 1, ..v }),
    ensures
        v.targets.to_multiset() == apps_of(w.outcomes).to_multiset().add(
            outstanding(w).to_multiset(),
        ),
{
    broadcast use vstd::multiset::group_multiset_axioms;

    let x = current(v);
    lemma_ms_front(v.valid, v.cursor);
    lemma_ms_push(v.pending, v.index, x);
    lemma_ms3(
        v.valid.subrange(v.cursor, v.valid.len() as int),
        v.survivors,
        v.pending.subrange(v.index, v.pending.len() as int),
    );
    lemma_ms3(
        w.valid.subrange(w.cursor, w.valid.len() as int),
        w.survivors,
        w.pending.subrange(w.index, w.pending.len() as int),
    );
    assert(apps_of(w.outcomes).to_multiset().add(outstanding(w).to_multiset()) =~= apps_of(
        v.outcomes,
    ).to_multiset().add(outstanding(v).to_multiset()));
}

/// Recording the outcome of the probed pending target and moving on.
proof fn lemma_record_probed(
    v: EngineView,
    status: TerminationStatusCode,
    error: Option<Seq<char>>,
    w: EngineView,
)
    requires
        core_wf(v),
        v.index < v.pending.len(),
        w == (EngineView { index: v.index + 1, ..with_outcome(v, probed(v), status, error) }),
    ensures
        v.targets.to_multiset() == apps_of(w.outcomes).to_multiset().add(
            outstanding(w).to_multiset(),
        ),
{
    broadcast use vstd::multiset::group_multiset_axioms;

    let x = probed(v);
    lemma_apps_push(v.outcomes, OutcomeView { app: x, status, error });
    lemma_ms_front(v.pending, v.index);
    lemma_ms3(
        v.valid.subrange(v.cursor, v.valid.len() as int),
        v.survivors,
        v.pending.subrange(v.index, v.pending.len() as int),
    );
    lemma_ms3(
        w.valid.subrange(w.cursor, w.valid.len() as int),
        w.survivors,
        w.pending.subrange(w.index, w.pending.len() as int),
    );
    assert(apps_of(w.outcomes).to_multiset().add(outstanding(w).to_multiset()) =~= apps_of(
        v.outcomes,
    ).to_multiset().add(outstanding(v).to_multiset()));
}

/// Keeping the probed pending target as a survivor.
proof fn lemma_survive_probed(v: EngineView, w: EngineView)
    requires
        core_wf(v),
        v.index < v.pending.len(),
        w == (EngineView { survivors: v.survivors.push(probed(v)), index: v.index + 1, ..v }),
    ensures
        v.targets.to_multiset() == apps_of(w.outcomes).to_multiset().add(
            outstanding(w).to_multiset(),
        ),
{
    broadcast use vstd::multiset::group_multiset_axioms;
    broadcast use vstd::seq_lib::group_to_multiset_ensures;

    let x = probed(v);
    lemma_ms_front(v.pending, v.index);
    lemma_ms3(
        v.valid.subrange(v.cursor, v.valid.len() as int),
        v.survivors,
        v.pending.subrange(v.index, v.pending.len() as int),
    );
    lemma_ms3(
        w.valid.subrange(w.cursor, w.valid.len() as int),
        w.survivors,
        w.pending.subrange(w.index, w.pending.len() as int),
    );
    assert(apps_of(w.outcomes).to_multiset().add(outstanding(w).to_multiset()) =~= apps_of(
        v.outcomes,
    ).to_multiset().add(outstanding(v).to_multiset()));
}

/// Every step keeps the invariant and stays within the rules of a run: it
/// acts only on targets that may be acted on (never the caller, its parent
/// or a critical system daemon), sends SIGTERM only in graceful mode,
/// sends SIGKILL in graceful mode only once the grace period ran out, and
/// keeps the run's parameters.
#[verifier::spinoff_prover]
#[verifier::rlimit(40)]
pub proof fn lemma_step_safe(v: EngineView, ev: EngineEvent)
    requires
        engine_wf(v),
        answers(v.stage, ev),
    ensures
        engine_wf(engine_step(v, ev).0),
        acts_safely(engine_step(v, ev).0, engine_step(v, ev).1),
        fits_mode(engine_step(v, ev).0, engine_step(v, ev).1),
        same_run(v, engine_step(v, ev).0),
{
    let r = engine_step(v, ev);
    match v.stage {
        Stage::ForceQuit | Stage::ForceClock | Stage::ForceProbe => {
            lemma_current_safe(v);
            assert(r.0.targets.contains(current(v)));
        },
        Stage::ForceFinalProbe => {
            lemma_current_safe(v);
            if ev == EngineEvent::Alive(true) {
                let msg = Some(finder_timeout_text(Language::ZhHans));
                let w = EngineView {
                    failed: v.failed + 1,
                    cursor: v.cursor + 1,
                    ..with_outcome(v, current(v), TerminationStatusCode::FailedTimeout, msg)
                };
                let w0 = EngineView { cursor: v.cursor + 1, ..with_outcome(v, current(v), TerminationStatusCode::FailedTimeout, msg) };
                lemma_record_current(v, TerminationStatusCode::FailedTimeout, msg, w0);
                assert(outstanding(w) == outstanding(w0));
                lemma_next_force(w);
            } else {
                let w = EngineView {
                    sigkill: v.sigkill + 1,
                    cursor: v.cursor + 1,
                    ..with_outcome(v, current(v), TerminationStatusCode::SuccessAppKit, None)
                };
                let w0 = EngineView { cursor: v.cursor + 1, ..with_outcome(v, current(v), TerminationStatusCode::SuccessAppKit, None) };
                lemma_record_current(v, TerminationStatusCode::SuccessAppKit, None, w0);
                assert(outstanding(w) == outstanding(w0));
                lemma_next_force(w);
            }
        },
        Stage::ForceKill => {
            if let EngineEvent::Sent(o) = ev {
                if o is Delivered {
                    let w = EngineView {
                        sigkill: v.sigkill + 1,
                        cursor: v.cursor + 1,
                        ..with_outcome(v, current(v), TerminationStatusCode::SuccessSigkill, None)
                    };
                    let w0 = EngineView { cursor: v.cursor + 1, ..with_outcome(v, current(v), TerminationStatusCode::SuccessSigkill, None) };
                    lemma_record_current(v, TerminationStatusCode::SuccessSigkill, None, w0);
                    assert(outstanding(w) == outstanding(w0));
                    lemma_next_force(w);
                } else {
                    let w = EngineView {
                        failed: v.failed + 1,
                        cursor: v.cursor + 1,
                        ..with_outcome(v, current(v), TerminationStatusCode::FailedKill, message_of(o))
                    };
                    let w0 = EngineView { cursor: v.cursor + 1, ..with_outcome(v, current(v), TerminationStatusCode::FailedKill, message_of(o)) };
                    lemma_record_current(v, TerminationStatusCode::FailedKill, message_of(o), w0);
                    assert(outstanding(w) == outstanding(w0));
                    lemma_next_force(w);
                }
            }
        },
        Stage::SoftQuit => {
            lemma_current_safe(v);
            if ev == EngineEvent::QuitRequested(true) {
                let w = EngineView {
                    pending: v.pending.push(current(v)),
                    cursor: v.cursor + 1,
                    ..v
                };
                lemma_pend_current(v, w);
                assert(w.pending.last() == current(v));
                lemma_next_soft(w);
            } else {
                assert(r.0.targets.contains(current(v)));
            }
        },
        Stage::SoftProbe => {
            lemma_current_safe(v);
            if ev == EngineEvent::Alive(true) {
                assert(r.0.targets.contains(current(v)));
            } else {
                let w = EngineView {
                    sigterm: v.sigterm + 1,
                    cursor: v.cursor + 1,
                    ..with_outcome(v, current(v), TerminationStatusCode::SuccessAppKit, None)
                };
                let w0 = EngineView { cursor: v.cursor + 1, ..with_outcome(v, current(v), TerminationStatusCode::SuccessAppKit, None) };
                lemma_record_current(v, TerminationStatusCode::SuccessAppKit, None, w0);
                assert(outstanding(w) == outstanding(w0));
                lemma_next_soft(w);
            }
        },
        Stage::SoftTerm => {
            lemma_current_safe(v);
            if let EngineEvent::Sent(o) = ev {
                let cur = current(v);
                if o is Delivered {
                    let w = EngineView { pending: v.pending.push(cur), cursor: v.cursor + 1, ..v };
                    lemma_pend_current(v, w);
                    assert(w.pending.last() == cur);
                    lemma_next_soft(w);
                } else {
                    let (status, error, t, f) = if is_finder_target(cur) {
                        (TerminationStatusCode::FailedDispatch, message_of(o), 0int, 1int)
                    } else if o is PermissionDenied {
                        (TerminationStatusCode::FailedPermissionDenied, message_of(o), 0int, 1int)
                    } else {
                        (TerminationStatusCode::SuccessSigterm, None, 1int, 0int)
                    };
                    let w = EngineView {
                        sigterm: v.sigterm + t,
                        failed: v.failed + f,
                        cursor: v.cursor + 1,
                        ..with_outcome(v, cur, status, error)
                    };
                    let w0 = EngineView { cursor: v.cursor + 1, ..with_outcome(v, cur, status, error) };
                    lemma_record_current(v, status, error, w0);
                    assert(outstanding(w) == outstanding(w0));
                    lemma_next_soft(w);
                    assert(r == next_soft(w));
                }
            }
        },
        Stage::GraceClock => {
            if let EngineEvent::Elapsed(e) = ev {
                if e >= v.grace_ms {
                    let w = EngineView { grace_over: true, index: 0, ..v };
                    assert(outstanding(w) == outstanding(v));
                    lemma_next_kill(w);
                }
            }
        },
        Stage::GraceSleep => {
            let w = EngineView { index: 0, survivors: Seq::empty(), ..v };
            assert(w.survivors =~= v.survivors);
            assert(outstanding(w) == outstanding(v));
            lemma_next_probe(w);
        },
        Stage::GraceProbe => {
            lemma_probed_safe(v);
            let p = probed(v);
            if ev == EngineEvent::Alive(true) {
                let w = EngineView { survivors: v.survivors.push(p), index: v.index + 1, ..v };
                lemma_survive_probed(v, w);
                assert(w.survivors.last() == p);
                lemma_next_probe(w);
            } else {
                let status = if is_finder_target(p) {
                    TerminationStatusCode::SuccessAppKit
                } else {
                    TerminationStatusCode::SuccessSigterm
                };
                let w = EngineView {
                    sigterm: v.sigterm + 1,
                    index: v.index + 1,
                    ..with_outcome(v, p, status, None)
                };
                let w0 = EngineView { index: v.index + 1, ..with_outcome(v, p, status, None) };
                lemma_record_probed(v, status, None, w0);
                assert(outstanding(w) == outstanding(w0));
                lemma_next_probe(w);
            }
        },
        Stage::Kill => {
            lemma_probed_safe(v);
            let p = probed(v);
            if let EngineEvent::Sent(o) = ev {
                let (status, error, k, f) = if o is Delivered {
                    (TerminationStatusCode::SuccessSigkill, None, 1int, 0int)
                } else {
                    (TerminationStatusCode::FailedKill, message_of(o), 0int, 1int)
                };
                let w = EngineView {
                    sigkill: v.sigkill + k,
                    failed: v.failed + f,
                    index: v.index + 1,
                    ..with_outcome(v, p, status, error)
                };
                let w0 = EngineView { index: v.index + 1, ..with_outcome(v, p, status, error) };
                lemma_record_probed(v, status, error, w0);
                assert(outstanding(w) == outstanding(w0));
                lemma_next_kill(w);
                assert(r == next_kill(w));
            }
        },
        Stage::LateFinderProbe => {
            lemma_probed_safe(v);
            let p = probed(v);
            let (status, error, t, f) = if ev == EngineEvent::Alive(true) {
                (TerminationStatusCode::FailedTimeout, Some(finder_timeout_text(Language::ZhHans)), 0int, 1int)
            } else {
                (TerminationStatusCode::SuccessAppKit, None, 1int, 0int)
            };
            let w = EngineView {
                sigterm: v.sigterm + t,
                failed: v.failed + f,
                index: v.index + 1,
                ..with_outcome(v, p, status, error)
            };
            let w0 = EngineView { index: v.index + 1, ..with_outcome(v, p, status, error) };
            lemma_record_probed(v, status, error, w0);
            assert(outstanding(w) == outstanding(w0));
            lemma_next_kill(w);
            assert(r == next_kill(w));
        },
        _ => {},
    }
}

proof fn lemma_screened(targets: Seq<AppTarget>, own_pid: i32, parent_pid: i32)
    ensures
        ({
            let (valid, skipped) = screened(targets, own_pid, parent_pid);
            &&& targets.to_multiset() == apps_of(skipped).to_multiset().add(valid.to_multiset())
            &&& forall|i: int|
                0 <= i < valid.len() ==> may_terminate(#[trigger] valid[i], own_pid, parent_pid)
        }),
    decreases targets.len(),
{
    broadcast use vstd::multiset::group_multiset_axioms;
    broadcast use vstd::seq_lib::group_to_multiset_ensures;

    if targets.len() > 0 {
        let prev = targets.drop_last();
        let x = targets.last();
        lemma_screened(prev, own_pid, parent_pid);
        let (v0, o0) = screened(prev, own_pid, parent_pid);
        assert(prev.push(x) == targets);
        match screen_one(x, own_pid, parent_pid) {
            None => {
                assert(v0.push(x).last() == x);
                assert(targets.to_multiset() =~= apps_of(o0).to_multiset().add(
                    v0.push(x).to_multiset(),
                ));
            },
            Some(rec) => {
                lemma_apps_push(o0, rec);
                assert(targets.to_multiset() =~= apps_of(o0.push(rec)).to_multiset().add(
                    v0.to_multiset(),
                ));
            },
        }
    }
}

/// The status of a target that may not be terminated: a caller-lineage skip
/// when its PID is the caller's or its parent's, a critical-daemon skip
/// otherwise.
pub open spec fn skip_status(a: AppTarget, own_pid: i32, parent_pid: i32) -> TerminationStatusCode {
    if a.pid == own_pid || a.pid == parent_pid {
        TerminationStatusCode::SkippedCallerLineage
    } else {
        TerminationStatusCode::SkippedCriticalDaemon
    }
}

/// The safety screen sorts every target exactly once, in order: those that
/// may be terminated are kept, in their order; each of the others gets a
/// skip record of its own, with the status that says why; and every target
/// is either kept or skipped.
pub proof fn lemma_screening(targets: Seq<AppTarget>, own_pid: i32, parent_pid: i32)
    ensures
        ({
            let (valid, skipped) = screened(targets, own_pid, parent_pid);
            &&& valid.len() + skipped.len() == targets.len()
            &&& valid == targets.filter(|a: AppTarget| may_terminate(a, own_pid, parent_pid))
            &&& forall|k: int|
                0 <= k < skipped.len() ==> !may_terminate(#[trigger] skipped[k].app, own_pid, parent_pid)
                    && skipped[k].status == skip_status(skipped[k].app, own_pid, parent_pid)
            &&& apps_of(skipped) == targets.filter(
                |a: AppTarget| !may_terminate(a, own_pid, parent_pid),
            )
        }),
    decreases targets.len(),
{
    reveal_with_fuel(Seq::filter, 1);
    if targets.len() > 0 {
        let prev = targets.drop_last();
        let x = targets.last();
        lemma_screening(prev, own_pid, parent_pid);
        let (v0, o0) = screened(prev, own_pid, parent_pid);
        match screen_one(x, own_pid, parent_pid) {
            None => {},
            Some(rec) => {
                assert(apps_of(o0.push(rec)) =~= apps_of(o0).push(x));
            },
        }
    } else {
        assert(apps_of(Seq::<OutcomeView>::empty()) =~= Seq::<AppTarget>::empty());
    }
}

/// A run starts in a state that satisfies the invariant.
pub proof fn lemma_initial_wf(
    targets: Seq<AppTarget>,
    grace_ms: u64,
    force: bool,
    own_pid: i32,
    parent_pid: i32,
)
    ensures
        engine_wf(engine_initial(targets, grace_ms, force, own_pid, parent_pid)),
{
    let v = engine_initial(targets, grace_ms, force, own_pid, parent_pid);
    lemma_screened(targets, own_pid, parent_pid);
    assert(outstanding(v) =~= v.valid);
}

/// The first action of a run keeps the invariant and the rules of a run; it
/// neither signals Finder nor sends SIGKILL to it.
pub proof fn lemma_start_safe(v: EngineView)
    requires
        engine_wf(v),
        v.stage == Stage::Ready,
    ensures
        !signals_dispatched_finder(engine_start(v).0, engine_start(v).1),
        kill_spares_finder(engine_start(v).0, engine_start(v).1),
        engine_wf(engine_start(v).0),
        acts_safely(engine_start(v).0, engine_start(v).1),
        fits_mode(engine_start(v).0, engine_start(v).1),
        same_run(v, engine_start(v).0),
{
    if v.force {
        lemma_next_force(v);
    } else {
        lemma_next_soft(v);
    }
}

/// Whether an action signals Finder while it is the target being dispatched.
pub open spec fn signals_dispatched_finder(w: EngineView, a: EngineAction) -> bool {
    &&& a is Send
    &&& (w.stage == Stage::SoftTerm || w.stage == Stage::ForceKill)
    &&& is_finder_target(current(w))
}

/// Finder is asked to quit through AppKit before it gets a signal: a step
/// (the first action is covered by `lemma_start_safe`) signals Finder while dispatching it
/// only in graceful mode, in answer to the liveness probe that follows a
/// refused quit request, and only when that probe found it still alive.
pub proof fn lemma_finder_asked_to_quit_first(v: EngineView, ev: EngineEvent)
    requires
        engine_wf(v),
        answers(v.stage, ev),
    ensures
        signals_dispatched_finder(engine_step(v, ev).0, engine_step(v, ev).1) ==> {
            &&& v.stage == Stage::SoftProbe
            &&& ev == EngineEvent::Alive(true)
        },
{
}

/// Whether an action, if it is SIGKILL, goes to a target that is not Finder:
/// the target being dispatched in immediate mode, or a pending target after
/// the grace period.
pub open spec fn kill_spares_finder(w: EngineView, a: EngineAction) -> bool {
    match a {
        EngineAction::Send(p, Signal::Kill) => {
            ||| w.stage == Stage::ForceKill && p == current(w).pid && !is_finder_target(current(w))
            ||| w.stage == Stage::Kill && p == probed(w).pid && !is_finder_target(probed(w))
        },
        _ => true,
    }
}

/// Finder is never sent SIGKILL, in either mode, so that launchd does not
/// take its exit for a crash: every SIGKILL a step sends goes to a target
/// that is not Finder (the first action is covered by `lemma_start_safe`). A Finder still alive after its wait is recorded as a
/// time-out failure instead.
pub proof fn lemma_finder_never_killed(v: EngineView, ev: EngineEvent)
    requires
        engine_wf(v),
        answers(v.stage, ev),
    ensures
        kill_spares_finder(engine_step(v, ev).0, engine_step(v, ev).1),
{
}

/// The target a SIGKILL answer is about: the target being dispatched in
/// immediate mode, the pending target after the grace period.
pub open spec fn killed_target(v: EngineView) -> AppTarget {
    if v.stage == Stage::ForceKill {
        current(v)
    } else {
        probed(v)
    }
}

/// A SIGKILL counts as a kill only when it was delivered. When the answer to
/// a SIGKILL says it failed (permission denied or any other error), the
/// target gets one record, a kill failure carrying the error text, and is
/// counted as failed; the kill and graceful-exit counts do not change. When
/// it was delivered, the record is a successful kill without error and the
/// kill count grows by one. Nothing else is recorded by that step.
pub proof fn lemma_kill_outcome_follows_the_answer(v: EngineView, o: SignalOutcome)
    requires
        engine_wf(v),
        v.stage == Stage::ForceKill || v.stage == Stage::Kill,
    ensures
        ({
            let w = engine_step(v, EngineEvent::Sent(o)).0;
            match o {
                SignalOutcome::Delivered => {
                    &&& w.sigkill == v.sigkill + 1
                    &&& w.failed == v.failed
                    &&& w.sigterm == v.sigterm
                    &&& w.outcomes == v.outcomes.push(
                        OutcomeView {
                            app: killed_target(v),
                            status: TerminationStatusCode::SuccessSigkill,
                            error: None,
                        },
                    )
                },
                SignalOutcome::PermissionDenied(m) | SignalOutcome::Failed(m) => {
                    &&& w.failed == v.failed + 1
                    &&& w.sigkill == v.sigkill
                    &&& w.sigterm == v.sigterm
                    &&& w.outcomes == v.outcomes.push(
                        OutcomeView {
                            app: killed_target(v),
                            status: TerminationStatusCode::FailedKill,
                            error: Some(m@),
                        },
                    )
                },
            }
        }),
{
}

/// What a SIGTERM answer does to the target being dispatched in graceful
/// mode: when delivered, the target waits for the grace period with no
/// record yet; when refused for lack of permission, it is recorded as a
/// permission failure with the error text; when it failed otherwise the
/// process is taken to have exited already and counts as a graceful exit.
/// For Finder (whose SIGTERM follows a refused quit request) any failure is a
/// dispatch failure with the error text.
pub proof fn lemma_sigterm_outcome_follows_the_answer(v: EngineView, o: SignalOutcome)
    requires
        engine_wf(v),
        v.stage == Stage::SoftTerm,
    ensures
        ({
            let w = engine_step(v, EngineEvent::Sent(o)).0;
            let cur = current(v);
            &&& o is Delivered ==> {
                &&& w.outcomes == v.outcomes
                &&& w.pending == v.pending.push(cur)
                &&& w.sigterm == v.sigterm && w.sigkill == v.sigkill && w.failed == v.failed
            }
            &&& !(o is Delivered) ==> w.pending == v.pending
            &&& !(o is Delivered) && is_finder_target(cur) ==> {
                &&& w.failed == v.failed + 1 && w.sigterm == v.sigterm
                &&& w.outcomes == v.outcomes.push(
                    OutcomeView {
                        app: cur,
                        status: TerminationStatusCode::FailedDispatch,
                        error: message_of(o),
                    },
                )
            }
            &&& o is PermissionDenied && !is_finder_target(cur) ==> {
                &&& w.failed == v.failed + 1 && w.sigterm == v.sigterm
                &&& w.outcomes == v.outcomes.push(
                    OutcomeView {
                        app: cur,
                        status: TerminationStatusCode::FailedPermissionDenied,
                        error: message_of(o),
                    },
                )
            }
            &&& o is Failed && !is_finder_target(cur) ==> {
                &&& w.sigterm == v.sigterm + 1 && w.failed == v.failed
                &&& w.outcomes == v.outcomes.push(
                    OutcomeView { app: cur, status: TerminationStatusCode::SuccessSigterm, error: None },
                )
            }
        }),
{
}

/// The grace period is respected: while the time read is under the grace
/// period the engine sleeps 25 ms and the grace period is not over; once it
/// reaches the grace period, the grace period is over (and only then may
/// SIGKILL follow, see `fits_mode`).
pub proof fn lemma_grace_period_is_respected(v: EngineView, e: u64)
    requires
        engine_wf(v),
        v.stage == Stage::GraceClock,
    ensures
        e < v.grace_ms ==> engine_step(v, EngineEvent::Elapsed(e)) == (
            EngineView { stage: Stage::GraceSleep, ..v },
            EngineAction::Sleep(25),
        ),
        e >= v.grace_ms ==> engine_step(v, EngineEvent::Elapsed(e)).0.grace_over,
{
}

/// A probe during the grace period: a target still alive survives to the
/// next pass with no record; one that exited is recorded as a graceful exit
/// (through AppKit for Finder, SIGTERM otherwise) and counted as such.
pub proof fn lemma_probe_outcome_follows_the_answer(v: EngineView, alive: bool)
    requires
        engine_wf(v),
        v.stage == Stage::GraceProbe,
    ensures
        ({
            let w = engine_step(v, EngineEvent::Alive(alive)).0;
            let p = probed(v);
            &&& alive ==> w.outcomes == v.outcomes && w.sigterm == v.sigterm
            &&& !alive ==> {
                &&& w.sigterm == v.sigterm + 1 && w.failed == v.failed && w.sigkill == v.sigkill
                &&& w.outcomes == v.outcomes.push(
                    OutcomeView {
                        app: p,
                        status: if is_finder_target(p) {
                            TerminationStatusCode::SuccessAppKit
                        } else {
                            TerminationStatusCode::SuccessSigterm
                        },
                        error: None,
                    },
                )
            }
        }),
{
}

/// When a run is finished every target given to it has exactly one record,
/// and the counters of graceful exits, forced kills and failures add up to
/// the number of targets.
pub proof fn lemma_finished_run_accounts_for_every_target(v: EngineView)
    requires
        engine_wf(v),
        v.stage == Stage::Finished,
    ensures
        apps_of(v.outcomes).to_multiset() == v.targets.to_multiset(),
        v.outcomes.len() == v.targets.len(),
        v.sigterm + v.sigkill + v.failed == v.targets.len(),
{
    broadcast use vstd::multiset::group_multiset_axioms;
    broadcast use vstd::seq_lib::group_to_multiset_ensures;

    assert(outstanding(v) =~= Seq::<AppTarget>::empty());
    assert(outstanding(v).to_multiset() =~= vstd::multiset::Multiset::<AppTarget>::empty());
    assert(apps_of(v.outcomes).to_multiset() =~= v.targets.to_multiset());
    assert(apps_of(v.outcomes).len() == v.outcomes.len());
    vstd::seq_lib::to_multiset_len(apps_of(v.outcomes));
    vstd::seq_lib::to_multiset_len(v.targets);
}


/// How a record describes a termination status.
pub open spec fn record_status_text(s: TerminationStatusCode) -> Seq<char> {
    match s {
        TerminationStatusCode::SuccessSigterm => "终止成功"@,
        TerminationStatusCode::SuccessSigkill => "强制终止成功 (SIGKILL)"@,
        TerminationStatusCode::SuccessAppKit => "终止成功"@,
        TerminationStatusCode::SkippedCallerLineage => "保护调用者会话，跳过终止"@,
        TerminationStatusCode::SkippedCriticalDaemon => "系统底层守护进程受常驻保护，已跳过终止"@,
        TerminationStatusCode::FailedPermissionDenied => "权限拒绝"@,
        TerminationStatusCode::FailedDispatch => "退出派发失败"@,
        TerminationStatusCode::FailedTimeout => "终止超时 (访达)"@,
        TerminationStatusCode::FailedKill => "强制终止失败 (SIGKILL)"@,
        TerminationStatusCode::Unknown => "未知状态"@,
    }
}

/// The means of termination a record names for a status, if any.
pub open spec fn record_signal_text(s: TerminationStatusCode) -> Option<Seq<char>> {
    match s {
        TerminationStatusCode::SuccessSigterm => Some("SIGTERM"@),
        TerminationStatusCode::SuccessSigkill => Some("SIGKILL"@),
        TerminationStatusCode::SuccessAppKit => Some("NSApplicationTerminate"@),
        TerminationStatusCode::FailedPermissionDenied => Some("SIGTERM"@),
        TerminationStatusCode::FailedKill => Some("SIGKILL"@),
        _ => None,
    }
}

/// The details of terminating one application.
#[derive(Debug)]
pub struct ProcessTerminationRecord {
    pub app: AppTarget,
    pub status: String,
    pub exit_signal: Option<String>,
    pub error_msg: Option<String>,
}

/// The contents of a record.
pub struct RecordView {
    pub app: AppTarget,
    pub status: Seq<char>,
    pub exit_signal: Option<Seq<char>>,
    pub error_msg: Option<Seq<char>>,
}

impl View for ProcessTerminationRecord {
    type V = RecordView;

    open spec fn view(&self) -> RecordView {
        RecordView {
            app: self.app,
            status: self.status@,
            exit_signal: opt_text(self.exit_signal),
            error_msg: opt_text(self.error_msg),
        }
    }
}

/// The record that reports an outcome.
pub open spec fn record_of(o: OutcomeView) -> RecordView {
    RecordView {
        app: o.app,
        status: record_status_text(o.status),
        exit_signal: record_signal_text(o.status),
        error_msg: o.error,
    }
}

/// The summary of a termination run: how many targets, how many exited on
/// request (SIGTERM or AppKit), how many were killed, how many failed or
/// were skipped, and one record per target.
#[derive(Debug)]
pub struct TerminationReport {
    pub total_targets: usize,
    pub terminated_sigterm: usize,
    pub terminated_sigkill: usize,
    pub failed: usize,
    pub records: Vec<ProcessTerminationRecord>,
}

impl Default for TerminationReport {
    fn default() -> (r: Self)
        ensures
            r.total_targets == 0,
            r.terminated_sigterm == 0,
            r.terminated_sigkill == 0,
            r.failed == 0,
            r.records@.len() == 0,
    {
        TerminationReport {
            total_targets: 0,
            terminated_sigterm: 0,
            terminated_sigkill: 0,
            failed: 0,
            records: Vec::new(),
        }
    }
}

/// A record made for an outcome.
fn make_record(o: &Outcome) -> (r: ProcessTerminationRecord)
    ensures
        r@ == record_of(o@),
{
    let status: &str = match o.status {
        TerminationStatusCode::SuccessSigterm => "终止成功",
        TerminationStatusCode::SuccessSigkill => "强制终止成功 (SIGKILL)",
        TerminationStatusCode::SuccessAppKit => "终止成功",
        TerminationStatusCode::SkippedCallerLineage => "保护调用者会话，跳过终止",
        TerminationStatusCode::SkippedCriticalDaemon => "系统底层守护进程受常驻保护，已跳过终止",
        TerminationStatusCode::FailedPermissionDenied => "权限拒绝",
        TerminationStatusCode::FailedDispatch => "退出派发失败",
        TerminationStatusCode::FailedTimeout => "终止超时 (访达)",
        TerminationStatusCode::FailedKill => "强制终止失败 (SIGKILL)",
        TerminationStatusCode::Unknown => "未知状态",
    };
    let exit_signal: Option<String> = match o.status {
        TerminationStatusCode::SuccessSigterm => Some(String::from_str("SIGTERM")),
        TerminationStatusCode::SuccessSigkill => Some(String::from_str("SIGKILL")),
        TerminationStatusCode::SuccessAppKit => Some(String::from_str("NSApplicationTerminate")),
        TerminationStatusCode::FailedPermissionDenied => Some(String::from_str("SIGTERM")),
        TerminationStatusCode::FailedKill => Some(String::from_str("SIGKILL")),
        _ => None,
    };
    let error_msg: Option<String> = match &o.error {
        Some(e) => Some(e.clone()),
        None => None,
    };
    ProcessTerminationRecord {
        app: o.app.duplicate(),
        status: String::from_str(status),
        exit_signal,
        error_msg,
    }
}

/// The outcome recorded for one target.
#[derive(Debug)]
pub struct Outcome {
    pub app: AppTarget,
    pub status: TerminationStatusCode,
    pub error: Option<String>,
}

impl View for Outcome {
    type V = OutcomeView;

    open spec fn view(&self) -> OutcomeView {
        OutcomeView { app: self.app, status: self.status, error: opt_text(self.error) }
    }
}

/// The error of a Finder that outlived its wait, in the records' language.
fn finder_timeout_message() -> (r: Option<String>)
    ensures
        opt_text(r) == Some(finder_timeout_text(Language::ZhHans)),
{
    Some(String::from_str(CoreMessages::finder_timeout_error(Language::ZhHans)))
}

/// The text of a signal failure, if any.
fn message_text(o: SignalOutcome) -> (r: Option<String>)
    ensures
        opt_text(r) == message_of(o),
{
    match o {
        SignalOutcome::Delivered => None,
        SignalOutcome::PermissionDenied(m) => Some(m),
        SignalOutcome::Failed(m) => Some(m),
    }
}

proof fn lemma_lengths(v: EngineView)
    requires
        v.targets.to_multiset() == apps_of(v.outcomes).to_multiset().add(
            outstanding(v).to_multiset(),
        ),
    ensures
        v.outcomes.len() + outstanding(v).len() == v.targets.len(),
{
    broadcast use vstd::multiset::group_multiset_axioms;

    vstd::seq_lib::to_multiset_len(apps_of(v.outcomes));
    vstd::seq_lib::to_multiset_len(outstanding(v));
    vstd::seq_lib::to_multiset_len(v.targets);
}

/// A tiered termination run over a list of targets, driven step by step: the
/// engine decides, its driver performs each action (a signal, an AppKit quit
/// request, a liveness probe, the timer or a sleep) and reports the result.
///
/// Targets that are the caller, its parent or a critical system daemon are
/// recorded as skipped and never acted on. In graceful mode each remaining
/// target gets SIGTERM (Finder an AppKit quit request instead, falling back
/// to SIGTERM), the pending ones are polled every 25 ms for the grace period,
/// and those still alive then get SIGKILL. In immediate mode each gets SIGKILL
/// at once, except Finder, which is asked to quit and watched for 250 ms.
/// Finder is never sent SIGKILL: one still alive after its wait is recorded
/// as a time-out failure, so that launchd does not respawn it.
pub struct TieredTermination {
    targets: Ghost<Seq<AppTarget>>,
    total_targets: usize,
    own_pid: i32,
    parent_pid: i32,
    force: bool,
    grace_ms: u64,
    valid: Vec<AppTarget>,
    cursor: usize,
    pending: Vec<AppTarget>,
    survivors: Vec<AppTarget>,
    index: usize,
    outcomes: Vec<Outcome>,
    sigterm: usize,
    sigkill: usize,
    failed: usize,
    grace_over: bool,
    stage: Stage,
}

impl View for TieredTermination {
    type V = EngineView;

    closed spec fn view(&self) -> EngineView {
        EngineView {
            targets: self.targets@,
            own_pid: self.own_pid,
            parent_pid: self.parent_pid,
            force: self.force,
            grace_ms: self.grace_ms,
            valid: self.valid@,
            cursor: self.cursor as int,
            pending: self.pending@,
            survivors: self.survivors@,
            index: self.index as int,
            outcomes: self.outcomes@.map_values(|o: Outcome| o@),
            sigterm: self.sigterm as int,
            sigkill: self.sigkill as int,
            failed: self.failed as int,
            grace_over: self.grace_over,
            stage: self.stage,
        }
    }
}

impl TieredTermination {
    /// Whether the run's state is consistent; every run the public functions
    /// produce is.
    pub closed spec fn inv(&self) -> bool {
        &&& engine_wf(self@)
        &&& self.total_targets == self@.targets.len()
    }

    /// A run over `targets` for a caller with the given PID and parent PID,
    /// with the given grace period, in immediate mode or not. Targets that are
    /// the caller, its parent or a critical system daemon are recorded as
    /// skipped here.
    pub fn new(
        targets: &[AppTarget],
        grace_period_ms: u64,
        force_immediate: bool,
        own_pid: i32,
        parent_pid: i32,
    ) -> (r: Self)
        ensures
            r.inv(),
            r@ == engine_initial(targets@, grace_period_ms, force_immediate, own_pid, parent_pid),
    {
        let mut valid: Vec<AppTarget> = Vec::new();
        let mut outcomes: Vec<Outcome> = Vec::new();
        let mut i: usize = 0;
        while i < targets.len()
            invariant
                i <= targets@.len(),
                (valid@, outcomes@.map_values(|o: Outcome| o@)) == screened(
                    targets@.subrange(0, i as int),
                    own_pid,
                    parent_pid,
                ),
            decreases targets.len() - i,
        {
            let t = &targets[i];
            proof {
                let pre = targets@.subrange(0, i + 1);
                assert(pre.drop_last() == targets@.subrange(0, i as int));
                assert(pre.last() == targets@[i as int]);
            }
            let ghost before = outcomes@.map_values(|o: Outcome| o@);
            if t.pid == own_pid || t.pid == parent_pid {
                outcomes.push(
                    Outcome {
                        app: t.duplicate(),
                        status: TerminationStatusCode::SkippedCallerLineage,
                        error: Some(String::from_str("当前执行会话或父进程处于受保护状态")),
                    },
                );
                assert(outcomes@.map_values(|o: Outcome| o@) =~= before.push(
                    screen_one(*t, own_pid, parent_pid)->0,
                ));
            } else if WhitelistManager::is_critical_system_daemon(t.bundle_id.as_str())
                || WhitelistManager::is_critical_system_daemon(t.name.as_str()) {
                outcomes.push(
                    Outcome {
                        app: t.duplicate(),
                        status: TerminationStatusCode::SkippedCriticalDaemon,
                        error: Some(String::from_str("系统底层关键守护服务禁止强制终止")),
                    },
                );
                assert(outcomes@.map_values(|o: Outcome| o@) =~= before.push(
                    screen_one(*t, own_pid, parent_pid)->0,
                ));
            } else {
                valid.push(t.duplicate());
            }
            i = i + 1;
        }
        assert(targets@.subrange(0, targets@.len() as int) == targets@);
        proof {
            lemma_initial_wf(targets@, grace_period_ms, force_immediate, own_pid, parent_pid);
            lemma_lengths(engine_initial(targets@, grace_period_ms, force_immediate, own_pid, parent_pid));
        }
        let failed = outcomes.len();
        TieredTermination {
            targets: Ghost(targets@),
            total_targets: targets.len(),
            own_pid,
            parent_pid,
            force: force_immediate,
            grace_ms: grace_period_ms,
            valid,
            cursor: 0,
            pending: Vec::new(),
            survivors: Vec::new(),
            index: 0,
            outcomes,
            sigterm: 0,
            sigkill: 0,
            failed,
            grace_over: false,
            stage: Stage::Ready,
        }
    }

    /// The stage the run is in.
    pub fn stage(&self) -> (r: Stage)
        ensures
            r == self@.stage,
    {
        self.stage
    }

    /// Whether `ev` is a fitting answer to the action the run waits on.
    pub fn accepts(&self, ev: &EngineEvent) -> (r: bool)
        ensures
            r == answers(self@.stage, *ev),
    {
        match ev {
            EngineEvent::Done => self.stage == Stage::ForceTimer || self.stage == Stage::ForceSleep
                || self.stage == Stage::GraceTimer || self.stage == Stage::GraceSleep,
            EngineEvent::QuitRequested(_) => self.stage == Stage::ForceQuit || self.stage
                == Stage::SoftQuit,
            EngineEvent::Alive(_) => self.stage == Stage::ForceProbe || self.stage
                == Stage::ForceFinalProbe || self.stage == Stage::SoftProbe || self.stage
                == Stage::LateFinderProbe || self.stage
                == Stage::GraceProbe,
            EngineEvent::Sent(_) => self.stage == Stage::ForceKill || self.stage == Stage::SoftTerm
                || self.stage == Stage::Kill,
            EngineEvent::Elapsed(_) => self.stage == Stage::ForceClock || self.stage
                == Stage::GraceClock,
        }
    }

    fn current_is_finder(&self) -> (r: bool)
        requires
            self.cursor < self.valid@.len(),
        ensures
            r == is_finder_target(current(self@)),
    {
        is_finder(self.valid[self.cursor].bundle_id.as_str()) || is_finder(
            self.valid[self.cursor].name.as_str(),
        )
    }

    fn advance_force(&mut self) -> (a: EngineAction)
        requires
            old(self).cursor <= old(self).valid@.len(),
        ensures
            (final(self)@, a) == next_force(old(self)@),
            final(self).total_targets == old(self).total_targets,
    {
        if self.cursor >= self.valid.len() {
            self.stage = Stage::Finished;
            EngineAction::Finish
        } else if self.current_is_finder() {
            self.stage = Stage::ForceQuit;
            EngineAction::RequestQuit(self.valid[self.cursor].pid)
        } else {
            self.stage = Stage::ForceKill;
            EngineAction::Send(self.valid[self.cursor].pid, Signal::Kill)
        }
    }

    fn advance_soft(&mut self) -> (a: EngineAction)
        requires
            old(self).cursor <= old(self).valid@.len(),
        ensures
            (final(self)@, a) == next_soft(old(self)@),
            final(self).total_targets == old(self).total_targets,
    {
        if self.cursor >= self.valid.len() {
            if self.pending.len() == 0 {
                self.stage = Stage::Finished;
                EngineAction::Finish
            } else {
                self.stage = Stage::GraceTimer;
                EngineAction::StartTimer
            }
        } else if self.current_is_finder() {
            self.stage = Stage::SoftQuit;
            EngineAction::RequestQuit(self.valid[self.cursor].pid)
        } else {
            self.stage = Stage::SoftTerm;
            EngineAction::Send(self.valid[self.cursor].pid, Signal::Term)
        }
    }

    fn advance_probe(&mut self) -> (a: EngineAction)
        requires
            old(self).index <= old(self).pending@.len(),
        ensures
            (final(self)@, a) == next_probe(old(self)@),
            final(self).total_targets == old(self).total_targets,
    {
        if self.index < self.pending.len() {
            self.stage = Stage::GraceProbe;
            EngineAction::ProbeAlive(self.pending[self.index].pid)
        } else if self.survivors.len() == 0 {
            self.pending = Vec::new();
            self.index = 0;
            self.stage = Stage::Finished;
            assert(self@.pending =~= Seq::<AppTarget>::empty());
            EngineAction::Finish
        } else {
            std::mem::swap(&mut self.pending, &mut self.survivors);
            self.survivors = Vec::new();
            self.index = 0;
            self.stage = Stage::GraceClock;
            assert(self@.survivors =~= Seq::<AppTarget>::empty());
            EngineAction::ReadTimer
        }
    }

    fn advance_kill(&mut self) -> (a: EngineAction)
        requires
            old(self).index <= old(self).pending@.len(),
        ensures
            (final(self)@, a) == next_kill(old(self)@),
            final(self).total_targets == old(self).total_targets,
    {
        if self.index < self.pending.len() {
            let p = &self.pending[self.index];
            if is_finder(p.bundle_id.as_str()) || is_finder(p.name.as_str()) {
                self.stage = Stage::LateFinderProbe;
                EngineAction::ProbeAlive(self.pending[self.index].pid)
            } else {
                self.stage = Stage::Kill;
                EngineAction::Send(self.pending[self.index].pid, Signal::Kill)
            }
        } else {
            self.stage = Stage::Finished;
            EngineAction::Finish
        }
    }

    /// Records the outcome of the current valid target and moves past it.
    fn record_current(&mut self, status: TerminationStatusCode, error: Option<String>)
        requires
            old(self).cursor < old(self).valid@.len(),
        ensures
            final(self)@ == (EngineView {
                cursor: old(self)@.cursor + 1,
                ..with_outcome(old(self)@, current(old(self)@), status, opt_text(error))
            }),
            final(self).total_targets == old(self).total_targets,
    {
        let n = self.valid.len();
        let app = self.valid[self.cursor].duplicate();
        let ghost before = self@.outcomes;
        self.outcomes.push(Outcome { app, status, error });
        self.cursor = self.cursor + 1;
        assert(self@.outcomes =~= before.push(
            OutcomeView { app: current(old(self)@), status, error: opt_text(error) },
        ));
    }

    /// Records the outcome of the probed pending target and moves past it.
    fn record_probed(&mut self, status: TerminationStatusCode, error: Option<String>)
        requires
            old(self).index < old(self).pending@.len(),
        ensures
            final(self)@ == (EngineView {
                index: old(self)@.index + 1,
                ..with_outcome(old(self)@, probed(old(self)@), status, opt_text(error))
            }),
            final(self).total_targets == old(self).total_targets,
    {
        let n = self.pending.len();
        let app = self.pending[self.index].duplicate();
        let ghost before = self@.outcomes;
        self.outcomes.push(Outcome { app, status, error });
        self.index = self.index + 1;
        assert(self@.outcomes =~= before.push(
            OutcomeView { app: probed(old(self)@), status, error: opt_text(error) },
        ));
    }

    /// Starts the run: the first action.
    pub fn start(&mut self) -> (a: EngineAction)
        requires
            old(self).inv(),
            old(self)@.stage == Stage::Ready,
        ensures
            final(self).inv(),
            (final(self)@, a) == engine_start(old(self)@),
            acts_safely(final(self)@, a),
            fits_mode(final(self)@, a),
            kill_spares_finder(final(self)@, a),
    {
        proof {
            lemma_start_safe(self@);
        }
        if self.force {
            self.advance_force()
        } else {
            self.advance_soft()
        }
    }

    /// Takes the answer to the last action and returns the next action.
    pub fn step(&mut self, ev: EngineEvent) -> (a: EngineAction)
        requires
            old(self).inv(),
            answers(old(self)@.stage, ev),
        ensures
            final(self).inv(),
            (final(self)@, a) == engine_step(old(self)@, ev),
            acts_safely(final(self)@, a),
            fits_mode(final(self)@, a),
            kill_spares_finder(final(self)@, a),
            same_run(old(self)@, final(self)@),
    {
        proof {
            lemma_step_safe(self@, ev);
            lemma_finder_never_killed(self@, ev);
            lemma_lengths(self@);
        }
        match self.stage {
            Stage::ForceQuit => match ev {
                EngineEvent::QuitRequested(true) => {
                    self.stage = Stage::ForceTimer;
                    EngineAction::StartTimer
                },
                _ => {
                    self.stage = Stage::ForceFinalProbe;
                    EngineAction::ProbeAlive(self.valid[self.cursor].pid)
                },
            },
            Stage::ForceTimer => {
                self.stage = Stage::ForceClock;
                EngineAction::ReadTimer
            },
            Stage::ForceClock => match ev {
                EngineEvent::Elapsed(e) => {
                    if e < 250 {
                        self.stage = Stage::ForceProbe;
                    } else {
                        self.stage = Stage::ForceFinalProbe;
                    }
                    EngineAction::ProbeAlive(self.valid[self.cursor].pid)
                },
                _ => EngineAction::Finish,
            },
            Stage::ForceProbe => match ev {
                EngineEvent::Alive(true) => {
                    self.stage = Stage::ForceSleep;
                    EngineAction::Sleep(20)
                },
                _ => {
                    self.stage = Stage::ForceFinalProbe;
                    EngineAction::ProbeAlive(self.valid[self.cursor].pid)
                },
            },
            Stage::ForceSleep => {
                self.stage = Stage::ForceClock;
                EngineAction::ReadTimer
            },
            Stage::ForceFinalProbe => match ev {
                EngineEvent::Alive(true) => {
                    self.record_current(TerminationStatusCode::FailedTimeout, finder_timeout_message());
                    self.failed = self.failed + 1;
                    self.advance_force()
                },
                _ => {
                    self.record_current(TerminationStatusCode::SuccessAppKit, None);
                    self.sigkill = self.sigkill + 1;
                    self.advance_force()
                },
            },
            Stage::ForceKill => match ev {
                EngineEvent::Sent(SignalOutcome::Delivered) => {
                    self.record_current(TerminationStatusCode::SuccessSigkill, None);
                    self.sigkill = self.sigkill + 1;
                    self.advance_force()
                },
                EngineEvent::Sent(o) => {
                    self.record_current(TerminationStatusCode::FailedKill, message_text(o));
                    self.failed = self.failed + 1;
                    self.advance_force()
                },
                _ => EngineAction::Finish,
            },
            Stage::SoftQuit => match ev {
                EngineEvent::QuitRequested(true) => {
                    let n = self.valid.len();
                    let app = self.valid[self.cursor].duplicate();
                    self.pending.push(app);
                    self.cursor = self.cursor + 1;
                    self.advance_soft()
                },
                _ => {
                    self.stage = Stage::SoftProbe;
                    EngineAction::ProbeAlive(self.valid[self.cursor].pid)
                },
            },
            Stage::SoftProbe => match ev {
                EngineEvent::Alive(true) => {
                    self.stage = Stage::SoftTerm;
                    EngineAction::Send(self.valid[self.cursor].pid, Signal::Term)
                },
                _ => {
                    self.record_current(TerminationStatusCode::SuccessAppKit, None);
                    self.sigterm = self.sigterm + 1;
                    self.advance_soft()
                },
            },
            Stage::SoftTerm => match ev {
                EngineEvent::Sent(SignalOutcome::Delivered) => {
                    let n = self.valid.len();
                    let app = self.valid[self.cursor].duplicate();
                    self.pending.push(app);
                    self.cursor = self.cursor + 1;
                    self.advance_soft()
                },
                EngineEvent::Sent(o) => {
                    if self.current_is_finder() {
                        self.record_current(TerminationStatusCode::FailedDispatch, message_text(o));
                        self.failed = self.failed + 1;
                    } else if let SignalOutcome::PermissionDenied(m) = o {
                        self.record_current(TerminationStatusCode::FailedPermissionDenied, Some(m));
                        self.failed = self.failed + 1;
                    } else {
                        self.record_current(TerminationStatusCode::SuccessSigterm, None);
                        self.sigterm = self.sigterm + 1;
                    }
                    self.advance_soft()
                },
                _ => EngineAction::Finish,
            },
            Stage::GraceTimer => {
                self.stage = Stage::GraceClock;
                EngineAction::ReadTimer
            },
            Stage::GraceClock => match ev {
                EngineEvent::Elapsed(e) => {
                    if e < self.grace_ms {
                        self.stage = Stage::GraceSleep;
                        EngineAction::Sleep(25)
                    } else {
                        self.grace_over = true;
                        self.index = 0;
                        self.advance_kill()
                    }
                },
                _ => EngineAction::Finish,
            },
            Stage::GraceSleep => {
                self.index = 0;
                self.survivors = Vec::new();
                assert(self@.survivors =~= Seq::<AppTarget>::empty());
                self.advance_probe()
            },
            Stage::GraceProbe => match ev {
                EngineEvent::Alive(true) => {
                    let n = self.pending.len();
                    let app = self.pending[self.index].duplicate();
                    self.survivors.push(app);
                    self.index = self.index + 1;
                    self.advance_probe()
                },
                _ => {
                    let finder = is_finder(self.pending[self.index].bundle_id.as_str()) || is_finder(
                        self.pending[self.index].name.as_str(),
                    );
                    if finder {
                        self.record_probed(TerminationStatusCode::SuccessAppKit, None);
                    } else {
                        self.record_probed(TerminationStatusCode::SuccessSigterm, None);
                    }
                    self.sigterm = self.sigterm + 1;
                    self.advance_probe()
                },
            },
            Stage::Kill => match ev {
                EngineEvent::Sent(SignalOutcome::Delivered) => {
                    self.record_probed(TerminationStatusCode::SuccessSigkill, None);
                    self.sigkill = self.sigkill + 1;
                    self.advance_kill()
                },
                EngineEvent::Sent(o) => {
                    self.record_probed(TerminationStatusCode::FailedKill, message_text(o));
                    self.failed = self.failed + 1;
                    self.advance_kill()
                },
                _ => EngineAction::Finish,
            },
            Stage::LateFinderProbe => match ev {
                EngineEvent::Alive(true) => {
                    self.record_probed(TerminationStatusCode::FailedTimeout, finder_timeout_message());
                    self.failed = self.failed + 1;
                    self.advance_kill()
                },
                _ => {
                    self.record_probed(TerminationStatusCode::SuccessAppKit, None);
                    self.sigterm = self.sigterm + 1;
                    self.advance_kill()
                },
            },
            _ => EngineAction::Finish,
        }
    }


    /// The report of a finished run: every target has exactly one record, and
    /// the counters add up to the number of targets.
    pub fn into_report(self) -> (r: TerminationReport)
        requires
            self.inv(),
            self@.stage == Stage::Finished,
        ensures
            r.total_targets == self@.targets.len(),
            r.terminated_sigterm == self@.sigterm,
            r.terminated_sigkill == self@.sigkill,
            r.failed == self@.failed,
            r.records@.map_values(|x: ProcessTerminationRecord| x@) == self@.outcomes.map_values(
                |o: OutcomeView| record_of(o),
            ),
            r.terminated_sigterm + r.terminated_sigkill + r.failed == r.total_targets,
            r.records@.len() == self@.targets.len(),
            r.records@.map_values(|x: ProcessTerminationRecord| x.app).to_multiset()
                == self@.targets.to_multiset(),
    {
        proof {
            lemma_finished_run_accounts_for_every_target(self@);
        }
        let mut records: Vec<ProcessTerminationRecord> = Vec::new();
        let mut i: usize = 0;
        while i < self.outcomes.len()
            invariant
                i <= self.outcomes@.len(),
                records@.len() == i,
                forall|k: int|
                    0 <= k < i ==> #[trigger] records@[k]@ == record_of(self.outcomes@[k]@),
            decreases self.outcomes.len() - i,
        {
            records.push(make_record(&self.outcomes[i]));
            i = i + 1;
        }
        assert(records@.map_values(|x: ProcessTerminationRecord| x@) =~= self@.outcomes.map_values(
            |o: OutcomeView| record_of(o),
        ));
        assert forall|k: int| 0 <= k < records@.len() implies #[trigger] records@[k].app
            == apps_of(self@.outcomes)[k] by {
            assert(records@[k]@ == record_of(self.outcomes@[k]@));
        }
        assert(records@.map_values(|x: ProcessTerminationRecord| x.app) =~= apps_of(self@.outcomes));
        TerminationReport {
            total_targets: self.total_targets,
            terminated_sigterm: self.sigterm,
            terminated_sigkill: self.sigkill,
            failed: self.failed,
            records,
        }
    }

}

} // verus!
