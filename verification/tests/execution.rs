use std::collections::HashSet;

use dbgscope::dbgeng::arrivals::{Arrival, Arrivals, Presence};
use dbgscope::dbgeng::break_in::{kernel_break_in, BreakInCall, KernelBreakIn};
use dbgscope::dbgeng::breaks::{cut_short_by, BreakRequest, BreakScope, Interruption};
use dbgscope::dbgeng::codes::{
    DEBUG_STATUS_BREAK, DEBUG_STATUS_GO, DEBUG_STATUS_NO_DEBUGGEE, E_FAIL, S_FALSE, S_OK,
};
use dbgscope::dbgeng::error::{DbgEngError, EngineFault};
use dbgscope::dbgeng::run::{
    plain_output, EngineCall, Job, OutputCallbacks, Run, RunReport, RunToOutcome,
};
use dbgscope::dbgeng::wait::{
    has_target, is_running_status, lost_its_target, presence_of, pump, record_where_it_stopped,
    refuse_without_a_debuggee, stopped_process, time_left, LiveStep, LiveWait, Verdict,
    WaitOutcome, Waited,
};

fn fault(text: &str) -> EngineFault {
    EngineFault {
        code: E_FAIL,
        text: text.to_string(),
    }
}

/// What the engine answers to a run.
struct Engine {
    statuses: Vec<u32>,
    executed: Result<(), EngineFault>,
    fires: bool,
    pumped: Result<WaitOutcome, DbgEngError>,
    asked: bool,
    pointer: u64,
    output: &'static [u8],
    calls: Vec<EngineCall>,
}

impl Engine {
    fn new() -> Engine {
        Engine {
            statuses: vec![DEBUG_STATUS_BREAK, DEBUG_STATUS_BREAK],
            executed: Ok(()),
            fires: false,
            pumped: Ok(WaitOutcome::Stopped { process: None }),
            asked: false,
            pointer: 0x1000,
            output: b"text",
            calls: Vec::new(),
        }
    }

    fn drive(&mut self, job: Job, command_ok: bool) -> Result<RunReport, DbgEngError> {
        let mut run = Run::new(job, command_ok);
        loop {
            let call = run.next();
            self.calls.push(call);
            match call {
                EngineCall::Begin => run.begun(),
                EngineCall::AskStatus => run.status(Ok(self.statuses.remove(0))),
                EngineCall::AddBreakpoint { .. } => run.breakpoint_added(Ok(())),
                EngineCall::Capture => run.capturing(Ok(())),
                EngineCall::Execute { watchdog_ms } => {
                    run.executed(self.executed.clone(), self.fires && watchdog_ms.is_some())
                }
                EngineCall::Pump { .. } => {
                    let pumped = std::mem::replace(&mut self.pumped, Ok(WaitOutcome::Expired));
                    run.pumped(pumped)
                }
                EngineCall::TakeRequest => run.requested(self.asked),
                EngineCall::Release => run.released(),
                EngineCall::Drain => run.drained(),
                EngineCall::ReadPointer => run.stopped_at(Ok(self.pointer)),
                EngineCall::RemoveBreakpoint => run.breakpoint_removed(),
                EngineCall::Finish => return run.finish(self.output.to_vec()),
            }
        }
    }

    fn made(&self, call: EngineCall) -> bool {
        self.calls.contains(&call)
    }
}

#[test]
fn a_command_that_finishes_has_its_output() {
    let mut engine = Engine::new();
    let report = engine.drive(Job::Command { timeout_ms: 30 }, true);
    match report {
        Ok(RunReport::Ran(run)) => {
            assert_eq!(run.cut_short, None);
            assert!(!run.target_gone);
            assert_eq!(run.into_output(), "text");
        }
        other => panic!("{other:?}"),
    }
    assert!(engine.made(EngineCall::Execute {
        watchdog_ms: Some(30)
    }));
    assert!(!engine.made(EngineCall::Drain));
}

#[test]
fn a_command_without_a_bound_arms_no_watchdog() {
    let mut engine = Engine::new();
    assert!(engine.drive(Job::Command { timeout_ms: 0 }, true).is_ok());
    assert!(engine.made(EngineCall::Execute { watchdog_ms: None }));
}

#[test]
fn a_command_broken_at_its_deadline_keeps_its_output() {
    let mut engine = Engine::new();
    engine.fires = true;
    engine.executed = Err(fault("broken off"));
    match engine.drive(Job::Command { timeout_ms: 30 }, true) {
        Ok(RunReport::Ran(run)) => {
            assert_eq!(run.output, "text");
            assert_eq!(run.cut_short, Some(Interruption::Deadline { after_ms: 30 }));
        }
        other => panic!("{other:?}"),
    }
    assert!(engine.made(EngineCall::Drain));
}

#[test]
fn a_command_a_host_stopped_is_not_called_late() {
    let mut engine = Engine::new();
    engine.asked = true;
    engine.executed = Err(fault("broken off"));
    match engine.drive(Job::Command { timeout_ms: 30 }, true) {
        Ok(RunReport::Ran(run)) => assert_eq!(run.cut_short, Some(Interruption::OnRequest)),
        other => panic!("{other:?}"),
    }
}

#[test]
fn a_command_that_fails_of_itself_fails() {
    let mut engine = Engine::new();
    engine.executed = Err(fault("no such command"));
    assert!(matches!(
        engine.drive(Job::Command { timeout_ms: 30 }, true),
        Err(DbgEngError::CommandFailed(why)) if why.text == "no such command"
    ));
}

#[test]
fn execution_is_refused_without_a_debuggee() {
    for job in [
        Job::Command { timeout_ms: 1 },
        Job::Drive { timeout_ms: 1 },
        Job::RunTo {
            address: 1,
            timeout_ms: 1,
        },
    ] {
        let mut engine = Engine::new();
        engine.statuses = vec![DEBUG_STATUS_NO_DEBUGGEE];
        assert!(matches!(
            engine.drive(job, true),
            Err(DbgEngError::NoDebuggee)
        ));
        engine.calls.retain(|call| *call != EngineCall::Begin);
        assert_eq!(
            engine.calls,
            [EngineCall::AskStatus, EngineCall::Finish],
            "the engine was driven with nothing behind it"
        );
    }
}

#[test]
fn a_go_is_an_operation_before_its_target_is_looked_at() {
    let run_to = Job::RunTo {
        address: 1,
        timeout_ms: 1,
    };
    for (job, first) in [
        (Job::Drive { timeout_ms: 1 }, EngineCall::Begin),
        (run_to, EngineCall::Begin),
        (Job::Command { timeout_ms: 1 }, EngineCall::AskStatus),
    ] {
        let mut engine = Engine::new();
        assert!(engine.drive(job, true).is_ok());
        assert_eq!(engine.calls[0], first);
        let begun = engine.calls.iter().position(|c| *c == EngineCall::Begin);
        let captured = engine.calls.iter().position(|c| *c == EngineCall::Capture);
        assert!(begun.unwrap() < captured.unwrap());
        let begins = engine.calls.iter().filter(|c| **c == EngineCall::Begin);
        assert_eq!(begins.count(), 1);
    }
}

#[test]
fn a_command_with_a_nul_is_refused() {
    let mut engine = Engine::new();
    assert!(matches!(
        engine.drive(Job::Command { timeout_ms: 1 }, false),
        Err(DbgEngError::InvalidCommand)
    ));
    assert!(!engine.made(EngineCall::Capture));
}

#[test]
fn a_target_that_runs_out_during_a_go_is_an_ending() {
    let mut engine = Engine::new();
    engine.statuses = vec![DEBUG_STATUS_BREAK, DEBUG_STATUS_NO_DEBUGGEE];
    engine.pumped = Err(DbgEngError::CommandFailed(fault("catastrophic failure")));
    match engine.drive(Job::Drive { timeout_ms: 5 }, true) {
        Ok(RunReport::Ran(run)) => {
            assert!(run.target_gone);
            assert_eq!(run.output, "text");
        }
        other => panic!("{other:?}"),
    }
}

#[test]
fn there_is_nothing_to_settle_on_a_stopped_engine() {
    let mut engine = Engine::new();
    assert!(matches!(
        engine.drive(Job::Settle { timeout_ms: 5 }, true),
        Ok(RunReport::Nothing)
    ));
    assert_eq!(engine.calls, [EngineCall::AskStatus, EngineCall::Finish]);

    let mut engine = Engine::new();
    engine.statuses = vec![DEBUG_STATUS_GO, DEBUG_STATUS_BREAK];
    assert!(matches!(
        engine.drive(Job::Settle { timeout_ms: 5 }, true),
        Ok(RunReport::Ran(_))
    ));
    assert!(engine.made(EngineCall::Pump { timeout_ms: 5 }));
}

#[test]
fn a_run_to_an_address_says_where_it_stopped() {
    let job = Job::RunTo {
        address: 0x1000,
        timeout_ms: 5,
    };
    for (pointer, pumped, expected) in [
        (
            0x1000,
            WaitOutcome::Stopped { process: None },
            RunToOutcome::Hit,
        ),
        (
            0x2000,
            WaitOutcome::Stopped { process: None },
            RunToOutcome::StoppedElsewhere { stopped_at: 0x2000 },
        ),
        (0x2000, WaitOutcome::Deadline, RunToOutcome::Timeout),
        (0x1000, WaitOutcome::Deadline, RunToOutcome::Hit),
    ] {
        let mut engine = Engine::new();
        engine.pointer = pointer;
        engine.pumped = Ok(pumped);
        match engine.drive(job, true) {
            Ok(RunReport::RanTo(ran)) => assert_eq!(ran.outcome, expected),
            other => panic!("{other:?}"),
        }
        assert!(
            engine.made(EngineCall::RemoveBreakpoint),
            "a breakpoint outlived its run"
        );
    }

    let mut engine = Engine::new();
    engine.statuses = vec![DEBUG_STATUS_BREAK, DEBUG_STATUS_NO_DEBUGGEE];
    match engine.drive(job, true) {
        Ok(RunReport::RanTo(ran)) => assert_eq!(ran.outcome, RunToOutcome::TargetGone),
        other => panic!("{other:?}"),
    }
    assert!(engine.made(EngineCall::RemoveBreakpoint));
}

#[test]
fn output_is_gathered_and_not_overwritten() {
    let mut output = OutputCallbacks::new();
    output.output(Some("first "));
    output.output(None);
    output.output(Some("second é"));
    assert_eq!(output.buffer, "first second é".as_bytes());
}

#[test]
fn output_that_is_no_text_is_replaced() {
    assert_eq!(
        plain_output(Ok(()), Ok(()), vec![b'a', 0xff, b'b']).unwrap(),
        "a\u{fffd}b"
    );
    assert!(matches!(
        plain_output(Err(fault("no callbacks")), Ok(()), Vec::new()),
        Err(DbgEngError::CommandFailed(_))
    ));
    assert!(matches!(
        plain_output(Ok(()), Err(fault("refused")), Vec::new()),
        Err(DbgEngError::CommandFailed(why)) if why.text == "refused"
    ));
}

#[test]
fn a_watchdogs_break_outranks_a_hosts() {
    assert_eq!(
        cut_short_by(true, true, 7),
        Some(Interruption::Deadline { after_ms: 7 })
    );
    assert_eq!(cut_short_by(false, true, 7), Some(Interruption::OnRequest));
    assert_eq!(cut_short_by(false, false, 7), None);
}

#[test]
fn a_request_is_filed_against_the_innermost_operation() {
    let mut scope = BreakScope::default();
    assert!(matches!(
        scope.interrupt(Ok(())),
        Ok(BreakRequest::NothingRunning)
    ));
    let outer = scope.begin();
    let inner = scope.begin();
    match scope.interrupt(Ok(())) {
        Ok(BreakRequest::Raised { operation }) => assert_eq!(operation, inner),
        other => panic!("{other:?}"),
    }
    assert!(scope.take(inner));
    assert!(!scope.take(outer));
}

#[test]
fn a_wait_is_attributed_to_what_ended_it() {
    let finite = |code| Waited::Finite(EngineFault {
        code,
        text: String::new(),
    });
    assert!(matches!(pump(finite(S_OK), false), Ok(Verdict::Stopped)));
    assert!(matches!(
        pump(finite(S_FALSE), false),
        Ok(Verdict::Ended(WaitOutcome::Expired))
    ));
    assert!(matches!(
        pump(finite(S_OK), true),
        Ok(Verdict::Ended(WaitOutcome::OnRequest))
    ));
    assert!(matches!(
        pump(finite(E_FAIL), false),
        Err(DbgEngError::CommandFailed(_))
    ));
    let bounded = Waited::Bounded {
        result: Err(fault("broken in")),
        by_watchdog: true,
    };
    assert!(matches!(
        pump(bounded, true),
        Ok(Verdict::Ended(WaitOutcome::Deadline))
    ));
    assert!(WaitOutcome::Deadline.broke_in());
    assert!(!WaitOutcome::Expired.broke_in());
    assert_eq!(
        WaitOutcome::Deadline.cut_short(9),
        Some(Interruption::Deadline { after_ms: 9 })
    );
    assert_eq!(WaitOutcome::Expired.cut_short(9), None);
}

#[test]
fn only_a_stop_is_delivered() {
    let none = HashSet::new();
    let mut arrivals = Arrivals::default();
    let open = arrivals.register(Arrival::Attached(100));
    let outcome = record_where_it_stopped(
        &mut arrivals,
        Verdict::Ended(WaitOutcome::OnRequest),
        Some((0, 100)),
        &none,
    );
    assert_eq!(outcome, WaitOutcome::OnRequest);
    assert_eq!(
        arrivals.presence(open, &[(0, 100)], &none),
        Presence::Listed
    );
    let process = stopped_process(&Ok(0), &Ok(vec![(0, 100)]));
    assert_eq!(process, Some((0, 100)));
    record_where_it_stopped(&mut arrivals, Verdict::Stopped, process, &none);
    assert_eq!(
        arrivals.presence(open, &[(0, 100)], &none),
        Presence::Arrived
    );
    assert_eq!(stopped_process(&Ok(3), &Ok(vec![(0, 100)])), None);
    assert_eq!(
        stopped_process(&Ok(0), &Err(DbgEngError::NoDebuggee)),
        None
    );
}

#[test]
fn a_reclaimed_engine_id_does_not_reclaim_an_arrival() {
    let none = HashSet::new();
    let mut arrivals = Arrivals::default();
    let first = arrivals.register(Arrival::Attached(100));
    arrivals.deliver((0, 100), &none);
    arrivals.forget(first);
    let second = arrivals.register(Arrival::Attached(100));
    assert!(first.0 < second.0, "an id was handed out again");
    assert_eq!(
        arrivals.presence(second, &[(0, 100)], &none),
        Presence::Listed,
        "an open was given the arrival of one that is gone"
    );
    arrivals.forget_all();
    assert_eq!(
        arrivals.presence(second, &[(0, 100)], &none),
        Presence::Absent
    );
}

#[test]
fn an_empty_session_is_absence_and_a_failed_question_is_not() {
    let none = HashSet::new();
    let mut arrivals = Arrivals::default();
    let open = arrivals.register(Arrival::Attached(100));
    assert_eq!(
        presence_of(&arrivals, open, Ok(false), Ok(Vec::new()), &none),
        Presence::Absent
    );
    assert_eq!(
        presence_of(
            &arrivals,
            open,
            Err(DbgEngError::NoDebuggee),
            Ok(Vec::new()),
            &none
        ),
        Presence::Unknown
    );
    assert_eq!(
        presence_of(
            &arrivals,
            open,
            Ok(true),
            Err(DbgEngError::NoDebuggee),
            &none
        ),
        Presence::Unknown
    );
    let launch = arrivals.register(Arrival::Launched(None));
    assert_eq!(
        presence_of(&arrivals, launch, Ok(true), Ok(vec![(0, 7)]), &none),
        Presence::Unknown
    );
}

#[test]
fn a_live_open_blames_only_a_target_that_is_missing() {
    let wait = LiveWait::default();
    assert!(matches!(
        wait.next(Presence::Absent, 10),
        LiveStep::Pump { timeout_ms: 10 }
    ));
    assert!(matches!(
        wait.next(Presence::Absent, 0),
        LiveStep::Finished(Err(DbgEngError::LiveTargetTimeout))
    ));
    assert!(matches!(
        wait.next(Presence::Listed, 0),
        LiveStep::Finished(Ok(()))
    ));
    assert!(matches!(
        wait.next(Presence::Unknown, 10),
        LiveStep::Pump { .. }
    ));
    let waited = wait.pumped(Ok(WaitOutcome::Expired)).unwrap();
    assert!(matches!(
        waited.next(Presence::Unknown, 10),
        LiveStep::Finished(Ok(()))
    ));
    let stopped = wait.pumped(Ok(WaitOutcome::OnRequest)).unwrap();
    assert!(matches!(
        stopped.next(Presence::Absent, 10),
        LiveStep::Finished(Err(DbgEngError::LiveTargetInterrupted))
    ));
    assert!(wait.pumped(Err(DbgEngError::NoDebuggee)).is_err());
    assert_eq!(time_left(12), 12);
    assert_eq!(time_left(u128::from(u32::MAX) + 1), 30_000);
}

#[test]
fn a_kernel_the_watchdog_broke_in_never_broke_in_itself() {
    let stopped = WaitOutcome::Stopped { process: None };
    assert!(kernel_break_in(Ok(stopped), Ok(DEBUG_STATUS_BREAK)).is_ok());
    assert!(matches!(
        kernel_break_in(Ok(WaitOutcome::Deadline), Ok(DEBUG_STATUS_BREAK)),
        Err(DbgEngError::KernelBreakTimeout)
    ));
    assert!(matches!(
        kernel_break_in(Ok(stopped), Ok(DEBUG_STATUS_NO_DEBUGGEE)),
        Err(DbgEngError::KernelBreakTimeout)
    ));
    assert!(matches!(
        kernel_break_in(Ok(stopped), Err(fault("gone"))),
        Err(DbgEngError::CommandFailed(_))
    ));
}

fn break_in(
    pumped: Result<WaitOutcome, DbgEngError>,
    status: u32,
) -> (Result<(), DbgEngError>, Vec<BreakInCall>) {
    let mut break_in = KernelBreakIn::new();
    let mut pumped = Some(pumped);
    let mut calls = Vec::new();
    loop {
        let call = break_in.next();
        calls.push(call);
        match call {
            BreakInCall::Begin => break_in.begun(),
            BreakInCall::Pump { .. } => break_in.pumped(pumped.take().unwrap()),
            BreakInCall::ClearInitialBreak => break_in.cleared(),
            BreakInCall::AskStatus => break_in.status(Ok(status)),
            BreakInCall::Absorb { .. } => break_in.absorbed(),
            BreakInCall::Finish => return (break_in.finish(), calls),
        }
    }
}

#[test]
fn a_kernels_initial_break_is_taken_back_and_absorbed() {
    let begins = [
        BreakInCall::Begin,
        BreakInCall::Pump { timeout_ms: 60_000 },
        BreakInCall::ClearInitialBreak,
    ];
    let stopped = WaitOutcome::Stopped { process: None };
    for clean in [stopped, WaitOutcome::OnRequest] {
        let (result, calls) = break_in(Ok(clean), DEBUG_STATUS_BREAK);
        assert!(result.is_ok());
        assert_eq!(calls[..3], begins);
        assert_eq!(
            calls[3..],
            [
                BreakInCall::AskStatus,
                BreakInCall::Absorb { timeout_ms: 5_000 },
                BreakInCall::Finish
            ]
        );
    }
    for (outcome, status) in [
        (WaitOutcome::Deadline, DEBUG_STATUS_BREAK),
        (stopped, DEBUG_STATUS_NO_DEBUGGEE),
    ] {
        let (result, calls) = break_in(Ok(outcome), status);
        assert!(matches!(result, Err(DbgEngError::KernelBreakTimeout)));
        assert_eq!(calls[..3], begins);
        assert_eq!(calls[3..], [BreakInCall::AskStatus, BreakInCall::Finish]);
    }
    let (result, calls) = break_in(Err(DbgEngError::NoDebuggee), DEBUG_STATUS_BREAK);
    assert!(matches!(result, Err(DbgEngError::NoDebuggee)));
    assert_eq!(calls[..3], begins);
    assert_eq!(calls[3..], [BreakInCall::Finish]);
}

#[test]
fn a_status_says_whether_there_is_a_target() {
    assert_eq!(has_target(Ok(DEBUG_STATUS_BREAK)).unwrap(), true);
    assert_eq!(has_target(Ok(DEBUG_STATUS_NO_DEBUGGEE)).unwrap(), false);
    assert!(refuse_without_a_debuggee(Ok(DEBUG_STATUS_GO)).is_ok());
    assert!(matches!(
        refuse_without_a_debuggee(Ok(DEBUG_STATUS_NO_DEBUGGEE)),
        Err(DbgEngError::NoDebuggee)
    ));
    assert!(lost_its_target(&Ok(DEBUG_STATUS_NO_DEBUGGEE)));
    assert!(!lost_its_target(&Ok(DEBUG_STATUS_BREAK)));
    assert!(is_running_status(DEBUG_STATUS_GO | 0x20));
}
