//! Bounded execution: a command, a go or a step, a settling and a run to an address, one engine
//! call at a time.
//!
//! A run is the record of what the engine has answered so far. What to ask next, and what the
//! run came to, follow from the record alone.
use vstd::prelude::*;
use vstd::string::*;

use super::breaks::{cut_short_by, Interruption};
use super::codes::DEBUG_STATUS_NO_DEBUGGEE;
use super::error::{DbgEngError, EngineFault};
use super::text::{from_utf8_lossy, utf8_lossy};
use super::wait::{
    is_running_status, lost, lost_its_target, refusal_without_a_debuggee, runs, CommandRun,
    WaitOutcome,
};

verus! {

/// Where execution stopped after a run to an address.
#[derive(Debug, Clone, PartialEq, Eq, Structural)]
pub enum RunToOutcome {
    /// The target reached the requested address.
    Hit,
    /// The target stopped at a different address before reaching the requested one.
    StoppedElsewhere { stopped_at: u64 },
    /// The target did not stop within the timeout.
    Timeout,
    /// The target went away before it reached anything.
    TargetGone,
}

/// A [`RunToOutcome`] and the debugger text captured across the run.
#[derive(Debug, Clone)]
pub struct RunToResult {
    pub outcome: RunToOutcome,
    pub output: String,
}

/// What a run is for.
#[derive(Debug, Clone, Copy, PartialEq, Eq, Structural)]
pub enum Job {
    /// A command, broken off after so many milliseconds, or never where that is none.
    Command { timeout_ms: u32 },
    /// A command that resumes the target, driven to the next stop.
    Drive { timeout_ms: u32 },
    /// Whatever a command left running, pumped to a stop.
    Settle { timeout_ms: u32 },
    /// A go that stops at an address.
    RunTo { address: u64, timeout_ms: u32 },
}

impl Job {
    /// The bound of the run.
    pub open spec fn timeout(self) -> u32 {
        match self {
            Job::Command { timeout_ms } => timeout_ms,
            Job::Drive { timeout_ms } => timeout_ms,
            Job::Settle { timeout_ms } => timeout_ms,
            Job::RunTo { timeout_ms, .. } => timeout_ms,
        }
    }

    fn timeout_ms(&self) -> (timeout_ms: u32)
        ensures
            timeout_ms == self.timeout(),
    {
        match *self {
            Job::Command { timeout_ms } => timeout_ms,
            Job::Drive { timeout_ms } => timeout_ms,
            Job::Settle { timeout_ms } => timeout_ms,
            Job::RunTo { timeout_ms, .. } => timeout_ms,
        }
    }
}

/// What a run asks of the engine next.
#[derive(Debug, Clone, Copy, PartialEq, Eq, Structural)]
pub enum EngineCall {
    /// The operation a break is filed against from here on, open until the run is over.
    Begin,
    /// The execution status.
    AskStatus,
    /// An enabled breakpoint at an address, for as long as the run lasts.
    AddBreakpoint { address: u64 },
    /// The output of what follows.
    Capture,
    /// The command, with a watchdog where one is armed.
    Execute { watchdog_ms: Option<u32> },
    /// A wait for the target to stop, with a watchdog.
    Pump { timeout_ms: u32 },
    /// The break request filed against this run.
    TakeRequest,
    /// No more output.
    Release,
    /// Whatever break is still pending, to be consumed.
    Drain,
    /// Where the target stopped.
    ReadPointer,
    /// No more breakpoint.
    RemoveBreakpoint,
    /// Nothing: the run is over.
    Finish,
}

/// What the engine has answered to a run so far.
pub struct Run {
    pub job: Job,
    /// Whether the command is one the engine can be handed.
    pub command_ok: bool,
    /// Whether the run's operation is open.
    pub begun: bool,
    /// The execution status before anything was done.
    pub before: Option<Result<u32, DbgEngError>>,
    pub breakpoint: Option<Result<(), EngineFault>>,
    pub captured: Option<Result<(), EngineFault>>,
    /// What executing the command came to, and whether its watchdog had fired.
    pub executed: Option<(Result<(), EngineFault>, bool)>,
    pub pumped: Option<Result<WaitOutcome, DbgEngError>>,
    pub asked: Option<bool>,
    pub released: bool,
    /// The execution status once everything was done.
    pub after: Option<Result<u32, DbgEngError>>,
    pub drained: bool,
    pub pointer: Option<Result<u64, DbgEngError>>,
    pub removed: bool,
}

/// What a run came to, apart from its output.
pub enum Report {
    /// There was nothing to settle.
    Nothing,
    /// A command's end.
    Ran { cut_short: Option<Interruption>, target_gone: bool },
    /// A run to an address's end.
    RanTo(RunToOutcome),
}

/// What a run came to, with its output.
#[derive(Debug)]
pub enum RunReport {
    Nothing,
    Ran(CommandRun),
    RanTo(RunToResult),
}

impl Run {
    /// Whether the run ends before it has begun.
    pub open spec fn ends_early(&self) -> bool {
        match self.job {
            Job::Settle { .. } => !(self.before->0 matches Ok(status) && runs(status)),
            _ => refusal_without_a_debuggee(self.before->0) is Some || !self.command_ok,
        }
    }

    /// Whether the command was executed without fail.
    pub open spec fn executed_well(&self) -> bool {
        self.executed matches Some((Ok(_), _))
    }

    /// Whether this run waits for the target.
    pub open spec fn pumps(&self) -> bool {
        match self.job {
            Job::Command { .. } => false,
            Job::Settle { .. } => true,
            Job::Drive { .. } | Job::RunTo { .. } => self.executed_well(),
        }
    }

    /// Whether the break request is this run's own to take: no wait took it.
    pub open spec fn takes_request(&self) -> bool {
        match self.job {
            Job::Command { .. } => true,
            Job::Settle { .. } => false,
            Job::Drive { .. } | Job::RunTo { .. } => !self.executed_well(),
        }
    }

    /// What cut the run short: what the wait says where there was one, or else a watchdog that
    /// fired and a request that was filed.
    pub open spec fn cut_short(&self) -> Option<Interruption> {
        match self.pumped {
            Some(Ok(outcome)) => outcome.interruption(self.job.timeout()),
            Some(Err(_)) => None,
            None => if self.executed matches Some((_, true)) {
                Some(Interruption::Deadline { after_ms: self.job.timeout() })
            } else if self.asked == Some(true) {
                Some(Interruption::OnRequest)
            } else {
                None
            },
        }
    }

    /// The failure of the command or of the wait, where a break does not account for it.
    pub open spec fn failure(&self) -> Option<DbgEngError> {
        match self.executed {
            Some((Err(fault), _)) => Some(DbgEngError::CommandFailed(fault)),
            _ => match self.pumped {
                Some(Err(error)) => Some(error),
                _ => None,
            },
        }
    }

    /// The call that ends a run: its breakpoint, where it has one, is removed first.
    pub open spec fn ending(&self) -> EngineCall {
        if self.breakpoint matches Some(Ok(_)) && !self.removed {
            EngineCall::RemoveBreakpoint
        } else {
            EngineCall::Finish
        }
    }

    /// Whether the operation is opened before anything is asked: a break that comes while a go is
    /// still being prepared is the go's.
    pub open spec fn begins_at_once(&self) -> bool {
        self.job is Drive || self.job is RunTo
    }

    /// What is asked of the engine next.
    pub open spec fn next_call(&self) -> EngineCall {
        if self.begins_at_once() && !self.begun {
            EngineCall::Begin
        } else if self.before is None {
            EngineCall::AskStatus
        } else if self.ends_early() {
            EngineCall::Finish
        } else if !self.begun {
            EngineCall::Begin
        } else if self.job is RunTo && self.breakpoint is None {
            EngineCall::AddBreakpoint { address: self.job->address }
        } else if self.job is RunTo && self.breakpoint matches Some(Err(_)) {
            EngineCall::Finish
        } else if self.captured is None {
            EngineCall::Capture
        } else if self.captured matches Some(Err(_)) {
            self.ending()
        } else if !(self.job is Settle) && self.executed is None {
            EngineCall::Execute {
                watchdog_ms: if self.job is Command && self.job.timeout() > 0 {
                    Some(self.job.timeout())
                } else {
                    None
                },
            }
        } else if self.pumps() && self.pumped is None {
            EngineCall::Pump { timeout_ms: self.job.timeout() }
        } else if self.job is RunTo && self.takes_request() && self.asked is None {
            EngineCall::TakeRequest
        } else if !self.released {
            EngineCall::Release
        } else if self.takes_request() && self.asked is None {
            EngineCall::TakeRequest
        } else {
            self.next_call_after()
        }
    }

    /// What is asked of the engine once the command and the wait are behind.
    pub open spec fn next_call_after(&self) -> EngineCall {
        match self.job {
            Job::Command { .. } => if self.cut_short() is Some && !self.drained {
                EngineCall::Drain
            } else if self.cut_short() is None && self.failure() is Some {
                EngineCall::Finish
            } else if self.after is None {
                EngineCall::AskStatus
            } else {
                EngineCall::Finish
            },
            Job::Drive { .. } | Job::Settle { .. } => if self.after is None {
                EngineCall::AskStatus
            } else if self.cut_short() is Some && !self.drained {
                EngineCall::Drain
            } else {
                EngineCall::Finish
            },
            Job::RunTo { .. } => if self.after is None {
                EngineCall::AskStatus
            } else if lost(self.after->0) || self.failure() is Some || self.pointer is Some {
                self.ending()
            } else {
                EngineCall::ReadPointer
            },
        }
    }

    /// What a run to an address came to, once it stopped: a target the watchdog had to break in
    /// has timed out, unless it was broken in at the address.
    pub open spec fn ran_to(&self) -> Result<RunToOutcome, DbgEngError> {
        let address = self.job->address;
        if self.cut_short() is Some && self.cut_short()->0 is Deadline {
            if self.pointer->0 == Ok::<u64, DbgEngError>(address) {
                Ok(RunToOutcome::Hit)
            } else {
                Ok(RunToOutcome::Timeout)
            }
        } else {
            match self.pointer->0 {
                Err(error) => Err(error),
                Ok(stopped_at) => if stopped_at == address {
                    Ok(RunToOutcome::Hit)
                } else {
                    Ok(RunToOutcome::StoppedElsewhere { stopped_at })
                },
            }
        }
    }

    /// What the run came to.
    pub open spec fn report(&self) -> Result<Report, DbgEngError> {
        if self.job is Settle && self.ends_early() {
            match self.before->0 {
                Err(error) => Err(error),
                Ok(_) => Ok(Report::Nothing),
            }
        } else if self.ends_early() {
            match refusal_without_a_debuggee(self.before->0) {
                Some(error) => Err(error),
                None => Err(DbgEngError::InvalidCommand),
            }
        } else if self.breakpoint matches Some(Err(_)) {
            Err(DbgEngError::BreakpointFailed(self.breakpoint->0->Err_0))
        } else if self.captured matches Some(Err(_)) {
            Err(DbgEngError::CommandFailed(self.captured->0->Err_0))
        } else {
            match self.job {
                Job::Command { .. } => if self.cut_short() is None && self.failure() is Some {
                    Err(self.failure()->0)
                } else {
                    Ok(
                        Report::Ran {
                            cut_short: self.cut_short(),
                            target_gone: lost(self.after->0),
                        },
                    )
                },
                Job::Drive { .. } | Job::Settle { .. } => if self.cut_short() is None && !lost(
                    self.after->0,
                ) && self.failure() is Some {
                    Err(self.failure()->0)
                } else {
                    Ok(
                        Report::Ran {
                            cut_short: self.cut_short(),
                            target_gone: lost(self.after->0),
                        },
                    )
                },
                Job::RunTo { .. } => if lost(self.after->0) {
                    Ok(Report::RanTo(RunToOutcome::TargetGone))
                } else if self.failure() is Some {
                    Err(self.failure()->0)
                } else {
                    match self.ran_to() {
                        Ok(outcome) => Ok(Report::RanTo(outcome)),
                        Err(error) => Err(error),
                    }
                },
            }
        }
    }

    /// What holds of every run that was asked in order.
    pub open spec fn consistent(&self) -> bool {
        &&& self.begins_at_once() && self.before is Some ==> self.begun
        &&& self.begun && !self.begins_at_once() ==> self.before is Some && !self.ends_early()
        &&& self.captured is Some ==> self.begun
        &&& self.breakpoint is Some ==> self.job is RunTo && self.before is Some && !self.ends_early()
        &&& self.captured is Some ==> self.before is Some && !self.ends_early()
        &&& self.captured is Some && self.job is RunTo ==> (self.breakpoint matches Some(Ok(_)))
        &&& self.executed is Some ==> (self.captured matches Some(Ok(_)))
        &&& (self.executed matches Some((_, true))) ==> self.job is Command && self.job.timeout() > 0
        &&& self.pumped is Some ==> (self.captured matches Some(Ok(_))) && self.pumps()
        &&& self.after is Some ==> (self.captured matches Some(Ok(_))) && self.released
    }

    /// How many questions may still be asked.
    pub open spec fn unasked(&self) -> int {
        let one = |open: bool|
            if open {
                1int
            } else {
                0int
            };
        one(!self.begun) + one(self.before is None) + one(self.breakpoint is None) + one(self.captured is None) + one(
            self.executed is None,
        ) + one(self.pumped is None) + one(self.asked is None) + one(!self.released) + one(
            self.after is None,
        ) + one(!self.drained) + one(self.pointer is None) + one(!self.removed)
    }
}

impl Run {
    /// A run that has asked nothing yet. `command_ok` is whether its command holds no NUL.
    pub fn new(job: Job, command_ok: bool) -> (run: Run)
        ensures
            run.job == job,
            run.command_ok == command_ok,
            !run.begun && run.before is None && run.breakpoint is None && run.captured is None
                && run.executed is None && run.pumped is None && run.asked is None && !run.released
                && run.after is None && !run.drained && run.pointer is None && !run.removed,
            run.consistent(),
    {
        Run {
            job,
            command_ok,
            begun: false,
            before: None,
            breakpoint: None,
            captured: None,
            executed: None,
            pumped: None,
            asked: None,
            released: false,
            after: None,
            drained: false,
            pointer: None,
            removed: false,
        }
    }

    fn early(&self) -> (early: bool)
        requires
            self.before is Some,
        ensures
            early == self.ends_early(),
    {
        match self.job {
            Job::Settle { .. } => match &self.before {
                Some(Ok(status)) => !is_running_status(*status),
                _ => true,
            },
            _ => match &self.before {
                Some(Ok(status)) => *status == DEBUG_STATUS_NO_DEBUGGEE || !self.command_ok,
                _ => true,
            },
        }
    }

    fn well_executed(&self) -> (well: bool)
        ensures
            well == self.executed_well(),
    {
        match &self.executed {
            Some((Ok(()), _)) => true,
            _ => false,
        }
    }

    /// What cut the run short, as far as it is known.
    pub fn interruption(&self) -> (cut_short: Option<Interruption>)
        ensures
            cut_short == self.cut_short(),
    {
        let timeout_ms: u32 = self.job.timeout_ms();
        match &self.pumped {
            Some(Ok(outcome)) => outcome.cut_short(timeout_ms),
            Some(Err(_)) => None,
            None => {
                let by_watchdog: bool = match &self.executed {
                    Some((_, by_watchdog)) => *by_watchdog,
                    None => false,
                };
                let asked: bool = match self.asked {
                    Some(asked) => asked,
                    None => false,
                };
                cut_short_by(by_watchdog, asked, timeout_ms)
            },
        }
    }

    fn failed(&self) -> (failed: bool)
        ensures
            failed == self.failure() is Some,
    {
        let command: bool = match &self.executed {
            Some((Err(_), _)) => true,
            _ => false,
        };
        let wait: bool = match &self.pumped {
            Some(Err(_)) => true,
            _ => false,
        };
        command || wait
    }

    fn last_call(&self) -> (call: EngineCall)
        ensures
            call == self.ending(),
    {
        match &self.breakpoint {
            Some(Ok(())) => if self.removed {
                EngineCall::Finish
            } else {
                EngineCall::RemoveBreakpoint
            },
            _ => EngineCall::Finish,
        }
    }

    /// What to ask of the engine next.
    pub fn next(&self) -> (call: EngineCall)
        ensures
            call == self.next_call(),
    {
        let at_once: bool = matches!(self.job, Job::Drive { .. } | Job::RunTo { .. });
        if at_once && !self.begun {
            return EngineCall::Begin;
        }
        if self.before.is_none() {
            return EngineCall::AskStatus;
        }
        if self.early() {
            return EngineCall::Finish;
        }
        if !self.begun {
            return EngineCall::Begin;
        }
        if let Job::RunTo { address, .. } = self.job {
            match &self.breakpoint {
                None => return EngineCall::AddBreakpoint { address },
                Some(Err(_)) => return EngineCall::Finish,
                Some(Ok(())) => {},
            }
        }
        match &self.captured {
            None => return EngineCall::Capture,
            Some(Err(_)) => return self.last_call(),
            Some(Ok(())) => {},
        }
        let timeout_ms: u32 = self.job.timeout_ms();
        let settles: bool = matches!(self.job, Job::Settle { .. });
        let commands: bool = matches!(self.job, Job::Command { .. });
        let runs_to: bool = matches!(self.job, Job::RunTo { .. });
        if !settles && self.executed.is_none() {
            return EngineCall::Execute {
                watchdog_ms: if commands && timeout_ms > 0 {
                    Some(timeout_ms)
                } else {
                    None
                },
            };
        }
        let well: bool = self.well_executed();
        let pumps: bool = settles || (!commands && well);
        let requests: bool = commands || (!settles && !well);
        if pumps && self.pumped.is_none() {
            return EngineCall::Pump { timeout_ms };
        }
        if runs_to && requests && self.asked.is_none() {
            return EngineCall::TakeRequest;
        }
        if !self.released {
            return EngineCall::Release;
        }
        if requests && self.asked.is_none() {
            return EngineCall::TakeRequest;
        }
        let interrupted: bool = self.interruption().is_some();
        match self.job {
            Job::Command { .. } => {
                if interrupted && !self.drained {
                    EngineCall::Drain
                } else if !interrupted && self.failed() {
                    EngineCall::Finish
                } else if self.after.is_none() {
                    EngineCall::AskStatus
                } else {
                    EngineCall::Finish
                }
            },
            Job::Drive { .. } | Job::Settle { .. } => {
                if self.after.is_none() {
                    EngineCall::AskStatus
                } else if interrupted && !self.drained {
                    EngineCall::Drain
                } else {
                    EngineCall::Finish
                }
            },
            Job::RunTo { .. } => match &self.after {
                None => EngineCall::AskStatus,
                Some(after) => if lost_its_target(after) || self.failed() || self.pointer.is_some() {
                    self.last_call()
                } else {
                    EngineCall::ReadPointer
                },
            },
        }
    }

    /// The run's operation is open.
    pub fn begun(&mut self)
        requires
            old(self).consistent(),
            old(self).next_call() == EngineCall::Begin,
        ensures
            *final(self) == (Run { begun: true, ..*old(self) }),
            final(self).consistent(),
            final(self).unasked() < old(self).unasked(),
    {
        self.begun = true;
    }

    /// Takes the execution status.
    pub fn status(&mut self, status: Result<u32, DbgEngError>)
        requires
            old(self).consistent(),
            old(self).next_call() == EngineCall::AskStatus,
        ensures
            old(self).before is None ==> *final(self) == (Run { before: Some(status), ..*old(self) }),
            old(self).before is Some ==> *final(self) == (Run { after: Some(status), ..*old(self) }),
            final(self).consistent(),
            final(self).unasked() < old(self).unasked(),
    {
        if self.before.is_none() {
            self.before = Some(status);
        } else {
            self.after = Some(status);
        }
    }

    /// Takes what adding the breakpoint came to.
    pub fn breakpoint_added(&mut self, added: Result<(), EngineFault>)
        requires
            old(self).consistent(),
            old(self).next_call() is AddBreakpoint,
        ensures
            *final(self) == (Run { breakpoint: Some(added), ..*old(self) }),
            final(self).consistent(),
            final(self).unasked() < old(self).unasked(),
    {
        self.breakpoint = Some(added);
    }

    /// Takes whether the output is being captured.
    pub fn capturing(&mut self, captured: Result<(), EngineFault>)
        requires
            old(self).consistent(),
            old(self).next_call() == EngineCall::Capture,
        ensures
            *final(self) == (Run { captured: Some(captured), ..*old(self) }),
            final(self).consistent(),
            final(self).unasked() < old(self).unasked(),
    {
        self.captured = Some(captured);
    }

    /// Takes what executing the command came to, and whether its watchdog had fired. Without a
    /// watchdog none fires.
    pub fn executed(&mut self, result: Result<(), EngineFault>, by_watchdog: bool)
        requires
            old(self).consistent(),
            old(self).next_call() is Execute,
            by_watchdog ==> old(self).next_call()->watchdog_ms is Some,
        ensures
            *final(self) == (Run { executed: Some((result, by_watchdog)), ..*old(self) }),
            final(self).consistent(),
            final(self).unasked() < old(self).unasked(),
    {
        self.executed = Some((result, by_watchdog));
    }

    /// Takes what the wait came to.
    pub fn pumped(&mut self, pumped: Result<WaitOutcome, DbgEngError>)
        requires
            old(self).consistent(),
            old(self).next_call() is Pump,
        ensures
            *final(self) == (Run { pumped: Some(pumped), ..*old(self) }),
            final(self).consistent(),
            final(self).unasked() < old(self).unasked(),
    {
        self.pumped = Some(pumped);
    }

    /// Takes whether a break request was filed against this run.
    pub fn requested(&mut self, asked: bool)
        requires
            old(self).consistent(),
            old(self).next_call() == EngineCall::TakeRequest,
        ensures
            *final(self) == (Run { asked: Some(asked), ..*old(self) }),
            final(self).consistent(),
            final(self).unasked() < old(self).unasked(),
    {
        self.asked = Some(asked);
    }

    /// The output is no longer captured.
    pub fn released(&mut self)
        requires
            old(self).consistent(),
            old(self).next_call() == EngineCall::Release,
        ensures
            *final(self) == (Run { released: true, ..*old(self) }),
            final(self).consistent(),
            final(self).unasked() < old(self).unasked(),
    {
        self.released = true;
    }

    /// Whatever break was pending is consumed.
    pub fn drained(&mut self)
        requires
            old(self).consistent(),
            old(self).next_call() == EngineCall::Drain,
        ensures
            *final(self) == (Run { drained: true, ..*old(self) }),
            final(self).consistent(),
            final(self).unasked() < old(self).unasked(),
    {
        self.drained = true;
    }

    /// Takes where the target stopped.
    pub fn stopped_at(&mut self, pointer: Result<u64, DbgEngError>)
        requires
            old(self).consistent(),
            old(self).next_call() == EngineCall::ReadPointer,
        ensures
            *final(self) == (Run { pointer: Some(pointer), ..*old(self) }),
            final(self).consistent(),
            final(self).unasked() < old(self).unasked(),
    {
        self.pointer = Some(pointer);
    }

    /// The breakpoint is gone.
    pub fn breakpoint_removed(&mut self)
        requires
            old(self).consistent(),
            old(self).next_call() == EngineCall::RemoveBreakpoint,
        ensures
            *final(self) == (Run { removed: true, ..*old(self) }),
            final(self).consistent(),
            final(self).unasked() < old(self).unasked(),
    {
        self.removed = true;
    }
}

/// Whether a report, with the output it carries, is what a run came to.
pub open spec fn reports(result: Result<RunReport, DbgEngError>, run: Run, output: Seq<u8>) -> bool {
    match run.report() {
        Err(error) => result == Err::<RunReport, DbgEngError>(error),
        Ok(Report::Nothing) => result matches Ok(RunReport::Nothing),
        Ok(Report::Ran { cut_short, target_gone }) => {
            &&& result matches Ok(RunReport::Ran(ran))
            &&& ran.output@ == utf8_lossy(output)
            &&& ran.cut_short == cut_short
            &&& ran.target_gone == target_gone
        },
        Ok(Report::RanTo(outcome)) => {
            &&& result matches Ok(RunReport::RanTo(ran))
            &&& ran.output@ == utf8_lossy(output)
            &&& ran.outcome == outcome
        },
    }
}

impl Run {
    fn take_failure(self) -> (error: DbgEngError)
        requires
            self.failure() is Some,
        ensures
            error == self.failure()->0,
    {
        match self.executed {
            Some((Err(fault), _)) => DbgEngError::CommandFailed(fault),
            _ => match self.pumped {
                Some(Err(error)) => error,
                _ => DbgEngError::NoDebuggee,
            },
        }
    }

    fn gone(&self) -> (gone: bool)
        ensures
            gone == (self.after is Some && lost(self.after->0)),
    {
        match &self.after {
            Some(after) => lost_its_target(after),
            None => false,
        }
    }

    /// What the run came to, once there is nothing left to ask. `output` is what was captured.
    pub fn finish(self, output: Vec<u8>) -> (result: Result<RunReport, DbgEngError>)
        requires
            self.next_call() == EngineCall::Finish,
        ensures
            reports(result, self, output@),
    {
        if self.early() {
            return match (self.job, self.before) {
                (Job::Settle { .. }, Some(Err(error))) => Err(error),
                (Job::Settle { .. }, _) => Ok(RunReport::Nothing),
                (_, Some(Err(error))) => Err(error),
                (_, Some(Ok(status))) => if status == DEBUG_STATUS_NO_DEBUGGEE {
                    Err(DbgEngError::NoDebuggee)
                } else {
                    Err(DbgEngError::InvalidCommand)
                },
                (_, None) => Err(DbgEngError::NoDebuggee),
            };
        }
        if matches!(self.breakpoint, Some(Err(_))) {
            return match self.breakpoint {
                Some(Err(fault)) => Err(DbgEngError::BreakpointFailed(fault)),
                _ => Err(DbgEngError::NoDebuggee),
            };
        }
        if matches!(self.captured, Some(Err(_))) {
            return match self.captured {
                Some(Err(fault)) => Err(DbgEngError::CommandFailed(fault)),
                _ => Err(DbgEngError::NoDebuggee),
            };
        }
        let cut_short = self.interruption();
        let target_gone: bool = self.gone();
        let failed: bool = self.failed();
        match self.job {
            Job::Command { .. } => {
                if cut_short.is_none() && failed {
                    return Err(self.take_failure());
                }
                let output = from_utf8_lossy(output.as_slice());
                Ok(RunReport::Ran(CommandRun { output, cut_short, target_gone }))
            },
            Job::Drive { .. } | Job::Settle { .. } => {
                if cut_short.is_none() && !target_gone && failed {
                    return Err(self.take_failure());
                }
                let output = from_utf8_lossy(output.as_slice());
                Ok(RunReport::Ran(CommandRun { output, cut_short, target_gone }))
            },
            Job::RunTo { address, .. } => {
                if target_gone {
                    let output = from_utf8_lossy(output.as_slice());
                    return Ok(
                        RunReport::RanTo(
                            RunToResult { outcome: RunToOutcome::TargetGone, output },
                        ),
                    );
                }
                if failed {
                    return Err(self.take_failure());
                }
                let expired: bool = matches!(cut_short, Some(Interruption::Deadline { .. }));
                let outcome = match self.pointer {
                    Some(Ok(stopped_at)) => if stopped_at == address {
                        RunToOutcome::Hit
                    } else if expired {
                        RunToOutcome::Timeout
                    } else {
                        RunToOutcome::StoppedElsewhere { stopped_at }
                    },
                    Some(Err(error)) => if expired {
                        RunToOutcome::Timeout
                    } else {
                        return Err(error);
                    },
                    None => return Err(DbgEngError::NoDebuggee),
                };
                let output = from_utf8_lossy(output.as_slice());
                Ok(RunReport::RanTo(RunToResult { outcome, output }))
            },
        }
    }
}

/// The output of a command, gathered as it arrives.
#[derive(Debug)]
pub struct OutputCallbacks {
    pub buffer: Vec<u8>,
}

impl OutputCallbacks {
    /// No output yet.
    pub fn new() -> (output: OutputCallbacks)
        ensures
            output.buffer@ == Seq::<u8>::empty(),
    {
        OutputCallbacks { buffer: Vec::new() }
    }

    /// Appends a piece of the output. The engine hands it over in many: none replaces what came
    /// before it, and one that is no text adds nothing.
    pub fn output(&mut self, text: Option<&str>)
        ensures
            final(self).buffer@ == old(self).buffer@ + match text {
                Some(text) => text.spec_bytes(),
                None => Seq::empty(),
            },
    {
        if let Some(text) = text {
            self.buffer.extend_from_slice(text.as_bytes());
            assert(self.buffer@ =~= old(self).buffer@ + text.spec_bytes());
        }
    }
}

/// What a command of this library's own came to, where no break is looked for: its output, where
/// it could be captured and the command went well.
pub fn plain_output(
    captured: Result<(), EngineFault>,
    executed: Result<(), EngineFault>,
    output: Vec<u8>,
) -> (text: Result<String, DbgEngError>)
    ensures
        match (captured, executed) {
            (Err(fault), _) => text == Err::<String, DbgEngError>(
                DbgEngError::CommandFailed(fault),
            ),
            (Ok(_), Err(fault)) => text == Err::<String, DbgEngError>(
                DbgEngError::CommandFailed(fault),
            ),
            (Ok(_), Ok(_)) => text matches Ok(text) && text@ == utf8_lossy(output@),
        },
{
    if let Err(fault) = captured {
        return Err(DbgEngError::CommandFailed(fault));
    }
    if let Err(fault) = executed {
        return Err(DbgEngError::CommandFailed(fault));
    }
    Ok(from_utf8_lossy(output.as_slice()))
}

/// Nothing drives the engine with nothing behind it: a breakpoint is added, a command executed
/// and the target pumped only after a status that says there is a target.
pub proof fn nothing_runs_without_a_target(run: Run)
    requires
        run.next_call() is AddBreakpoint || run.next_call() is Execute || run.next_call() is Pump,
    ensures
        run.before matches Some(Ok(status)) && status != DEBUG_STATUS_NO_DEBUGGEE,
        run.job !is Settle ==> run.command_ok,
        run.job is Settle ==> runs(run.before->0->Ok_0),
{
    assert(DEBUG_STATUS_NO_DEBUGGEE & super::codes::DEBUG_STATUS_MASK == 7) by (bit_vector);
}

/// A break is the run's from the first call that could be broken off: nothing is added, captured,
/// executed or waited for outside its operation, and a go or a run to an address asks nothing at
/// all outside it.
pub proof fn a_run_is_broken_as_itself(run: Run)
    requires
        !(run.next_call() is Begin),
        run.next_call() is AddBreakpoint || run.next_call() is Capture || run.next_call() is Execute
            || run.next_call() is Pump || run.next_call() is TakeRequest || run.begins_at_once(),
    ensures
        run.begun,
{
}

/// A run ends: every answer lowers how many questions may still be asked, and that is never below
/// none.
pub proof fn a_run_ends(run: Run)
    ensures
        0 <= run.unasked() <= 12,
{
}

/// A run leaves the engine as it found it, on every path: what was captured is released, and the
/// breakpoint it added is removed.
pub proof fn a_run_cleans_up(run: Run)
    requires
        run.consistent(),
        run.next_call() is Finish,
    ensures
        run.captured matches Some(Ok(_)) ==> run.released,
        run.breakpoint matches Some(Ok(_)) ==> run.removed,
{
}

/// A break keeps the output: a command, a go or a settling that was broken off ends well, says
/// what broke it off, and consumes whatever break is still pending.
pub proof fn a_break_is_no_failure(run: Run)
    requires
        run.consistent(),
        run.next_call() is Finish,
        run.job !is RunTo,
        run.captured matches Some(Ok(_)),
        run.cut_short() is Some,
    ensures
        run.drained,
        run.report() matches Ok(Report::Ran { cut_short, .. }) && cut_short == run.cut_short(),
{
}

/// A target that runs out is no failure: what a go, a settling or a run to an address had
/// captured comes back with its ending.
pub proof fn an_ending_is_no_failure(run: Run)
    requires
        run.consistent(),
        run.next_call() is Finish,
        run.job !is Command,
        run.after matches Some(after) && lost(after),
    ensures
        run.job is RunTo ==> run.report() matches Ok(Report::RanTo(RunToOutcome::TargetGone)),
        run.job !is RunTo ==> run.report() matches Ok(Report::Ran { target_gone: true, .. }),
{
}

/// A deadline and a host's request are told apart by where they were seen, and a run that
/// nothing broke off is not called cut short.
pub proof fn interruptions_are_told_apart(run: Run)
    ensures
        run.pumped matches Some(Ok(outcome)) ==> {
            &&& outcome is Deadline ==> run.cut_short() == Some(
                Interruption::Deadline { after_ms: run.job.timeout() },
            )
            &&& outcome is OnRequest ==> run.cut_short() == Some(Interruption::OnRequest)
            &&& outcome is Stopped || outcome is Expired ==> run.cut_short() is None
        },
        run.pumped is None && run.asked != Some(true) && !(run.executed matches Some((_, true)))
            ==> run.cut_short() is None,
{
}

/// Where a run to an address stopped is told by what was read after it: it is a hit exactly where
/// the instruction pointer is the address, a target that stopped by itself anywhere else is told
/// with where that was, one that had to be broken in anywhere else has timed out, and one that is
/// not there any more is gone, whatever else was read.
pub proof fn a_run_to_an_address_tells_where_it_stopped(
    run: Run,
    address: u64,
    timeout_ms: u32,
    result: Result<RunReport, DbgEngError>,
    output: Seq<u8>,
)
    requires
        run.consistent(),
        run.next_call() is Finish,
        run.job == (Job::RunTo { address, timeout_ms }),
        reports(result, run, output),
    ensures
        result is Ok ==> result->Ok_0 is RanTo,
        result matches Ok(RunReport::RanTo(ran)) ==> {
            let gone = run.after == Some(Ok::<u32, DbgEngError>(DEBUG_STATUS_NO_DEBUGGEE));
            let forced = run.pumped == Some(Ok::<WaitOutcome, DbgEngError>(WaitOutcome::Deadline));
            &&& ran.outcome is TargetGone <==> gone
            &&& ran.outcome is Hit <==> !gone && run.pointer == Some(
                Ok::<u64, DbgEngError>(address),
            )
            &&& ran.outcome is Timeout <==> !gone && forced && run.pointer != Some(
                Ok::<u64, DbgEngError>(address),
            )
            &&& forall|stopped_at: u64|
                ran.outcome == (RunToOutcome::StoppedElsewhere { stopped_at }) <==> !gone && !forced
                    && run.pointer == Some(Ok::<u64, DbgEngError>(stopped_at)) && stopped_at
                    != address
            &&& ran.output@ == utf8_lossy(output)
        },
        result is Ok <==> {
            &&& run.before matches Some(Ok(status))
            &&& status != DEBUG_STATUS_NO_DEBUGGEE
            &&& run.command_ok
            &&& run.breakpoint matches Some(Ok(_))
            &&& run.captured matches Some(Ok(_))
            &&& run.after == Some(Ok::<u32, DbgEngError>(DEBUG_STATUS_NO_DEBUGGEE)) || {
                &&& run.executed matches Some((Ok(_), _))
                &&& run.pumped matches Some(Ok(outcome))
                &&& outcome is Deadline || (run.pointer matches Some(Ok(_)))
            }
        },
{
}

/// How a command, a go or a settling ended is told by what broke it off: the watchdog's deadline
/// with the bound it was given, or a host's request, or nothing; and it says that its target is
/// gone exactly where the status read last says so.
pub proof fn a_run_tells_how_it_ended(
    run: Run,
    timeout_ms: u32,
    result: Result<RunReport, DbgEngError>,
    output: Seq<u8>,
)
    requires
        run.consistent(),
        run.next_call() is Finish,
        run.job == (Job::Command { timeout_ms }) || run.job == (Job::Drive { timeout_ms })
            || run.job == (Job::Settle { timeout_ms }),
        reports(result, run, output),
    ensures
        result is Ok ==> !(result->Ok_0 is RanTo),
        result matches Ok(RunReport::Nothing) ==> run.job is Settle && (run.before matches Some(
            Ok(status),
        ) && !runs(status)),
        run.job is Settle && (run.before matches Some(Ok(status)) && !runs(status)) ==> result
            matches Ok(RunReport::Nothing),
        result matches Ok(RunReport::Ran(ran)) ==> {
            let late = (run.executed matches Some((_, true))) || run.pumped == Some(
                Ok::<WaitOutcome, DbgEngError>(WaitOutcome::Deadline),
            );
            let asked = run.asked == Some(true) || run.pumped == Some(
                Ok::<WaitOutcome, DbgEngError>(WaitOutcome::OnRequest),
            );
            &&& ran.cut_short == Some(Interruption::Deadline { after_ms: timeout_ms }) <==> late
            &&& ran.cut_short == Some(Interruption::OnRequest) <==> !late && (asked
                && !(run.pumped is Some && run.pumped != Some(
                Ok::<WaitOutcome, DbgEngError>(WaitOutcome::OnRequest),
            )))
            &&& ran.cut_short matches Some(Interruption::Deadline { after_ms }) ==> after_ms
                == timeout_ms
            &&& ran.target_gone <==> run.after == Some(
                Ok::<u32, DbgEngError>(DEBUG_STATUS_NO_DEBUGGEE),
            )
            &&& ran.output@ == utf8_lossy(output)
        },
{
}

/// Every failure a run reports is one the engine answered it with: the status that could not be
/// read, the step that was refused, or the wait that failed. A run without a target says so, and
/// one with a command that cannot be handed over says that.
pub proof fn a_failed_run_blames_what_failed(
    run: Run,
    error: DbgEngError,
    result: Result<RunReport, DbgEngError>,
    output: Seq<u8>,
)
    requires
        run.consistent(),
        run.next_call() is Finish,
        run.job is Settle ==> run.executed is None,
        result == Err::<RunReport, DbgEngError>(error),
        reports(result, run, output),
    ensures
        ({
            ||| run.before == Some(Err::<u32, DbgEngError>(error))
            ||| error is NoDebuggee && run.job !is Settle && run.before == Some(
                Ok::<u32, DbgEngError>(DEBUG_STATUS_NO_DEBUGGEE),
            )
            ||| error is InvalidCommand && run.job !is Settle && !run.command_ok
            ||| run.breakpoint matches Some(Err(fault)) && error == DbgEngError::BreakpointFailed(
                fault,
            )
            ||| run.captured matches Some(Err(fault)) && error == DbgEngError::CommandFailed(fault)
            ||| run.executed matches Some((Err(fault), false)) && error
                == DbgEngError::CommandFailed(fault) && run.asked != Some(true)
            ||| run.executed matches Some((Err(fault), _)) && error == DbgEngError::CommandFailed(
                fault,
            ) && run.job is RunTo
            ||| run.pumped == Some(Err::<WaitOutcome, DbgEngError>(error))
            ||| run.pointer == Some(Err::<u64, DbgEngError>(error)) && run.job is RunTo
        }),
        run.before matches Some(Err(why)) ==> error == why,
        run.job !is Settle && run.before == Some(Ok::<u32, DbgEngError>(DEBUG_STATUS_NO_DEBUGGEE))
            ==> error is NoDebuggee,
        run.captured matches Some(Ok(_)) ==> !(run.job !is Command && run.after == Some(
            Ok::<u32, DbgEngError>(DEBUG_STATUS_NO_DEBUGGEE),
        )),
{
}

/// A command or a wait that failed of itself is reported, unless its target ran out: nothing else
/// that was asked hides it.
pub proof fn a_failure_is_reported(run: Run, result: Result<RunReport, DbgEngError>, output: Seq<u8>)
    requires
        run.consistent(),
        run.next_call() is Finish,
        run.job is Settle ==> run.executed is None,
        reports(result, run, output),
        (run.executed matches Some((Err(_), false))) || (run.pumped matches Some(Err(_))),
        run.asked != Some(true) || run.job is RunTo,
        run.job is Command || run.after != Some(
            Ok::<u32, DbgEngError>(DEBUG_STATUS_NO_DEBUGGEE),
        ),
    ensures
        result is Err,
{
}

/// What a run asks, it asks with what it was given, and only where it has use for it: its address,
/// its bound, and each question once.
pub proof fn a_run_asks_for_what_it_was_given(run: Run, timeout_ms: u32)
    requires
        run.consistent(),
    ensures
        run.next_call() matches EngineCall::AddBreakpoint { address } ==> {
            &&& run.job matches Job::RunTo { address: wanted, .. }
            &&& address == wanted && run.breakpoint is None && run.before is Some
        },
        run.next_call() is Begin ==> !run.begun,
        run.next_call() is AskStatus ==> run.before is None || (run.after is None && run.released),
        run.next_call() is Capture ==> run.captured is None && (run.job is RunTo ==> (
        run.breakpoint matches Some(Ok(_)))),
        run.next_call() matches EngineCall::Execute { watchdog_ms } ==> {
            &&& run.job !is Settle && run.executed is None && (run.captured matches Some(Ok(_)))
            &&& watchdog_ms == Some(timeout_ms) <==> run.job == (Job::Command { timeout_ms })
                && timeout_ms > 0
        },
        run.next_call() matches EngineCall::Pump { timeout_ms: bound } ==> {
            &&& run.pumped is None && run.job !is Command
            &&& run.job is Settle || (run.executed matches Some((Ok(_), _)))
            &&& bound == timeout_ms <==> run.job == (Job::Drive { timeout_ms }) || run.job == (
            Job::Settle { timeout_ms }) || (run.job matches Job::RunTo { timeout_ms: given, .. }
                && given == timeout_ms)
        },
        run.next_call() is TakeRequest ==> {
            &&& run.asked is None && run.job !is Settle
            &&& run.job is Command || (run.executed matches Some((Err(_), _)))
        },
        run.next_call() is Release ==> !run.released && (run.captured matches Some(Ok(_))),
        run.next_call() is Drain ==> !run.drained && run.job !is RunTo && run.cut_short() is Some,
        run.next_call() is ReadPointer ==> {
            &&& run.job is RunTo && run.pointer is None
            &&& run.after is Some && run.after != Some(
                Ok::<u32, DbgEngError>(DEBUG_STATUS_NO_DEBUGGEE),
            )
            &&& run.executed matches Some((Ok(_), _))
            &&& run.pumped matches Some(Ok(_))
        },
        run.next_call() is RemoveBreakpoint ==> (run.breakpoint matches Some(Ok(_)))
            && !run.removed,
{
}

/// A run that is over and had its output captured has asked everything its job takes: the command
/// was executed, the target waited for where it was set running, the request taken where no wait
/// took it, and the status read again.
pub proof fn a_finished_run_asked_everything(run: Run)
    requires
        run.consistent(),
        run.next_call() is Finish,
        run.captured matches Some(Ok(_)),
    ensures
        run.job !is Settle ==> run.executed is Some,
        run.job is Settle || (run.job !is Command && (run.executed matches Some((Ok(_), _)))) ==> (
        run.pumped is Some),
        run.job is Command || (run.job !is Settle && (run.executed matches Some((Err(_), _)))) ==> (
        run.asked is Some),
        run.job !is Command ==> run.after is Some,
        run.job is Command && (run.executed matches Some((Ok(_), _))) ==> run.after is Some,
        run.job is RunTo && run.after != Some(Ok::<u32, DbgEngError>(DEBUG_STATUS_NO_DEBUGGEE))
            && (run.executed matches Some((Ok(_), _))) && (run.pumped matches Some(Ok(_)))
            ==> run.pointer is Some,
{
}

/// What a run opened it closes again, and what broke it off it drains: once it is over its output
/// is released, its breakpoint is gone, and a break that is still pending was consumed.
pub proof fn a_finished_run_leaves_nothing_open(run: Run)
    requires
        run.consistent(),
        run.next_call() is Finish,
    ensures
        run.captured matches Some(Ok(_)) ==> run.begun && run.released,
        run.breakpoint matches Some(Ok(_)) ==> run.removed,
        (run.captured matches Some(Ok(_))) && run.job !is RunTo && run.cut_short() is Some
            ==> run.drained,
        run.before is Some,
        run.before matches Some(Ok(status)) && status != DEBUG_STATUS_NO_DEBUGGEE && run.command_ok
            && run.job !is Settle ==> run.begun && (run.job !is RunTo ==> run.captured is Some)
            && (run.job is RunTo ==> run.breakpoint is Some),
        run.before matches Some(Ok(status)) && runs(status) && run.job is Settle ==> run.captured
            is Some,
{
}

/// A run takes its steps in order: the status before anything is opened, the breakpoint before the
/// output is captured, the command before the wait, the output released before the status is read
/// again, and a break drained where it belongs.
pub proof fn a_run_takes_its_steps_in_order(run: Run)
    requires
        run.consistent(),
    ensures
        run.next_call() is Begin ==> (run.before is None <==> run.job is Drive || run.job is RunTo),
        run.next_call() is Capture ==> run.begun && run.executed is None,
        run.next_call() is Pump ==> run.begun && !(run.captured matches Some(Err(_))),
        run.next_call() is Release ==> {
            &&& run.job is Settle || run.executed is Some
            &&& run.job is Settle || (run.job !is Command && (run.executed matches Some(
                (Ok(_), _),
            ))) ==> run.pumped is Some
            &&& run.job is RunTo && (run.executed matches Some((Err(_), _))) ==> run.asked is Some
        },
        run.next_call() is TakeRequest && run.job !is RunTo ==> run.released,
        run.next_call() is AskStatus && run.before is Some ==> run.released && run.after is None,
        run.next_call() is Drain ==> run.released && (run.job is Command || run.after is Some),
        run.next_call() is AskStatus && run.before is Some && run.job is Command
            && run.cut_short() is Some ==> run.drained,
        run.next_call() is ReadPointer ==> run.released && run.after is Some,
{
}

} // verus!
