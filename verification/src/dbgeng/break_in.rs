//! The initial break of a kernel that was attached to, one engine call at a time.
//!
//! The engine was told to break in at the connection's first event. That option is taken back
//! whatever the wait for the break comes to, or every later resume would break again. A break-in
//! leaves one further break pending, which is run into and absorbed here, so that the first resume
//! a host asks for is its own.
use vstd::prelude::*;

use super::codes::{DEBUG_STATUS_NO_DEBUGGEE, KERNEL_ATTACH_WAIT_MS};
use super::error::{DbgEngError, EngineFault};
use super::wait::WaitOutcome;

verus! {

/// How long the further break is waited for.
pub const ABSORB_WAIT_MS: u32 = 5_000;

/// What the wait for a kernel's initial break came to: a target the watchdog had to break in, or
/// that is not there, never broke in on its own.
pub open spec fn broke_in(
    pumped: Result<WaitOutcome, DbgEngError>,
    status: Result<u32, EngineFault>,
) -> Result<(), DbgEngError> {
    match (pumped, status) {
        (Err(error), _) => Err(error),
        (Ok(_), Err(fault)) => Err(DbgEngError::CommandFailed(fault)),
        (Ok(outcome), Ok(status)) => if outcome is Deadline || status == DEBUG_STATUS_NO_DEBUGGEE {
            Err(DbgEngError::KernelBreakTimeout)
        } else {
            Ok(())
        },
    }
}

/// What the wait for a kernel's initial break came to. The status is not looked at where the wait
/// failed.
pub fn kernel_break_in(
    pumped: Result<WaitOutcome, DbgEngError>,
    status: Result<u32, EngineFault>,
) -> (result: Result<(), DbgEngError>)
    ensures
        result == broke_in(pumped, status),
{
    let outcome = match pumped {
        Ok(outcome) => outcome,
        Err(error) => return Err(error),
    };
    let status: u32 = match status {
        Ok(status) => status,
        Err(fault) => return Err(DbgEngError::CommandFailed(fault)),
    };
    let timed_out: bool = matches!(outcome, WaitOutcome::Deadline);
    if timed_out || status == DEBUG_STATUS_NO_DEBUGGEE {
        Err(DbgEngError::KernelBreakTimeout)
    } else {
        Ok(())
    }
}

/// What a break-in asks of the engine next.
#[derive(Debug, Clone, Copy, PartialEq, Eq, Structural)]
pub enum BreakInCall {
    /// The operation a break is filed against from here on, open until the break-in is over.
    Begin,
    /// A wait for the target to stop, with a watchdog.
    Pump { timeout_ms: u32 },
    /// The option to break in at the first event, taken back.
    ClearInitialBreak,
    /// The execution status.
    AskStatus,
    /// A go, driven to the break that is still pending.
    Absorb { timeout_ms: u32 },
    /// Nothing: the break-in is over.
    Finish,
}

/// What the engine has answered to a break-in so far.
pub struct KernelBreakIn {
    pub begun: bool,
    pub pumped: Option<Result<WaitOutcome, DbgEngError>>,
    pub cleared: bool,
    pub status: Option<Result<u32, EngineFault>>,
    pub absorbed: bool,
}

impl KernelBreakIn {
    /// What the break-in came to.
    pub open spec fn report(&self) -> Result<(), DbgEngError> {
        match (self.pumped->0, self.status) {
            (Err(error), _) => Err(error),
            (pumped, Some(status)) => broke_in(pumped, status),
            (Ok(_), None) => Ok(()),
        }
    }

    /// What is asked of the engine next.
    pub open spec fn next_call(&self) -> BreakInCall {
        if !self.begun {
            BreakInCall::Begin
        } else if self.pumped is None {
            BreakInCall::Pump { timeout_ms: KERNEL_ATTACH_WAIT_MS }
        } else if !self.cleared {
            BreakInCall::ClearInitialBreak
        } else if self.pumped matches Some(Err(_)) {
            BreakInCall::Finish
        } else if self.status is None {
            BreakInCall::AskStatus
        } else if self.report() is Ok && !self.absorbed {
            BreakInCall::Absorb { timeout_ms: ABSORB_WAIT_MS }
        } else {
            BreakInCall::Finish
        }
    }

    /// What holds of every break-in that was asked in order.
    pub open spec fn consistent(&self) -> bool {
        &&& self.pumped is Some ==> self.begun
        &&& self.cleared ==> self.pumped is Some
        &&& self.status is Some ==> self.cleared && (self.pumped matches Some(Ok(_)))
        &&& self.absorbed ==> self.status is Some && self.report() is Ok
    }

    /// How many questions may still be asked.
    pub open spec fn unasked(&self) -> int {
        let one = |open: bool|
            if open {
                1int
            } else {
                0int
            };
        one(!self.begun) + one(self.pumped is None) + one(!self.cleared) + one(
            self.status is None,
        ) + one(!self.absorbed)
    }

    /// A break-in that has asked nothing yet.
    pub fn new() -> (break_in: KernelBreakIn)
        ensures
            break_in == (KernelBreakIn {
                begun: false,
                pumped: None,
                cleared: false,
                status: None,
                absorbed: false,
            }),
            break_in.consistent(),
    {
        KernelBreakIn { begun: false, pumped: None, cleared: false, status: None, absorbed: false }
    }

    /// What to ask of the engine next.
    pub fn next(&self) -> (call: BreakInCall)
        ensures
            call == self.next_call(),
    {
        if !self.begun {
            return BreakInCall::Begin;
        }
        let timed_out: bool = match &self.pumped {
            None => return BreakInCall::Pump { timeout_ms: KERNEL_ATTACH_WAIT_MS },
            Some(pumped) => {
                if !self.cleared {
                    return BreakInCall::ClearInitialBreak;
                }
                match pumped {
                    Err(_) => return BreakInCall::Finish,
                    Ok(outcome) => matches!(outcome, WaitOutcome::Deadline),
                }
            },
        };
        match &self.status {
            None => BreakInCall::AskStatus,
            Some(Ok(status)) => if timed_out || *status == DEBUG_STATUS_NO_DEBUGGEE
                || self.absorbed {
                BreakInCall::Finish
            } else {
                BreakInCall::Absorb { timeout_ms: ABSORB_WAIT_MS }
            },
            Some(Err(_)) => BreakInCall::Finish,
        }
    }

    /// The break-in's operation is open.
    pub fn begun(&mut self)
        requires
            old(self).consistent(),
            old(self).next_call() is Begin,
        ensures
            *final(self) == (KernelBreakIn { begun: true, ..*old(self) }),
            final(self).consistent(),
            final(self).unasked() < old(self).unasked(),
    {
        self.begun = true;
    }

    /// Takes what the wait came to.
    pub fn pumped(&mut self, pumped: Result<WaitOutcome, DbgEngError>)
        requires
            old(self).consistent(),
            old(self).next_call() is Pump,
        ensures
            *final(self) == (KernelBreakIn { pumped: Some(pumped), ..*old(self) }),
            final(self).consistent(),
            final(self).unasked() < old(self).unasked(),
    {
        self.pumped = Some(pumped);
    }

    /// The option to break in is taken back, as far as it could be.
    pub fn cleared(&mut self)
        requires
            old(self).consistent(),
            old(self).next_call() is ClearInitialBreak,
        ensures
            *final(self) == (KernelBreakIn { cleared: true, ..*old(self) }),
            final(self).consistent(),
            final(self).unasked() < old(self).unasked(),
    {
        self.cleared = true;
    }

    /// Takes the execution status.
    pub fn status(&mut self, status: Result<u32, EngineFault>)
        requires
            old(self).consistent(),
            old(self).next_call() is AskStatus,
        ensures
            *final(self) == (KernelBreakIn { status: Some(status), ..*old(self) }),
            final(self).consistent(),
            final(self).unasked() < old(self).unasked(),
    {
        self.status = Some(status);
    }

    /// The further break is absorbed, as far as it could be.
    pub fn absorbed(&mut self)
        requires
            old(self).consistent(),
            old(self).next_call() is Absorb,
        ensures
            *final(self) == (KernelBreakIn { absorbed: true, ..*old(self) }),
            final(self).consistent(),
            final(self).unasked() < old(self).unasked(),
    {
        self.absorbed = true;
    }

    /// What the break-in came to, once there is nothing left to ask.
    pub fn finish(self) -> (result: Result<(), DbgEngError>)
        requires
            self.next_call() is Finish,
        ensures
            result == self.report(),
    {
        match (self.pumped, self.status) {
            (Some(Err(error)), _) => Err(error),
            (Some(pumped), Some(status)) => kernel_break_in(pumped, status),
            _ => Ok(()),
        }
    }
}

/// The option to break in is taken back whatever the wait came to: a break-in is over, and nothing
/// is asked after the wait, only once it is.
pub proof fn the_initial_break_is_taken_back(break_in: KernelBreakIn)
    requires
        break_in.pumped is Some,
        break_in.begun,
    ensures
        break_in.next_call() is ClearInitialBreak || break_in.cleared,
{
}

/// The further break is absorbed once, after a break-in that went well and at no other time; and
/// no break-in goes well without it.
pub proof fn only_a_break_in_is_absorbed(break_in: KernelBreakIn)
    requires
        break_in.consistent(),
    ensures
        break_in.next_call() is Absorb ==> {
            &&& break_in.pumped matches Some(Ok(_))
            &&& broke_in(break_in.pumped->0, break_in.status->0) is Ok
            &&& break_in.cleared && !break_in.absorbed
        },
        break_in.next_call() is Finish ==> break_in.begun && break_in.cleared
            && break_in.absorbed == break_in.report() is Ok,
{
}

/// A break-in ends: every answer lowers how many questions may still be asked, and that is never
/// below none.
pub proof fn a_break_in_ends(break_in: KernelBreakIn)
    ensures
        0 <= break_in.unasked() <= 5,
{
}

/// A kernel has broken in exactly where its wait went well and ended before the deadline, and a
/// target is there. What is reported otherwise is what failed.
pub proof fn a_kernel_that_broke_in_is_there(
    pumped: Result<WaitOutcome, DbgEngError>,
    status: Result<u32, EngineFault>,
)
    ensures
        broke_in(pumped, status) is Ok <==> {
            &&& pumped matches Ok(outcome)
            &&& outcome != WaitOutcome::Deadline
            &&& status matches Ok(status)
            &&& status != DEBUG_STATUS_NO_DEBUGGEE
        },
        pumped matches Err(error) ==> broke_in(pumped, status) == Err::<(), DbgEngError>(error),
        pumped is Ok ==> (status matches Err(fault) ==> broke_in(pumped, status) == Err::<
            (),
            DbgEngError,
        >(DbgEngError::CommandFailed(fault))),
        pumped is Ok && status is Ok && broke_in(pumped, status) is Err ==> broke_in(
            pumped,
            status,
        )->Err_0 is KernelBreakTimeout,
{
}

/// A break-in is bounded by its own waits, asks each question once and in order, and reports what
/// it asked.
pub proof fn a_break_in_asks_in_order(break_in: KernelBreakIn)
    requires
        break_in.consistent(),
    ensures
        break_in.next_call() is Begin <==> !break_in.begun,
        break_in.next_call() matches BreakInCall::Pump { timeout_ms } ==> timeout_ms == 60_000
            && break_in.begun && break_in.pumped is None,
        break_in.next_call() is ClearInitialBreak ==> break_in.pumped is Some && !break_in.cleared,
        break_in.next_call() is AskStatus ==> (break_in.pumped matches Some(Ok(_)))
            && break_in.status is None,
        break_in.next_call() matches BreakInCall::Absorb { timeout_ms } ==> timeout_ms == 5_000,
        break_in.next_call() is Finish ==> {
            &&& break_in.pumped is Some
            &&& break_in.pumped matches Some(Ok(_)) ==> break_in.status is Some
            &&& break_in.pumped matches Some(Err(error)) ==> break_in.report() == Err::<
                (),
                DbgEngError,
            >(error)
            &&& break_in.report() is Ok ==> (break_in.status matches Some(Ok(status)) && status
                != DEBUG_STATUS_NO_DEBUGGEE) && (break_in.pumped matches Some(Ok(outcome))
                && outcome != WaitOutcome::Deadline)
            &&& (break_in.status matches Some(Ok(status)) && status != DEBUG_STATUS_NO_DEBUGGEE)
                && (break_in.pumped matches Some(Ok(outcome)) && outcome != WaitOutcome::Deadline)
                ==> break_in.report() is Ok
        },
{
}

} // verus!
