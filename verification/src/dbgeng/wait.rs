//! What a wait for the target came to, attributed by the call that waited.
use std::collections::HashSet;

use vstd::prelude::*;

use super::arrivals::{ArrivalId, Arrivals, ArrivalsView, Presence};
use super::breaks::Interruption;
use super::codes::{
    is_failure, DEBUG_STATUS_GO, DEBUG_STATUS_GO_HANDLED, DEBUG_STATUS_GO_NOT_HANDLED,
    DEBUG_STATUS_MASK, DEBUG_STATUS_NO_DEBUGGEE, DEBUG_STATUS_REVERSE_GO,
    DEBUG_STATUS_REVERSE_STEP_BRANCH, DEBUG_STATUS_REVERSE_STEP_INTO,
    DEBUG_STATUS_REVERSE_STEP_OVER, DEBUG_STATUS_STEP_BRANCH, DEBUG_STATUS_STEP_INTO,
    DEBUG_STATUS_STEP_OVER, LIVE_WAIT_MS, S_OK,
};
use super::error::{DbgEngError, EngineFault};

verus! {

/// What one wait did.
#[derive(Debug, Clone, Copy, PartialEq, Eq)]
pub enum WaitOutcome {
    /// An event arrived and the engine stopped. `process` is the engine id and the pid of the
    /// process it belongs to, where the session still lists one.
    Stopped { process: Option<(u32, u32)> },
    /// A finite bound passed with no event, and the target is still running.
    Expired,
    /// The watchdog broke the target in at its deadline.
    Deadline,
    /// A host asked for a break.
    OnRequest,
}

impl WaitOutcome {
    /// Whether a break ended this wait rather than the target's own event.
    pub fn broke_in(self) -> (broke: bool)
        ensures
            broke == (self is Deadline || self is OnRequest),
    {
        matches!(self, WaitOutcome::Deadline | WaitOutcome::OnRequest)
    }

    /// This outcome as the interruption a [`CommandRun`] reports, for a bound of `after_ms`.
    pub fn cut_short(self, after_ms: u32) -> (cut_short: Option<Interruption>)
        ensures
            cut_short == self.interruption(after_ms),
    {
        match self {
            WaitOutcome::Deadline => Some(Interruption::Deadline { after_ms }),
            WaitOutcome::OnRequest => Some(Interruption::OnRequest),
            WaitOutcome::Stopped { .. } | WaitOutcome::Expired => None,
        }
    }

    /// The interruption an outcome is: a break is one, and nothing else is.
    pub open spec fn interruption(self, after_ms: u32) -> Option<Interruption> {
        match self {
            WaitOutcome::Deadline => Some(Interruption::Deadline { after_ms }),
            WaitOutcome::OnRequest => Some(Interruption::OnRequest),
            WaitOutcome::Stopped { .. } | WaitOutcome::Expired => None,
        }
    }
}

/// How a wait is bounded.
#[derive(Debug, Clone, Copy, PartialEq, Eq, Structural)]
pub enum Bound {
    /// A wait for so many milliseconds, which leaves the target running when they have passed.
    Finite(u32),
    /// A wait without end, with a watchdog that breaks the target in after so many milliseconds.
    Watchdog(u32),
}

/// What a command produced, and whether it finished.
#[derive(Debug, Clone)]
pub struct CommandRun {
    pub output: String,
    /// `None` when the command ran to completion.
    pub cut_short: Option<Interruption>,
    /// The engine held no target once this run ended. Terminal, and not a failure.
    pub target_gone: bool,
}

impl CommandRun {
    /// The output, for a caller that has already dealt with the rest.
    pub fn into_output(self) -> (output: String)
        ensures
            output == self.output,
    {
        self.output
    }
}

/// Whether a status says the engine has been told to run: every go and every step, forward and
/// reverse.
pub open spec fn runs(status: u32) -> bool {
    let state = status & DEBUG_STATUS_MASK;
    ||| state == DEBUG_STATUS_GO
    ||| state == DEBUG_STATUS_GO_HANDLED
    ||| state == DEBUG_STATUS_GO_NOT_HANDLED
    ||| state == DEBUG_STATUS_STEP_OVER
    ||| state == DEBUG_STATUS_STEP_INTO
    ||| state == DEBUG_STATUS_STEP_BRANCH
    ||| state == DEBUG_STATUS_REVERSE_GO
    ||| state == DEBUG_STATUS_REVERSE_STEP_BRANCH
    ||| state == DEBUG_STATUS_REVERSE_STEP_OVER
    ||| state == DEBUG_STATUS_REVERSE_STEP_INTO
}

/// Whether an execution status means the engine has been told to run and is waiting to be
/// pumped. Flags above the status itself are masked off.
pub fn is_running_status(status: u32) -> (running: bool)
    ensures
        running == runs(status),
{
    let state: u32 = status & DEBUG_STATUS_MASK;
    state == DEBUG_STATUS_GO || state == DEBUG_STATUS_GO_HANDLED || state
        == DEBUG_STATUS_GO_NOT_HANDLED || state == DEBUG_STATUS_STEP_OVER || state
        == DEBUG_STATUS_STEP_INTO || state == DEBUG_STATUS_STEP_BRANCH || state
        == DEBUG_STATUS_REVERSE_GO || state == DEBUG_STATUS_REVERSE_STEP_BRANCH || state
        == DEBUG_STATUS_REVERSE_STEP_OVER || state == DEBUG_STATUS_REVERSE_STEP_INTO
}

/// Whether the engine is holding a target at all. A status that cannot be read is no answer.
pub fn has_target(status: Result<u32, DbgEngError>) -> (held: Result<bool, DbgEngError>)
    ensures
        status matches Err(error) ==> held == Err::<bool, DbgEngError>(error),
        status matches Ok(status) ==> held == Ok::<bool, DbgEngError>(
            status != DEBUG_STATUS_NO_DEBUGGEE,
        ),
{
    match status {
        Err(error) => Err(error),
        Ok(status) => Ok(status != DEBUG_STATUS_NO_DEBUGGEE),
    }
}

/// What refuses an operation that would drive an engine holding nothing: the engine faults on
/// it, in a way nothing can catch.
pub open spec fn refusal_without_a_debuggee(status: Result<u32, DbgEngError>) -> Option<DbgEngError> {
    match status {
        Err(error) => Some(error),
        Ok(status) => if status == DEBUG_STATUS_NO_DEBUGGEE {
            Some(DbgEngError::NoDebuggee)
        } else {
            None
        },
    }
}

/// Refuses an operation that would drive the engine with nothing behind it.
pub fn refuse_without_a_debuggee(status: Result<u32, DbgEngError>) -> (checked: Result<
    (),
    DbgEngError,
>)
    ensures
        checked is Ok == refusal_without_a_debuggee(status) is None,
        checked matches Err(error) ==> Some(error) == refusal_without_a_debuggee(status),
{
    match has_target(status) {
        Err(error) => Err(error),
        Ok(true) => Ok(()),
        Ok(false) => Err(DbgEngError::NoDebuggee),
    }
}

/// Whether the engine has lost its target, asked after an operation that could have taken it. A
/// status that cannot be read is not taken for a target that left.
pub open spec fn lost(status: Result<u32, DbgEngError>) -> bool {
    status == Ok::<u32, DbgEngError>(DEBUG_STATUS_NO_DEBUGGEE)
}

/// Whether the engine has lost its target.
pub fn lost_its_target(status: &Result<u32, DbgEngError>) -> (gone: bool)
    ensures
        gone == lost(*status),
{
    match status {
        Ok(status) => *status == DEBUG_STATUS_NO_DEBUGGEE,
        Err(_) => false,
    }
}

/// What `WaitForEvent` came back with.
pub enum Waited {
    /// A finite wait's own result code, and what the system says of it.
    Finite(EngineFault),
    /// A bounded endless wait's result, and whether its watchdog had fired.
    Bounded { result: Result<(), EngineFault>, by_watchdog: bool },
}

impl Waited {
    /// Whether the watchdog broke the target in.
    pub open spec fn by_watchdog(self) -> bool {
        self matches Waited::Bounded { by_watchdog: true, .. }
    }

    /// The failure, where the wait failed.
    pub open spec fn failure(self) -> Option<EngineFault> {
        match self {
            Waited::Finite(result) => if is_failure(result.code) {
                Some(result)
            } else {
                None
            },
            Waited::Bounded { result: Err(fault), .. } => Some(fault),
            Waited::Bounded { result: Ok(_), .. } => None,
        }
    }

    /// Whether an event arrived. Of a finite wait, only its plain success says so: a success code
    /// of another kind records nothing.
    pub open spec fn arrived(self) -> bool {
        match self {
            Waited::Finite(result) => result.code == S_OK,
            Waited::Bounded { result, .. } => result is Ok,
        }
    }
}

/// What a wait came to, before its stop is named.
pub enum Verdict {
    /// It did not stop on the target's own event.
    Ended(WaitOutcome),
    /// It did, and the stop belongs to somebody.
    Stopped,
}

/// Attributes a wait. `asked` is the break request taken from this operation.
///
/// A break outranks the wait's own error, the watchdog's outranks a host's, and only a stop on
/// the target's own event is one that anybody was waiting for.
pub fn pump(waited: Waited, asked: bool) -> (verdict: Result<Verdict, DbgEngError>)
    ensures
        waited.by_watchdog() ==> verdict == Ok::<Verdict, DbgEngError>(
            Verdict::Ended(WaitOutcome::Deadline),
        ),
        !waited.by_watchdog() && asked ==> verdict == Ok::<Verdict, DbgEngError>(
            Verdict::Ended(WaitOutcome::OnRequest),
        ),
        !waited.by_watchdog() && !asked && waited.failure() is Some ==> verdict == Err::<
            Verdict,
            DbgEngError,
        >(DbgEngError::CommandFailed(waited.failure()->0)),
        !waited.by_watchdog() && !asked && waited.failure() is None && !waited.arrived() ==> verdict
            == Ok::<Verdict, DbgEngError>(Verdict::Ended(WaitOutcome::Expired)),
        !waited.by_watchdog() && !asked && waited.failure() is None && waited.arrived() ==> verdict
            == Ok::<Verdict, DbgEngError>(Verdict::Stopped),
{
    let by_watchdog: bool = match &waited {
        Waited::Finite(_) => false,
        Waited::Bounded { by_watchdog, .. } => *by_watchdog,
    };
    if by_watchdog {
        return Ok(Verdict::Ended(WaitOutcome::Deadline));
    }
    if asked {
        return Ok(Verdict::Ended(WaitOutcome::OnRequest));
    }
    match waited {
        Waited::Finite(result) => if result.code < 0 {
            Err(DbgEngError::CommandFailed(result))
        } else if result.code == S_OK {
            Ok(Verdict::Stopped)
        } else {
            Ok(Verdict::Ended(WaitOutcome::Expired))
        },
        Waited::Bounded { result: Err(fault), .. } => Err(DbgEngError::CommandFailed(fault)),
        Waited::Bounded { result: Ok(()), .. } => Ok(Verdict::Stopped),
    }
}

/// Whether a process is the first the session lists under an engine id.
pub open spec fn first_held(held: Seq<(u32, u32)>, id: u32, position: int) -> bool {
    &&& 0 <= position < held.len()
    &&& held[position].0 == id
    &&& forall|i: int| 0 <= i < position ==> (#[trigger] held[i]).0 != id
}

/// The process the last event belongs to, where both could be read and the session lists it.
pub fn stopped_process(
    last_event: &Result<u32, DbgEngError>,
    held: &Result<Vec<(u32, u32)>, DbgEngError>,
) -> (process: Option<(u32, u32)>)
    ensures
        last_event is Err || held is Err ==> process is None,
        last_event is Ok && held is Ok ==> match process {
            Some(process) => exists|i: int|
                first_held(held->Ok_0@, last_event->Ok_0, i) && process == #[trigger] held->Ok_0@[i],
            None => forall|i: int|
                0 <= i < held->Ok_0@.len() ==> (#[trigger] held->Ok_0@[i]).0 != last_event->Ok_0,
        },
{
    let id: u32 = match last_event {
        Ok(id) => *id,
        Err(_) => return None,
    };
    let held = match held {
        Ok(held) => held,
        Err(_) => return None,
    };
    let mut i: usize = 0;
    while i < held.len() && held[i].0 != id
        invariant
            i <= held@.len(),
            forall|j: int| 0 <= j < i ==> (#[trigger] held@[j]).0 != id,
        decreases held.len() - i,
    {
        i = i + 1;
    }
    if i < held.len() {
        assert(first_held(held@, id, i as int));
        Some(held[i])
    } else {
        None
    }
}

/// Delivers a stop to the open that was waiting for it, and answers what the wait did. Nothing
/// but a stop on a process the session lists is delivered to anybody.
pub fn record_where_it_stopped(
    arrivals: &mut Arrivals,
    verdict: Verdict,
    process: Option<(u32, u32)>,
    attached: &HashSet<u32>,
) -> (outcome: WaitOutcome)
    requires
        old(arrivals)@.wf(),
    ensures
        final(arrivals)@.wf(),
        verdict matches Verdict::Ended(ended) ==> outcome == ended && final(arrivals)@ == old(
            arrivals,
        )@,
        verdict is Stopped ==> outcome == (WaitOutcome::Stopped { process }),
        verdict is Stopped && process is None ==> final(arrivals)@ == old(arrivals)@,
        verdict is Stopped && process is Some ==> routed(
            old(arrivals)@,
            final(arrivals)@,
            process->0,
            attached@,
        ),
{
    match verdict {
        Verdict::Ended(ended) => ended,
        Verdict::Stopped => {
            if let Some(entry) = process {
                arrivals.deliver(entry, attached);
            }
            WaitOutcome::Stopped { process }
        },
    }
}

/// Whether a stop was given to the first open waiting for it, and to nobody where there is none
/// or it was given before.
pub open spec fn routed(
    before: ArrivalsView,
    after: ArrivalsView,
    entry: (u32, u32),
    attached: Set<u32>,
) -> bool {
    &&& before.claimed(entry) ==> after == before
    &&& !before.claimed(entry) && (forall|i: int|
        0 <= i < before.pending.len() ==> !(#[trigger] before.takes(i, entry, attached))) ==> after
        == before
    &&& forall|first: int|
        !before.claimed(entry) && (#[trigger] before.takes(first, entry, attached)) && (forall|i: int|
            0 <= i < first ==> !(#[trigger] before.takes(i, entry, attached))) ==> after
            == before.delivered(first, entry)
}

/// Where an open's target has got to, by what the engine could be asked: an engine that holds
/// nothing holds nothing the open waits for, and a question that could not be put is no evidence
/// that the target is missing.
pub fn presence_of(
    arrivals: &Arrivals,
    id: ArrivalId,
    has_target: Result<bool, DbgEngError>,
    held: Result<Vec<(u32, u32)>, DbgEngError>,
    attached: &HashSet<u32>,
) -> (presence: Presence)
    requires
        arrivals@.wf(),
    ensures
        has_target is Err ==> presence is Unknown,
        has_target == Ok::<bool, DbgEngError>(false) ==> presence is Absent,
        has_target == Ok::<bool, DbgEngError>(true) && held is Err ==> presence is Unknown,
        has_target == Ok::<bool, DbgEngError>(true) && held is Ok && !arrivals@.names(id)
            ==> presence is Absent,
        has_target == Ok::<bool, DbgEngError>(true) && held is Ok ==> forall|position: int|
            0 <= position < arrivals@.pending.len() && (#[trigger] arrivals@.pending[position]).id
                == id ==> presence == arrivals@.presence_at(position, held->Ok_0@, attached@),
{
    match has_target {
        Err(_) => return Presence::Unknown,
        Ok(false) => return Presence::Absent,
        Ok(true) => {},
    }
    match held {
        Err(_) => Presence::Unknown,
        Ok(held) => arrivals.presence(id, held.as_slice(), attached),
    }
}

/// A live open's wait: pumping until its target has joined the session and stopped, within one
/// bound for the whole open.
#[derive(Debug, Clone, Copy, PartialEq, Eq, Structural)]
pub struct LiveWait {
    /// Whether the engine has been pumped for this open.
    pub waited: bool,
    /// Whether the last pump ended on a break.
    pub asked_to_stop: bool,
}

/// What a live open does next.
pub enum LiveStep {
    /// It is over.
    Finished(Result<(), DbgEngError>),
    /// It waits, for at most so many milliseconds.
    Pump { timeout_ms: u32 },
}

impl Default for LiveWait {
    fn default() -> (wait: LiveWait)
        ensures
            wait == (LiveWait { waited: false, asked_to_stop: false }),
    {
        LiveWait { waited: false, asked_to_stop: false }
    }
}

impl LiveWait {
    /// What to do about a target that is this far along, with `left_ms` of the bound left.
    ///
    /// The wait ends when the target has arrived, when it cannot be asked about and the engine
    /// has been pumped once, when the bound has passed and when a host asked for control back.
    /// It fails only for a target that is not in the session: one that is, and was not seen to
    /// stop, is not missing.
    pub fn next(&self, presence: Presence, left_ms: u32) -> (step: LiveStep)
        ensures
            step == self.step(presence, left_ms),
    {
        match presence {
            Presence::Arrived => return LiveStep::Finished(Ok(())),
            Presence::Unknown => if self.waited {
                return LiveStep::Finished(Ok(()));
            },
            Presence::Listed | Presence::Absent => {},
        }
        if left_ms == 0 || self.asked_to_stop {
            return match presence {
                Presence::Absent => if self.asked_to_stop {
                    LiveStep::Finished(Err(DbgEngError::LiveTargetInterrupted))
                } else {
                    LiveStep::Finished(Err(DbgEngError::LiveTargetTimeout))
                },
                _ => LiveStep::Finished(Ok(())),
            };
        }
        LiveStep::Pump { timeout_ms: left_ms }
    }

    /// What a live open does about a target that is this far along.
    pub open spec fn step(self, presence: Presence, left_ms: u32) -> LiveStep {
        if presence is Arrived || (presence is Unknown && self.waited) {
            LiveStep::Finished(Ok(()))
        } else if left_ms > 0 && !self.asked_to_stop {
            LiveStep::Pump { timeout_ms: left_ms }
        } else if presence !is Absent {
            LiveStep::Finished(Ok(()))
        } else if self.asked_to_stop {
            LiveStep::Finished(Err(DbgEngError::LiveTargetInterrupted))
        } else {
            LiveStep::Finished(Err(DbgEngError::LiveTargetTimeout))
        }
    }

    /// Takes what a pump did: a break is a reason to stop pumping, and an error ends the wait.
    pub fn pumped(&self, pumped: Result<WaitOutcome, DbgEngError>) -> (wait: Result<
        LiveWait,
        DbgEngError,
    >)
        ensures
            pumped matches Err(error) ==> wait == Err::<LiveWait, DbgEngError>(error),
            pumped matches Ok(outcome) ==> wait == Ok::<LiveWait, DbgEngError>(
                LiveWait {
                    waited: true,
                    asked_to_stop: outcome is Deadline || outcome is OnRequest,
                },
            ),
    {
        match pumped {
            Err(error) => Err(error),
            Ok(outcome) => Ok(LiveWait { waited: true, asked_to_stop: outcome.broke_in() }),
        }
    }
}

/// How much of a live open's bound is left, of so many milliseconds to its deadline.
pub fn time_left(remaining_ms: u128) -> (left_ms: u32)
    ensures
        left_ms == if remaining_ms <= u32::MAX {
            remaining_ms as u32
        } else {
            LIVE_WAIT_MS
        },
{
    if remaining_ms <= 0xffff_ffff {
        remaining_ms as u32
    } else {
        LIVE_WAIT_MS
    }
}

/// A live open fails only for a target the session does not hold, and blames the bound only
/// where the bound has passed and nobody asked it to stop.
pub proof fn an_open_blames_only_what_is_missing(wait: LiveWait, presence: Presence, left_ms: u32)
    requires
        wait.step(presence, left_ms) matches LiveStep::Finished(Err(_)),
    ensures
        presence is Absent,
        wait.asked_to_stop ==> wait.step(presence, left_ms)->Finished_0->Err_0
            is LiveTargetInterrupted,
        !wait.asked_to_stop ==> left_ms == 0 && wait.step(
            presence,
            left_ms,
        )->Finished_0->Err_0 is LiveTargetTimeout,
{
}

/// A host that asks for control back gets it: after a pump that a break ended, the open waits no
/// further, whatever became of its target.
pub proof fn a_break_ends_an_open(wait: LiveWait, presence: Presence, left_ms: u32)
    requires
        wait.asked_to_stop,
    ensures
        wait.step(presence, left_ms) is Finished,
{
}

/// A wait was cut short exactly where a break ended it, and says which: the deadline with the
/// bound that passed, or a request.
pub proof fn a_break_is_told_as_what_it_was(outcome: WaitOutcome, after_ms: u32)
    ensures
        outcome.interruption(after_ms) is None <==> outcome is Stopped || outcome is Expired,
        outcome is Deadline <==> outcome.interruption(after_ms) == Some(
            Interruption::Deadline { after_ms },
        ),
        outcome is OnRequest <==> outcome.interruption(after_ms) == Some(Interruption::OnRequest),
{
}

/// A target runs exactly where its status, without the flags above it, is a go or a step: neither
/// a target that is stopped nor one that is not there does.
pub proof fn a_go_or_a_step_runs(status: u32)
    ensures
        runs(status) <==> {
            let state = status & 31;
            (1 <= state <= 5) || state == 8 || (11 <= state <= 14)
        },
        status & 31 == DEBUG_STATUS_NO_DEBUGGEE ==> !runs(status),
        status & 31 == super::codes::DEBUG_STATUS_BREAK ==> !runs(status),
{
}

/// An operation is let through exactly where a status could be read that says there is a target,
/// and a target is lost only where a status says it is.
pub proof fn only_a_held_target_is_driven(status: Result<u32, DbgEngError>)
    ensures
        refusal_without_a_debuggee(status) is None <==> (status matches Ok(status) && status != 7),
        status matches Err(error) ==> refusal_without_a_debuggee(status) == Some(error),
        status == Ok::<u32, DbgEngError>(7u32) ==> refusal_without_a_debuggee(status) == Some(
            DbgEngError::NoDebuggee,
        ),
        lost(status) <==> (status matches Ok(status) && status == 7),
        lost(status) ==> refusal_without_a_debuggee(status) is Some,
{
}

/// What a wait came back with is one thing: a failure, an arrival, or neither; and only a wait
/// with a watchdog is ended by one. A finite wait arrives by its plain success alone.
pub proof fn a_wait_came_back_once(waited: Waited, code: i32)
    ensures
        !(waited.failure() is Some && waited.arrived()),
        waited matches Waited::Finite(result) ==> {
            &&& !waited.by_watchdog()
            &&& waited.failure() is Some <==> result.code < 0
            &&& waited.failure() is Some ==> waited.failure()->0 == result
            &&& waited.arrived() <==> result.code == 0
            &&& result.code == code && code > 0 ==> waited.failure() is None && !waited.arrived()
        },
        waited matches Waited::Bounded { result, by_watchdog } ==> {
            &&& waited.by_watchdog() == by_watchdog
            &&& waited.arrived() <==> result is Ok
            &&& result matches Err(fault) ==> waited.failure() == Some(fault)
            &&& result is Ok ==> waited.failure() is None
        },
{
}

/// An engine id names one process of the session: the first that is listed under it.
pub proof fn an_engine_id_names_one_process(
    held: Seq<(u32, u32)>,
    id: u32,
    left: int,
    right: int,
)
    requires
        first_held(held, id, left),
        first_held(held, id, right),
    ensures
        left == right,
        0 <= left < held.len() && held[left].0 == id,
        forall|i: int| 0 <= i < left ==> (#[trigger] held[i]).0 != id,
{
    if left < right {
        assert(held[left].0 != id);
    }
    if right < left {
        assert(held[right].0 != id);
    }
}

/// A stop is given to one open at most, the first that wants it, and changes nothing else of any:
/// no open is added, dropped or renamed, and one that has its process keeps it.
pub proof fn a_stop_goes_to_the_first_that_wants_it(
    before: ArrivalsView,
    after: ArrivalsView,
    entry: (u32, u32),
    attached: Set<u32>,
    j: int,
)
    requires
        routed(before, after, entry, attached),
        0 <= j < before.pending.len(),
    ensures
        after.minted == before.minted,
        after.pending.len() == before.pending.len(),
        after.pending[j].id == before.pending[j].id,
        after.pending[j].what == before.pending[j].what,
        after.pending[j].arrived == before.pending[j].arrived || after.pending[j].arrived == Some(
            entry,
        ),
        before.pending[j].arrived is Some ==> after.pending[j].arrived == before.pending[j].arrived,
        after.pending[j].arrived != before.pending[j].arrived ==> before.pending[j].wants(
            entry,
            before.pending,
            attached,
        ) && forall|i: int| 0 <= i < j ==> !(#[trigger] before.takes(i, entry, attached)),
        !before.claimed(entry) && before.takes(j, entry, attached) ==> exists|i: int|
            0 <= i <= j && (#[trigger] after.pending[i]).arrived == Some(entry),
{
    if !before.claimed(entry) && exists|i: int|
        0 <= i < before.pending.len() && #[trigger] before.takes(i, entry, attached) {
        let some = choose|i: int|
            0 <= i < before.pending.len() && #[trigger] before.takes(i, entry, attached);
        let first = lemma_first_taker(before, entry, attached, some);
        assert(after == before.delivered(first, entry));
        assert(after.pending[first].arrived == Some(entry));
        if before.takes(j, entry, attached) {
            assert(first <= j);
        }
    }
}

proof fn lemma_first_taker(
    arrivals: ArrivalsView,
    entry: (u32, u32),
    attached: Set<u32>,
    some: int,
) -> (first: int)
    requires
        arrivals.takes(some, entry, attached),
        0 <= some < arrivals.pending.len(),
    ensures
        0 <= first <= some,
        arrivals.takes(first, entry, attached),
        forall|i: int| 0 <= i < first ==> !(#[trigger] arrivals.takes(i, entry, attached)),
    decreases some,
{
    if exists|i: int| 0 <= i < some && #[trigger] arrivals.takes(i, entry, attached) {
        let earlier = choose|i: int| 0 <= i < some && #[trigger] arrivals.takes(i, entry, attached);
        lemma_first_taker(arrivals, entry, attached, earlier)
    } else {
        some
    }
}

/// An open waits on exactly while its target may still come: it has not arrived, it can be asked
/// about or was not waited for yet, time is left, and nobody asked for control back. It waits for
/// no longer than is left, and where it stops a target that is there is no failure.
pub proof fn an_open_waits_while_its_target_may_come(
    wait: LiveWait,
    presence: Presence,
    left_ms: u32,
)
    ensures
        wait.step(presence, left_ms) is Pump <==> presence !is Arrived && !(presence is Unknown
            && wait.waited) && left_ms > 0 && !wait.asked_to_stop,
        wait.step(presence, left_ms) matches LiveStep::Pump { timeout_ms } ==> timeout_ms
            == left_ms,
        presence is Arrived || presence is Listed || presence is Unknown ==> !(wait.step(
            presence,
            left_ms,
        ) matches LiveStep::Finished(Err(_))),
        presence is Absent && (left_ms == 0 || wait.asked_to_stop) ==> (wait.step(
            presence,
            left_ms,
        ) matches LiveStep::Finished(Err(_))),
{
}

/// An open that ends without its target says why: it was told to stop, or its time is over; and
/// one whose target is there, or cannot be asked about, ends well.
pub proof fn an_open_says_why_its_target_is_missing(
    wait: LiveWait,
    presence: Presence,
    left_ms: u32,
)
    ensures
        wait.step(presence, left_ms) == LiveStep::Finished(
            Err(DbgEngError::LiveTargetInterrupted),
        ) <==> presence is Absent && wait.asked_to_stop,
        wait.step(presence, left_ms) == LiveStep::Finished(
            Err(DbgEngError::LiveTargetTimeout),
        ) <==> presence is Absent && !wait.asked_to_stop && left_ms == 0,
        (wait.step(presence, left_ms) matches LiveStep::Finished(Ok(_))) <==> presence is Arrived
            || (presence is Unknown && wait.waited) || (presence !is Absent && (left_ms == 0
            || wait.asked_to_stop)),
{
}

} // verus!
