//! Opening a target, up to and not including the wait for its initial break.
//!
//! The step that creates or claims a target is the last one that can fail, and what is recorded
//! of the target is recorded after it. So an opening that fails has left nothing behind, and one
//! that succeeds is not to be tried again, whatever becomes of the wait.
use vstd::prelude::*;

use super::error::{DbgEngError, EngineFault};

verus! {

/// What is opened.
#[derive(Debug, Clone, Copy, PartialEq, Eq, Structural)]
pub enum OpenKind {
    /// A process, to be created.
    Launch,
    /// A running process.
    Attach { pid: u32 },
    /// The kernel of this machine.
    LocalKernel,
    /// A kernel over a connection.
    Kernel,
    /// A running kernel over a connection, broken into upon its announcement.
    AnnouncedKernel,
    /// A dump or a trace.
    Dump,
}

/// A step of an opening.
#[derive(Debug, Clone, Copy, PartialEq, Eq, Structural)]
pub enum OpenStep {
    /// The attached processes the session no longer holds, forgotten.
    Prune,
    /// A stop at a process's initial breakpoint, asked for.
    EnableInitialBreak,
    /// The processes the session holds before this one joins them.
    Snapshot,
    /// The process, asked for. It starts during the wait.
    CreateProcess,
    /// The process, attached to.
    AttachProcess { pid: u32 },
    /// The process, recorded as attached to.
    Claim { pid: u32 },
    /// A break at the connection's first event, asked for.
    RequestInitialBreak,
    /// The output, watched for the announcement.
    WatchOutput,
    /// No break at the connection's first event.
    DropInitialBreak,
    /// The kernel, attached to.
    AttachKernel,
    /// The dump, opened.
    OpenDump,
    /// The input the engine reads during the wait, kept for the session.
    Retain,
    /// Everything recorded of the session before, forgotten.
    Forget,
    /// The opening, registered for its process's stop to be delivered to.
    Register,
}

/// The steps of an opening, in order.
pub open spec fn plan(kind: OpenKind) -> Seq<OpenStep> {
    match kind {
        OpenKind::Launch => seq![
            OpenStep::Prune,
            OpenStep::EnableInitialBreak,
            OpenStep::Snapshot,
            OpenStep::CreateProcess,
            OpenStep::Retain,
            OpenStep::Register,
        ],
        OpenKind::Attach { pid } => seq![
            OpenStep::EnableInitialBreak,
            OpenStep::AttachProcess { pid },
            OpenStep::Prune,
            OpenStep::Claim { pid },
            OpenStep::Register,
        ],
        OpenKind::LocalKernel => seq![
            OpenStep::RequestInitialBreak,
            OpenStep::AttachKernel,
            OpenStep::Forget,
        ],
        OpenKind::Kernel => seq![
            OpenStep::RequestInitialBreak,
            OpenStep::AttachKernel,
            OpenStep::Retain,
            OpenStep::Forget,
        ],
        OpenKind::AnnouncedKernel => seq![
            OpenStep::WatchOutput,
            OpenStep::DropInitialBreak,
            OpenStep::AttachKernel,
            OpenStep::Retain,
            OpenStep::Forget,
        ],
        OpenKind::Dump => seq![OpenStep::OpenDump, OpenStep::Forget],
    }
}

/// Whether a step creates or claims the target.
pub open spec fn commits(step: OpenStep) -> bool {
    step is CreateProcess || step is AttachProcess || step is AttachKernel || step is OpenDump
}

/// Whether a step records something of the target.
pub open spec fn records(step: OpenStep) -> bool {
    step is Claim || step is Retain || step is Forget || step is Register
}

/// How a step's failure is told, where the step can fail.
pub open spec fn step_error(step: OpenStep, fault: EngineFault) -> Option<DbgEngError> {
    match step {
        OpenStep::EnableInitialBreak | OpenStep::WatchOutput | OpenStep::DropInitialBreak => Some(
            DbgEngError::CommandFailed(fault),
        ),
        OpenStep::RequestInitialBreak | OpenStep::CreateProcess | OpenStep::AttachProcess { .. }
        | OpenStep::OpenDump => Some(DbgEngError::OperationFailed(fault)),
        OpenStep::AttachKernel => Some(DbgEngError::AttachFailed(fault)),
        _ => None,
    }
}

/// Whether a step can fail.
pub open spec fn fallible(step: OpenStep) -> bool {
    commits(step) || step is EnableInitialBreak || step is RequestInitialBreak || step is WatchOutput
        || step is DropInitialBreak
}

/// An opening, and how far it has come.
#[derive(Debug, Clone, Copy, PartialEq, Eq, Structural)]
pub struct Opening {
    pub kind: OpenKind,
    pub done: usize,
}

impl Opening {
    /// The step to take next.
    pub open spec fn next_step(&self) -> Option<OpenStep> {
        if self.done < plan(self.kind).len() {
            Some(plan(self.kind)[self.done as int])
        } else {
            None
        }
    }

    /// An opening that has done nothing yet.
    pub fn new(kind: OpenKind) -> (opening: Opening)
        ensures
            opening == (Opening { kind, done: 0 }),
    {
        Opening { kind, done: 0 }
    }

    /// The step to take next, or `None` where the target is opened.
    pub fn next(&self) -> (step: Option<OpenStep>)
        ensures
            step == self.next_step(),
    {
        match (self.kind, self.done) {
            (OpenKind::Launch, 0) => Some(OpenStep::Prune),
            (OpenKind::Launch, 1) => Some(OpenStep::EnableInitialBreak),
            (OpenKind::Launch, 2) => Some(OpenStep::Snapshot),
            (OpenKind::Launch, 3) => Some(OpenStep::CreateProcess),
            (OpenKind::Launch, 4) => Some(OpenStep::Retain),
            (OpenKind::Launch, 5) => Some(OpenStep::Register),
            (OpenKind::Attach { .. }, 0) => Some(OpenStep::EnableInitialBreak),
            (OpenKind::Attach { pid }, 1) => Some(OpenStep::AttachProcess { pid }),
            (OpenKind::Attach { .. }, 2) => Some(OpenStep::Prune),
            (OpenKind::Attach { pid }, 3) => Some(OpenStep::Claim { pid }),
            (OpenKind::Attach { .. }, 4) => Some(OpenStep::Register),
            (OpenKind::LocalKernel, 0) => Some(OpenStep::RequestInitialBreak),
            (OpenKind::LocalKernel, 1) => Some(OpenStep::AttachKernel),
            (OpenKind::LocalKernel, 2) => Some(OpenStep::Forget),
            (OpenKind::Kernel, 0) => Some(OpenStep::RequestInitialBreak),
            (OpenKind::Kernel, 1) => Some(OpenStep::AttachKernel),
            (OpenKind::Kernel, 2) => Some(OpenStep::Retain),
            (OpenKind::Kernel, 3) => Some(OpenStep::Forget),
            (OpenKind::AnnouncedKernel, 0) => Some(OpenStep::WatchOutput),
            (OpenKind::AnnouncedKernel, 1) => Some(OpenStep::DropInitialBreak),
            (OpenKind::AnnouncedKernel, 2) => Some(OpenStep::AttachKernel),
            (OpenKind::AnnouncedKernel, 3) => Some(OpenStep::Retain),
            (OpenKind::AnnouncedKernel, 4) => Some(OpenStep::Forget),
            (OpenKind::Dump, 0) => Some(OpenStep::OpenDump),
            (OpenKind::Dump, 1) => Some(OpenStep::Forget),
            _ => None,
        }
    }

    /// Takes what the step came to. A step that fails ends the opening; one that cannot fail is
    /// done whatever is said of it.
    pub fn take(self, reply: Result<(), EngineFault>) -> (opening: Result<Opening, DbgEngError>)
        requires
            self.next_step() is Some,
        ensures
            opening == match reply {
                Err(fault) if fallible(self.next_step()->0) => Err::<Opening, DbgEngError>(
                    step_error(self.next_step()->0, fault)->0,
                ),
                _ => Ok::<Opening, DbgEngError>(
                    Opening { done: (self.done + 1) as usize, ..self },
                ),
            },
    {
        if let (Err(fault), Some(step)) = (reply, self.next()) {
            match step {
                OpenStep::EnableInitialBreak
                | OpenStep::WatchOutput
                | OpenStep::DropInitialBreak => return Err(DbgEngError::CommandFailed(fault)),
                OpenStep::RequestInitialBreak
                | OpenStep::CreateProcess
                | OpenStep::AttachProcess { .. }
                | OpenStep::OpenDump => return Err(DbgEngError::OperationFailed(fault)),
                OpenStep::AttachKernel => return Err(DbgEngError::AttachFailed(fault)),
                _ => {},
            }
        }
        Ok(Opening { done: self.done + 1, ..self })
    }
}

/// One step of an opening commits it. Nothing before it records anything, and nothing after it can
/// fail.
pub proof fn an_opening_commits_once(kind: OpenKind)
    ensures
        exists|at: int|
            0 <= at < plan(kind).len() && commits(#[trigger] plan(kind)[at]) && (forall|i: int|
                0 <= i < at ==> !records(#[trigger] plan(kind)[i]) && !commits(plan(kind)[i])) && (
            forall|i: int|
                at < i < plan(kind).len() ==> !fallible(#[trigger] plan(kind)[i]) && !commits(
                    plan(kind)[i],
                )),
{
    let at: int = match kind {
        OpenKind::Launch => 3,
        OpenKind::Attach { .. } => 1,
        OpenKind::LocalKernel => 1,
        OpenKind::Kernel => 1,
        OpenKind::AnnouncedKernel => 2,
        OpenKind::Dump => 0,
    };
    assert(commits(plan(kind)[at]));
}

/// Whether an opening has taken a step.
pub open spec fn took(opening: Opening, step: OpenStep) -> bool {
    exists|i: int|
        0 <= i < opening.done && i < plan(opening.kind).len() && #[trigger] plan(opening.kind)[i]
            == step
}

/// A launched process can be told apart from those before it: they are listed before it is asked
/// for, and by then no process that left is still taken for one that was attached to.
pub proof fn a_launch_looks_first(opening: Opening)
    requires
        opening.next_step() == Some(OpenStep::CreateProcess),
    ensures
        took(opening, OpenStep::Prune),
        took(opening, OpenStep::Snapshot),
{
    assert(plan(opening.kind)[0] == OpenStep::Prune);
    assert(plan(opening.kind)[2] == OpenStep::Snapshot);
}

/// A process is recorded as attached to only once it is.
pub proof fn only_what_is_attached_is_claimed(opening: Opening, pid: u32)
    requires
        opening.next_step() == Some(OpenStep::Claim { pid }),
    ensures
        took(opening, OpenStep::AttachProcess { pid }),
{
    assert(plan(opening.kind)[1] == (OpenStep::AttachProcess { pid }));
}

/// Which steps an opening takes is told by what it opens.
pub proof fn an_opening_takes_what_its_kind_needs(kind: OpenKind, pid: u32)
    ensures
        ({
            let process = kind is Launch || kind is Attach;
            let kernel = kind is LocalKernel || kind is Kernel || kind is AnnouncedKernel;
            &&& plan(kind).contains(OpenStep::Prune) <==> process
            &&& plan(kind).contains(OpenStep::EnableInitialBreak) <==> process
            &&& plan(kind).contains(OpenStep::Register) <==> process
            &&& plan(kind).contains(OpenStep::Snapshot) <==> kind is Launch
            &&& plan(kind).contains(OpenStep::CreateProcess) <==> kind is Launch
            &&& plan(kind).contains(OpenStep::AttachProcess { pid }) <==> kind
                == (OpenKind::Attach { pid })
            &&& plan(kind).contains(OpenStep::Claim { pid }) <==> kind == (OpenKind::Attach { pid })
            &&& plan(kind).contains(OpenStep::RequestInitialBreak) <==> kind is LocalKernel
                || kind is Kernel
            &&& plan(kind).contains(OpenStep::WatchOutput) <==> kind is AnnouncedKernel
            &&& plan(kind).contains(OpenStep::DropInitialBreak) <==> kind is AnnouncedKernel
            &&& plan(kind).contains(OpenStep::AttachKernel) <==> kernel
            &&& plan(kind).contains(OpenStep::OpenDump) <==> kind is Dump
            &&& plan(kind).contains(OpenStep::Retain) <==> kind is Launch || kind is Kernel
                || kind is AnnouncedKernel
            &&& plan(kind).contains(OpenStep::Forget) <==> kernel || kind is Dump
        }),
{
    let steps = plan(kind);
    if kind is Launch {
        assert(steps[0] is Prune && steps[1] is EnableInitialBreak && steps[2] is Snapshot
            && steps[3] is CreateProcess && steps[4] is Retain && steps[5] is Register);
    } else if kind is Attach {
        assert(steps[0] is EnableInitialBreak && steps[1] is AttachProcess && steps[2] is Prune
            && steps[3] is Claim && steps[4] is Register);
    } else if kind is LocalKernel {
        assert(steps[0] is RequestInitialBreak && steps[1] is AttachKernel && steps[2] is Forget);
    } else if kind is Kernel {
        assert(steps[0] is RequestInitialBreak && steps[1] is AttachKernel && steps[2] is Retain
            && steps[3] is Forget);
    } else if kind is AnnouncedKernel {
        assert(steps[0] is WatchOutput && steps[1] is DropInitialBreak && steps[2] is AttachKernel
            && steps[3] is Retain && steps[4] is Forget);
    } else {
        assert(steps[0] is OpenDump && steps[1] is Forget);
    }
}

/// Where a step stands among those of one opening: what is asked for and watched, the target, and
/// what is recorded of it.
pub open spec fn rank(step: OpenStep) -> int {
    match step {
        OpenStep::EnableInitialBreak | OpenStep::RequestInitialBreak | OpenStep::WatchOutput => 0,
        OpenStep::Snapshot | OpenStep::DropInitialBreak => 1,
        OpenStep::CreateProcess | OpenStep::AttachProcess { .. } | OpenStep::AttachKernel
        | OpenStep::OpenDump => 2,
        OpenStep::Prune => 3,
        OpenStep::Claim { .. } | OpenStep::Retain => 4,
        OpenStep::Forget | OpenStep::Register => 5,
    }
}

/// The steps of an opening stand in their order, and none stands twice; only a launch prunes
/// before anything else, so that what it finds is what is there.
pub proof fn the_steps_stand_in_order(kind: OpenKind, i: int, j: int)
    requires
        0 <= i < j < plan(kind).len(),
    ensures
        plan(kind)[i] != plan(kind)[j],
        rank(plan(kind)[i]) < rank(plan(kind)[j]) || (i == 0 && kind is Launch && plan(kind)[i]
            is Prune),
{
}

/// An opening's next step is the one it has not taken yet, and there is none once all are taken.
pub proof fn steps_are_taken_one_by_one(opening: Opening, step: OpenStep)
    ensures
        opening.next_step() is None <==> opening.done >= plan(opening.kind).len(),
        opening.next_step() == Some(step) ==> step == plan(opening.kind)[opening.done as int],
        opening.done < plan(opening.kind).len() ==> opening.next_step() is Some,
{
}

/// A step that can be refused is refused as what it is, with the engine's own fault; the others
/// are the library's own and cannot be.
pub proof fn a_refused_step_is_told_as_what_it_is(step: OpenStep, fault: EngineFault)
    ensures
        step_error(step, fault) == Some(DbgEngError::CommandFailed(fault)) <==> step
            is EnableInitialBreak || step is WatchOutput || step is DropInitialBreak,
        step_error(step, fault) == Some(DbgEngError::OperationFailed(fault)) <==> step
            is RequestInitialBreak || step is CreateProcess || step is AttachProcess || step
            is OpenDump,
        step_error(step, fault) == Some(DbgEngError::AttachFailed(fault)) <==> step is AttachKernel,
        step_error(step, fault) is None <==> step is Prune || step is Snapshot || step is Claim
            || step is Retain || step is Forget || step is Register,
        fallible(step) <==> step_error(step, fault) is Some,
        commits(step) && records(step) ==> false,
        commits(step) ==> fallible(step),
        records(step) ==> !fallible(step),
{
}

} // verus!
