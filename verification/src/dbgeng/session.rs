//! Opening and ending a session.
//!
//! What ending one does to a target depends on where the target came from: a live kernel is set
//! running and let go, a process this engine attached to is detached and left running, and what
//! this engine created goes with the session.
use std::collections::HashSet;
use vstd::prelude::*;
use vstd::string::*;

use super::codes::{DEBUG_END_ACTIVE_DETACH, DEBUG_END_PASSIVE};
use super::error::{in_context, DbgEngError, EngineFault};

verus! {

/// Whether a session holds a process of the system's id. A process is the engine's id for it and
/// the system's.
pub open spec fn holds(held: Seq<(u32, u32)>, pid: u32) -> bool {
    exists|i: int| 0 <= i < held.len() && (#[trigger] held[i]).1 == pid
}

/// What counting the processes of the session came to.
pub fn process_count(reply: Result<u32, EngineFault>) -> (count: Result<u32, DbgEngError>)
    ensures
        match reply {
            Ok(value) => count == Ok::<u32, DbgEngError>(value),
            Err(fault) => count matches Err(error) && error.is_context(
                "counting the processes in this session"@,
                fault,
            ),
        },
{
    in_context(String::from_str("counting the processes in this session"), reply)
}

/// What listing the processes of the session came to: the engine's ids and the system's, in one
/// order.
pub fn session_processes(reply: Result<(Vec<u32>, Vec<u32>), EngineFault>) -> (held: Result<
    Vec<(u32, u32)>,
    DbgEngError,
>)
    ensures
        match reply {
            Ok((ids, pids)) => {
                &&& held matches Ok(held)
                &&& held@.len() == if ids@.len() <= pids@.len() {
                    ids@.len()
                } else {
                    pids@.len()
                }
                &&& forall|i: int|
                    0 <= i < held@.len() ==> #[trigger] held@[i] == (ids@[i], pids@[i])
            },
            Err(fault) => held matches Err(error) && error.is_context(
                "listing the processes in this session"@,
                fault,
            ),
        },
{
    let (ids, pids) = match reply {
        Ok(lists) => lists,
        Err(source) => return Err(
            DbgEngError::Context {
                operation: String::from_str("listing the processes in this session"),
                source,
            },
        ),
    };
    let mut held: Vec<(u32, u32)> = Vec::new();
    let mut i: usize = 0;
    while i < ids.len() && i < pids.len()
        invariant
            i <= ids@.len(),
            i <= pids@.len(),
            held@.len() == i,
            forall|j: int|
                0 <= j < i ==> #[trigger] held@[j] == (ids@[j], pids@[j]),
        decreases ids@.len() - i,
    {
        held.push((ids[i], pids[i]));
        i += 1;
    }
    Ok(held)
}

/// The processes the session holds: none where it holds no target, which is not asked for any.
pub fn held_processes(
    has_target: Result<bool, DbgEngError>,
    listing: Result<Vec<(u32, u32)>, DbgEngError>,
) -> (held: Result<Vec<(u32, u32)>, DbgEngError>)
    ensures
        match has_target {
            Err(error) => held == Err::<Vec<(u32, u32)>, DbgEngError>(error),
            Ok(false) => held matches Ok(held) && held@ == Seq::<(u32, u32)>::empty(),
            Ok(true) => held == listing,
        },
{
    match has_target {
        Err(error) => Err(error),
        Ok(false) => Ok(Vec::new()),
        Ok(true) => listing,
    }
}

/// The processes this engine attached to, by the system's ids.
pub struct Attached {
    pub pids: HashSet<u32>,
}

impl Attached {
    /// No process was attached to.
    pub fn new() -> (attached: Attached)
        ensures
            attached.pids@ == Set::<u32>::empty(),
    {
        Attached { pids: HashSet::new() }
    }

    /// Records a process this engine attached to.
    pub fn claim(&mut self, pid: u32)
        ensures
            final(self).pids@ == old(self).pids@.insert(pid),
    {
        broadcast use vstd::std_specs::hash::group_hash_axioms;

        self.pids.insert(pid);
    }

    /// Whether a process is one this engine attached to.
    pub fn has(&self, pid: u32) -> (has: bool)
        ensures
            has == self.pids@.contains(pid),
    {
        broadcast use vstd::std_specs::hash::group_hash_axioms;

        self.pids.contains(&pid)
    }

    /// Forgets the processes the session no longer holds: the system may hand their ids to
    /// processes this engine creates. A session that cannot be listed has nothing forgotten.
    pub fn prune(&mut self, held: Option<&Vec<(u32, u32)>>)
        ensures
            match held {
                Some(held) => final(self).pids@ == old(self).pids@.filter(
                    |pid: u32| holds(held@, pid),
                ),
                None => final(self).pids@ == old(self).pids@,
            },
    {
        broadcast use vstd::std_specs::hash::group_hash_axioms;

        let held = match held {
            Some(held) => held,
            None => return,
        };
        let mut kept: HashSet<u32> = HashSet::new();
        let mut i: usize = 0;
        while i < held.len()
            invariant
                i <= held@.len(),
                self.pids@ == old(self).pids@,
                forall|pid: u32| #[trigger]
                    kept@.contains(pid) <==> self.pids@.contains(pid) && holds(
                        held@.take(i as int),
                        pid,
                    ),
            decreases held@.len() - i,
        {
            let pid: u32 = held[i].1;
            let ghost before = kept@;
            if self.pids.contains(&pid) {
                kept.insert(pid);
            }
            proof {
                assert forall|one: u32| #[trigger] kept@.contains(one) <==> self.pids@.contains(one)
                    && holds(held@.take(i + 1), one) by {
                    let less = held@.take(i as int);
                    let more = held@.take(i + 1);
                    assert(more[i as int].1 == pid);
                    if holds(less, one) {
                        let at = choose|at: int|
                            0 <= at < less.len() && (#[trigger] less[at]).1 == one;
                        assert(more[at].1 == one);
                    }
                    if holds(more, one) && one != pid {
                        let at = choose|at: int|
                            0 <= at < more.len() && (#[trigger] more[at]).1 == one;
                        assert(less[at].1 == one);
                    }
                    assert(before.contains(one) <==> self.pids@.contains(one) && holds(less, one));
                }
            }
            i += 1;
        }
        assert(held@.take(held@.len() as int) =~= held@);
        assert(kept@ =~= self.pids@.filter(|pid: u32| holds(held@, pid)));
        self.pids = kept;
    }

    /// Forgets every process.
    pub fn forget(&mut self)
        ensures
            final(self).pids@ == Set::<u32>::empty(),
    {
        self.pids = HashSet::new();
    }

    /// Whether the session holds a process this engine attached to. It is the session that is
    /// asked: an attached process can leave on its own.
    pub fn to_a_live_process(&self, held: Option<&Vec<(u32, u32)>>) -> (live: bool)
        ensures
            live == (held matches Some(held) && exists|i: int|
                0 <= i < held@.len() && self.pids@.contains((#[trigger] held@[i]).1)),
    {
        let held = match held {
            Some(held) => held,
            None => return false,
        };
        let mut live: bool = false;
        let mut i: usize = 0;
        while i < held.len() && !live
            invariant
                i <= held@.len(),
                live <==> exists|j: int|
                    0 <= j < i && self.pids@.contains((#[trigger] held@[j]).1),
            decreases held@.len() - i,
        {
            live = self.has(held[i].1);
            i += 1;
        }
        live
    }
}

/// A process that left is forgotten by the next opening, and one that stays is not: an id the
/// system hands out again is not taken for a process that was attached to.
pub proof fn a_process_that_left_is_forgotten(
    attached: Set<u32>,
    held: Seq<(u32, u32)>,
    pid: u32,
)
    ensures
        attached.filter(|pid: u32| holds(held, pid)).contains(pid) <==> attached.contains(pid)
            && holds(held, pid),
{
}

/// What ending a session asks of the engine next.
#[derive(Debug, Clone, Copy, PartialEq, Eq, Structural)]
pub enum TeardownCall {
    /// A new identity for the client: nothing cached against its target is to be reused.
    Reissue,
    /// Whether the target is a live kernel.
    AskLiveKernel,
    /// No more breakpoints: a patched one would stay in whatever goes on running.
    ClearBreakpoints,
    /// The target, set running.
    Resume,
    /// The processes of the session.
    ListProcesses,
    /// No more of a process, which goes on running.
    Detach { id: u32 },
    /// The end, with the engine's flag for how.
    EndSession { how: u32 },
    /// No more of what was kept for the session: the inputs it may still read, and the openings
    /// that wait on it.
    Release,
    /// The inputs the session may still read, left to it for good.
    Leak,
    /// Nothing: it is over.
    Finish,
}

/// Who ends the session.
#[derive(Debug, Clone, Copy, PartialEq, Eq, Structural)]
pub enum Ending {
    /// The host asks for it.
    Asked,
    /// The engine goes away, and the session with it where it is the engine's own.
    Dropped { owns_session: bool },
}

/// What detaching from a process came to.
pub enum DetachReply {
    Detached,
    Failed(EngineFault),
    /// The engine's objects could not be had, so no other process can be detached from either.
    Unreachable(DbgEngError),
}

/// What the engine has answered to ending its session so far.
pub struct Teardown {
    pub ending: Ending,
    /// The processes this engine attached to.
    pub attached: Attached,
    pub reissued: bool,
    pub live_kernel: Option<bool>,
    pub cleared: bool,
    pub resumed: bool,
    /// What listing the processes came to: those to detach from, by the engine's ids.
    pub listed: Option<Result<Vec<u32>, DbgEngError>>,
    /// How many of them were tried.
    pub tried: usize,
    /// The first detach that failed.
    pub failure: Option<DbgEngError>,
    /// Whether no other process can be detached from.
    pub unreachable: bool,
    pub ended: Option<Result<(), EngineFault>>,
    pub released: bool,
    pub leaked: bool,
}

/// The engine's ids of the processes that were attached to, in the session's order.
pub open spec fn to_detach(held: Seq<(u32, u32)>, attached: Set<u32>) -> Seq<u32>
    decreases held.len(),
{
    if held.len() == 0 {
        Seq::empty()
    } else {
        let before = to_detach(held.drop_last(), attached);
        if attached.contains(held.last().1) {
            before.push(held.last().0)
        } else {
            before
        }
    }
}

/// An ending ends: every answer lowers how many questions may still be asked, and that is never
/// below none.
pub proof fn a_teardown_ends(teardown: Teardown)
    requires
        teardown.consistent(),
    ensures
        teardown.unasked() >= 0,
{
}

/// Every process that was attached to is detached from, and no process that was not: one this
/// engine created is left for the end to take.
pub proof fn only_the_attached_are_detached(
    held: Seq<(u32, u32)>,
    attached: Set<u32>,
    id: u32,
)
    ensures
        to_detach(held, attached).contains(id) <==> exists|i: int|
            0 <= i < held.len() && (#[trigger] held[i]).0 == id && attached.contains(held[i].1),
    decreases held.len(),
{
    if held.len() > 0 {
        let front = held.drop_last();
        let before = to_detach(front, attached);
        let all = to_detach(held, attached);
        only_the_attached_are_detached(front, attached, id);
        if all.contains(id) {
            let at = choose|at: int| 0 <= at < all.len() && all[at] == id;
            if at < before.len() {
                assert(before[at] == id);
                let i = choose|i: int|
                    0 <= i < front.len() && (#[trigger] front[i]).0 == id && attached.contains(
                        front[i].1,
                    );
                assert(held[i] == front[i]);
            } else {
                assert(held[held.len() - 1].0 == id);
            }
        }
        if exists|i: int|
            0 <= i < held.len() && (#[trigger] held[i]).0 == id && attached.contains(
                held[i].1,
            ) {
            let i = choose|i: int|
                0 <= i < held.len() && (#[trigger] held[i]).0 == id && attached.contains(
                    held[i].1,
                );
            if i < front.len() {
                assert(front[i] == held[i]);
                let at = choose|at: int| 0 <= at < before.len() && before[at] == id;
                assert(all[at] == id);
            } else {
                assert(all[all.len() - 1] == id);
            }
        }
    }
}

impl Teardown {
    /// Whether there is a session to end: a borrowed one is left to its host.
    pub open spec fn ends(&self) -> bool {
        match self.ending {
            Ending::Asked => true,
            Ending::Dropped { owns_session } => owns_session,
        }
    }

    /// Whether a process is still to be detached from.
    pub open spec fn detaches(&self) -> bool {
        &&& !self.unreachable
        &&& self.listed matches Some(Ok(ids)) && self.tried < ids@.len()
    }

    /// What is asked of the engine next.
    pub open spec fn next_call(&self) -> TeardownCall {
        if !self.ends() {
            if self.leaked {
                TeardownCall::Finish
            } else {
                TeardownCall::Leak
            }
        } else if self.ending is Asked && !self.reissued {
            TeardownCall::Reissue
        } else if self.live_kernel is None {
            TeardownCall::AskLiveKernel
        } else if self.ended is Some {
            if self.ending is Asked && self.ended->0 is Ok && !self.released {
                TeardownCall::Release
            } else {
                TeardownCall::Finish
            }
        } else if self.live_kernel->0 {
            if !self.cleared {
                TeardownCall::ClearBreakpoints
            } else if !self.resumed {
                TeardownCall::Resume
            } else {
                TeardownCall::EndSession { how: DEBUG_END_ACTIVE_DETACH }
            }
        } else if self.attached.pids@.len() > 0 && !self.cleared {
            TeardownCall::ClearBreakpoints
        } else if self.attached.pids@.len() > 0 && self.listed is None {
            TeardownCall::ListProcesses
        } else if self.detaches() {
            TeardownCall::Detach { id: self.listed->0->Ok_0@[self.tried as int] }
        } else {
            TeardownCall::EndSession { how: DEBUG_END_PASSIVE }
        }
    }

    /// What letting the attached processes go came to.
    pub open spec fn detach_failure(&self) -> Option<DbgEngError> {
        match self.listed {
            Some(Err(error)) => Some(error),
            _ => self.failure,
        }
    }

    /// What ending the session came to: its own failure, or else that of a detach.
    pub open spec fn report(&self) -> Result<(), DbgEngError> {
        match self.ended {
            Some(Err(fault)) => Err(DbgEngError::OperationFailed(fault)),
            _ => match self.detach_failure() {
                Some(error) => Err(error),
                None => Ok(()),
            },
        }
    }

    /// What holds of every ending that was asked in order.
    pub open spec fn consistent(&self) -> bool {
        &&& self.ended is Some ==> self.ends() && self.live_kernel is Some
        &&& self.ended is Some && self.live_kernel->0 ==> self.cleared && self.resumed
        &&& self.ended is Some && !self.live_kernel->0 && self.attached.pids@.len() > 0
            ==> self.cleared && self.listed is Some && !self.detaches()
        &&& self.listed is Some || self.failure is Some ==> self.live_kernel == Some(false)
        &&& self.listed matches Some(Ok(ids)) ==> self.tried <= ids@.len()
        &&& self.released ==> self.ending is Asked && (self.ended matches Some(Ok(_)))
        &&& self.leaked ==> !self.ends()
    }

    /// How many questions may still be asked.
    pub open spec fn unasked(&self) -> int {
        let one = |open: bool|
            if open {
                1int
            } else {
                0int
            };
        let detaches = match self.listed {
            None => usize::MAX + 1,
            Some(Ok(ids)) => ids@.len() - self.tried,
            Some(Err(_)) => 0,
        };
        one(!self.reissued) + one(self.live_kernel is None) + one(!self.cleared) + one(
            !self.resumed,
        ) + detaches + one(self.ended is None) + one(!self.released) + one(!self.leaked)
    }
}

impl Teardown {
    /// An ending that has asked nothing yet. `attached` is what the engine has attached to.
    pub fn new(ending: Ending, attached: Attached) -> (teardown: Teardown)
        ensures
            teardown.ending == ending,
            teardown.attached == attached,
            !teardown.reissued && teardown.live_kernel is None && !teardown.cleared
                && !teardown.resumed && teardown.listed is None && teardown.tried == 0
                && teardown.failure is None && !teardown.unreachable && teardown.ended is None
                && !teardown.released && !teardown.leaked,
            teardown.consistent(),
    {
        broadcast use vstd::std_specs::hash::group_hash_axioms;

        Teardown {
            ending,
            attached,
            reissued: false,
            live_kernel: None,
            cleared: false,
            resumed: false,
            listed: None,
            tried: 0,
            failure: None,
            unreachable: false,
            ended: None,
            released: false,
            leaked: false,
        }
    }

    /// What to ask of the engine next.
    pub fn next(&self) -> (call: TeardownCall)
        ensures
            call == self.next_call(),
    {
        broadcast use vstd::std_specs::hash::group_hash_axioms;

        let asked: bool = match self.ending {
            Ending::Asked => true,
            Ending::Dropped { owns_session } => {
                if !owns_session {
                    return if self.leaked {
                        TeardownCall::Finish
                    } else {
                        TeardownCall::Leak
                    };
                }
                false
            },
        };
        if asked && !self.reissued {
            return TeardownCall::Reissue;
        }
        let live: bool = match self.live_kernel {
            None => return TeardownCall::AskLiveKernel,
            Some(live) => live,
        };
        if let Some(ended) = &self.ended {
            return if asked && ended.is_ok() && !self.released {
                TeardownCall::Release
            } else {
                TeardownCall::Finish
            };
        }
        if live {
            return if !self.cleared {
                TeardownCall::ClearBreakpoints
            } else if !self.resumed {
                TeardownCall::Resume
            } else {
                TeardownCall::EndSession { how: DEBUG_END_ACTIVE_DETACH }
            };
        }
        let some: bool = self.attached.pids.len() > 0;
        if some && !self.cleared {
            return TeardownCall::ClearBreakpoints;
        }
        if some && self.listed.is_none() {
            return TeardownCall::ListProcesses;
        }
        if let Some(Ok(ids)) = &self.listed {
            if !self.unreachable && self.tried < ids.len() {
                return TeardownCall::Detach { id: ids[self.tried] };
            }
        }
        TeardownCall::EndSession { how: DEBUG_END_PASSIVE }
    }

    /// The client has a new identity.
    pub fn reissued(&mut self)
        requires
            old(self).consistent(),
            old(self).next_call() is Reissue,
        ensures
            *final(self) == (Teardown { reissued: true, ..*old(self) }),
            final(self).consistent(),
            final(self).unasked() < old(self).unasked(),
    {
        self.reissued = true;
    }

    /// Takes whether the target is a live kernel.
    pub fn live_kernel(&mut self, live: bool)
        requires
            old(self).consistent(),
            old(self).next_call() is AskLiveKernel,
        ensures
            *final(self) == (Teardown { live_kernel: Some(live), ..*old(self) }),
            final(self).consistent(),
            final(self).unasked() < old(self).unasked(),
    {
        self.live_kernel = Some(live);
    }

    /// The breakpoints were cleared, as far as they could be.
    pub fn cleared(&mut self)
        requires
            old(self).consistent(),
            old(self).next_call() is ClearBreakpoints,
        ensures
            *final(self) == (Teardown { cleared: true, ..*old(self) }),
            final(self).consistent(),
            final(self).unasked() < old(self).unasked(),
    {
        self.cleared = true;
    }

    /// The target was set running, as far as it could be.
    pub fn resumed(&mut self)
        requires
            old(self).consistent(),
            old(self).next_call() is Resume,
        ensures
            *final(self) == (Teardown { resumed: true, ..*old(self) }),
            final(self).consistent(),
            final(self).unasked() < old(self).unasked(),
    {
        self.resumed = true;
    }

    /// Takes the processes of the session. Where they cannot be listed nothing is detached from,
    /// and that is the failure.
    pub fn listed(&mut self, held: Result<Vec<(u32, u32)>, DbgEngError>)
        requires
            old(self).consistent(),
            old(self).next_call() is ListProcesses,
        ensures
            final(self).listed is Some,
            *final(self) == (Teardown { listed: final(self).listed, tried: 0, ..*old(self) }),
            match held {
                Ok(held) => final(self).listed->0 matches Ok(ids) && ids@ == to_detach(
                    held@,
                    old(self).attached.pids@,
                ),
                Err(error) => final(self).listed->0 == Err::<Vec<u32>, DbgEngError>(error),
            },
            final(self).consistent(),
            final(self).unasked() < old(self).unasked(),
    {
        self.tried = 0;
        let held = match held {
            Ok(held) => held,
            Err(error) => {
                self.listed = Some(Err(error));
                return;
            },
        };
        let mut ids: Vec<u32> = Vec::new();
        let mut i: usize = 0;
        while i < held.len()
            invariant
                i <= held@.len(),
                ids@ == to_detach(held@.take(i as int), self.attached.pids@),
            decreases held@.len() - i,
        {
            assert(held@.take(i + 1).drop_last() =~= held@.take(i as int));
            if self.attached.has(held[i].1) {
                ids.push(held[i].0);
            }
            i += 1;
        }
        assert(held@.take(held@.len() as int) =~= held@);
        assert(ids@.len() == ids.len());
        self.listed = Some(Ok(ids));
    }

    /// Takes what detaching from the process that was named came to. The first failure is kept.
    pub fn detached(&mut self, reply: DetachReply)
        requires
            old(self).consistent(),
            old(self).next_call() is Detach,
        ensures
            *final(self) == match reply {
                DetachReply::Detached => Teardown {
                    tried: (old(self).tried + 1) as usize,
                    ..*old(self)
                },
                DetachReply::Failed(fault) => Teardown {
                    tried: (old(self).tried + 1) as usize,
                    failure: if old(self).failure is Some {
                        old(self).failure
                    } else {
                        Some(DbgEngError::OperationFailed(fault))
                    },
                    ..*old(self)
                },
                DetachReply::Unreachable(error) => Teardown {
                    tried: (old(self).tried + 1) as usize,
                    failure: Some(error),
                    unreachable: true,
                    ..*old(self)
                },
            },
            final(self).consistent(),
            final(self).unasked() < old(self).unasked(),
    {
        let total: usize = match &self.listed {
            Some(Ok(ids)) => ids.len(),
            _ => 0,
        };
        assert(self.tried < total);
        self.tried = self.tried + 1;
        match reply {
            DetachReply::Detached => {},
            DetachReply::Failed(fault) => {
                if self.failure.is_none() {
                    self.failure = Some(DbgEngError::OperationFailed(fault));
                }
            },
            DetachReply::Unreachable(error) => {
                self.failure = Some(error);
                self.unreachable = true;
            },
        }
    }

    /// Takes what ending the session came to.
    pub fn ended(&mut self, ended: Result<(), EngineFault>)
        requires
            old(self).consistent(),
            old(self).next_call() is EndSession,
        ensures
            *final(self) == (Teardown { ended: Some(ended), ..*old(self) }),
            final(self).consistent(),
            final(self).unasked() < old(self).unasked(),
    {
        self.ended = Some(ended);
    }

    /// What was kept for the session is let go of.
    pub fn released(&mut self)
        requires
            old(self).consistent(),
            old(self).next_call() is Release,
        ensures
            *final(self) == (Teardown { released: true, ..*old(self) }),
            final(self).consistent(),
            final(self).unasked() < old(self).unasked(),
    {
        self.released = true;
    }

    /// What was kept for the session is left to it.
    pub fn leaked(&mut self)
        requires
            old(self).consistent(),
            old(self).next_call() is Leak,
        ensures
            *final(self) == (Teardown { leaked: true, ..*old(self) }),
            final(self).consistent(),
            final(self).unasked() < old(self).unasked(),
    {
        self.leaked = true;
    }

    /// What ending the session came to, once there is nothing left to ask.
    pub fn finish(self) -> (result: Result<(), DbgEngError>)
        requires
            self.consistent(),
            self.next_call() is Finish,
        ensures
            result == self.report(),
    {
        if let Some(Err(fault)) = self.ended {
            return Err(DbgEngError::OperationFailed(fault));
        }
        match self.listed {
            Some(Err(error)) => Err(error),
            _ => match self.failure {
                Some(error) => Err(error),
                None => Ok(()),
            },
        }
    }
}

/// A live kernel is never left halted: its session ends only after it was set running, and with an
/// end that says so to the target.
pub proof fn a_live_kernel_is_left_running(teardown: Teardown)
    requires
        teardown.consistent(),
        teardown.live_kernel == Some(true),
    ensures
        teardown.next_call() is EndSession ==> teardown.cleared && teardown.resumed
            && teardown.next_call() == (TeardownCall::EndSession { how: DEBUG_END_ACTIVE_DETACH }),
        teardown.ended is Some ==> teardown.cleared && teardown.resumed,
{
}

/// The session ends only once every process that was attached to has been let go of, or cannot be:
/// each was tried, unless the session could not be listed or the engine's objects not be had. No
/// breakpoint is left behind in one of them.
pub proof fn the_attached_are_let_go_first(teardown: Teardown)
    requires
        teardown.consistent(),
        teardown.next_call() is EndSession,
        teardown.live_kernel == Some(false),
        teardown.attached.pids@.len() > 0,
    ensures
        teardown.cleared,
        teardown.listed is Some,
        teardown.listed matches Some(Ok(ids)) ==> teardown.unreachable || teardown.tried
            == ids@.len(),
{
}

/// A session is ended whatever became of the processes in it, and a failure to let one of them go
/// is still told.
pub proof fn a_session_ends_either_way(teardown: Teardown)
    requires
        teardown.consistent(),
        teardown.next_call() is Finish,
        teardown.ends(),
    ensures
        teardown.ended is Some,
        teardown.report() is Ok ==> teardown.ended->0 is Ok && teardown.failure is None,
{
}

/// What is kept for a session is let go of only once the session is gone, and a session that is
/// gone has it let go of even where a detach failed.
pub proof fn what_is_kept_outlives_the_session(teardown: Teardown)
    requires
        teardown.consistent(),
        teardown.ending is Asked,
    ensures
        teardown.next_call() is Release || teardown.released ==> teardown.ended matches Some(Ok(_)),
        teardown.next_call() is Finish && (teardown.ended matches Some(Ok(_)))
            ==> teardown.released,
{
}

/// A session that is not the engine's own is never ended by the engine's going away.
pub proof fn a_borrowed_session_is_left_alone(teardown: Teardown)
    requires
        teardown.ending == (Ending::Dropped { owns_session: false }),
    ensures
        teardown.next_call() is Leak || teardown.next_call() is Finish,
{
}

/// What is detached from is what was attached to, in the order the session lists it.
pub proof fn the_attached_are_let_go_in_order(held: Seq<(u32, u32)>, attached: Set<u32>)
    ensures
        to_detach(held, attached) == held.filter(
            |entry: (u32, u32)| attached.contains(entry.1),
        ).map_values(|entry: (u32, u32)| entry.0),
    decreases held.len(),
{
    reveal(Seq::filter);
    let ours = |entry: (u32, u32)| attached.contains(entry.1);
    let id = |entry: (u32, u32)| entry.0;
    if held.len() > 0 {
        the_attached_are_let_go_in_order(held.drop_last(), attached);
    }
    assert(to_detach(held, attached) =~= held.filter(ours).map_values(id));
}

/// A session holds a process exactly where it lists its pid, whatever the engine's id of it is.
pub proof fn a_listed_process_is_held(held: Seq<(u32, u32)>, id: u32, pid: u32, other: u32)
    ensures
        holds(held.push((id, pid)), pid),
        other != pid ==> (holds(held.push((id, pid)), other) <==> holds(held, other)),
        !holds(Seq::empty(), pid),
{
    let more = held.push((id, pid));
    assert(more[held.len() as int].1 == pid);
    if holds(held, other) {
        let i = choose|i: int| 0 <= i < held.len() && (#[trigger] held[i]).1 == other;
        assert(more[i].1 == other);
    }
    if other != pid && holds(more, other) {
        let i = choose|i: int| 0 <= i < more.len() && (#[trigger] more[i]).1 == other;
        assert(held[i].1 == other);
    }
}

/// An end asks in order and with what it has: a live kernel is left running, everything else is
/// ended passively, and every attached process is let go by the id it is listed under.
pub proof fn an_end_asks_for_what_it_has(teardown: Teardown)
    requires
        teardown.consistent(),
    ensures
        teardown.next_call() matches TeardownCall::EndSession { how } ==> {
            &&& teardown.ended is None && teardown.live_kernel is Some
            &&& how == 2 <==> teardown.live_kernel == Some(true)
            &&& how == 0 <==> teardown.live_kernel == Some(false)
        },
        teardown.next_call() matches TeardownCall::Detach { id } ==> {
            &&& teardown.listed matches Some(Ok(ids))
            &&& teardown.tried < ids@.len()
            &&& id == ids@[teardown.tried as int]
            &&& teardown.live_kernel == Some(false) && !teardown.unreachable
        },
        teardown.next_call() is Reissue <==> teardown.ending is Asked && !teardown.reissued,
        teardown.next_call() is AskLiveKernel ==> teardown.live_kernel is None,
        teardown.next_call() is ListProcesses ==> teardown.listed is None && teardown.live_kernel
            == Some(false) && teardown.attached.pids@.len() > 0,
        teardown.next_call() is ClearBreakpoints ==> !teardown.cleared && (teardown.live_kernel
            == Some(true) || teardown.attached.pids@.len() > 0),
        teardown.next_call() is Resume ==> !teardown.resumed && teardown.live_kernel == Some(true),
        teardown.next_call() is Release ==> !teardown.released && teardown.ending is Asked
            && (teardown.ended matches Some(Ok(_))),
        teardown.next_call() is Leak <==> teardown.ending == (Ending::Dropped {
            owns_session: false,
        }) && !teardown.leaked,
        teardown.next_call() is Finish && teardown.ending is Asked ==> teardown.reissued
            && teardown.ended is Some,
{
}

/// An end goes well exactly where the engine ended the session and every detach went well, and
/// else tells what did not: the end before any detach.
pub proof fn an_end_tells_what_failed(teardown: Teardown, fault: EngineFault, error: DbgEngError)
    ensures
        (teardown.report() matches Ok(_)) <==> !(teardown.ended matches Some(Err(_)))
            && !(teardown.listed matches Some(Err(_))) && teardown.failure is None,
        teardown.ended == Some(Err::<(), EngineFault>(fault)) ==> teardown.report() == Err::<
            (),
            DbgEngError,
        >(DbgEngError::OperationFailed(fault)),
        !(teardown.ended matches Some(Err(_))) && teardown.listed == Some(
            Err::<Vec<u32>, DbgEngError>(error),
        ) ==> teardown.report() == Err::<(), DbgEngError>(error),
        !(teardown.ended matches Some(Err(_))) && !(teardown.listed matches Some(Err(_)))
            && teardown.failure == Some(error) ==> teardown.report() == Err::<(), DbgEngError>(
            error,
        ),
{
}

} // verus!
