//! The breakpoints the engine holds, and setting one, one engine call at a time.
//!
//! A breakpoint is born disabled and at no address, so it is given its location and every
//! parameter before it is armed. What fails on the way removes it again, and what it replaces is
//! removed only once nothing is left that can fail.
//!
//! A setting is the record of what the engine has answered so far. What to ask next, and what the
//! setting came to, follow from the record alone.
use vstd::prelude::*;
use vstd::string::*;

use super::breakpoint::{
    address_of, breakpoint_info, info_of, misresolved_text, resolved_address, BreakpointAt,
    BreakpointInfo, BreakpointSet, BreakpointSpec, OnExisting, RawBreakpoint,
};
use super::breaks::{cut_short_by, Interruption};
use super::codes::{DEBUG_BREAKPOINT_CODE, DEBUG_BREAKPOINT_DATA};
use super::error::{DbgEngError, EngineFault};
use super::text::has_nul;
use crate::text::{decimal, decimal_text, hex, joined};

verus! {

/// A walk over the breakpoints the engine counts, by index.
pub struct BreakpointWalk {
    pub count: u32,
    /// The breakpoints read so far, each at its index.
    pub read: Vec<BreakpointInfo>,
}

impl BreakpointWalk {
    /// The index of the breakpoint to read next.
    pub open spec fn next_index(&self) -> Option<u32> {
        if self.read@.len() < self.count {
            Some(self.read@.len() as u32)
        } else {
            None
        }
    }

    /// A walk over as many breakpoints as the engine counts.
    pub fn begin(count: Result<u32, EngineFault>) -> (walk: Result<BreakpointWalk, DbgEngError>)
        ensures
            match count {
                Ok(count) => walk matches Ok(walk) && walk.count == count && walk.read@
                    == Seq::<BreakpointInfo>::empty(),
                Err(fault) => walk matches Err(error) && error.is_context(
                    "counting breakpoints"@,
                    fault,
                ),
            },
    {
        match count {
            Ok(count) => Ok(BreakpointWalk { count, read: Vec::new() }),
            Err(source) => Err(
                DbgEngError::Context { operation: String::from_str("counting breakpoints"), source },
            ),
        }
    }

    /// The index of the breakpoint to read next, or `None` where every one is read.
    pub fn next(&self) -> (index: Option<u32>)
        ensures
            index == self.next_index(),
    {
        if self.read.len() < self.count as usize {
            Some(self.read.len() as u32)
        } else {
            None
        }
    }

    /// Takes the breakpoint at the next index. The first that cannot be read fails the walk.
    pub fn take(self, raw: Result<RawBreakpoint, EngineFault>) -> (walk: Result<
        BreakpointWalk,
        DbgEngError,
    >)
        requires
            self.next_index() is Some,
        ensures
            match raw {
                Err(fault) => walk matches Err(error) && error.is_context(
                    "reading breakpoint at index "@ + decimal_text(self.read@.len()),
                    fault,
                ),
                Ok(raw) => match raw.id {
                    Err(fault) => walk matches Err(error) && error.is_context(
                        "reading the id of breakpoint "@ + ("at index "@ + decimal_text(
                            self.read@.len(),
                        )),
                        fault,
                    ),
                    Ok(id) => walk matches Ok(walk) && walk.count == self.count && walk.read@
                        == self.read@.push(info_of(id, raw)),
                },
            },
    {
        let index = decimal(self.read.len() as u64);
        let raw = match raw {
            Ok(raw) => raw,
            Err(source) => return Err(
                DbgEngError::Context {
                    operation: joined("reading breakpoint at index ", index.as_str()),
                    source,
                },
            ),
        };
        let info = breakpoint_info(raw, joined("at index ", index.as_str()).as_str())?;
        let mut read = self.read;
        read.push(info);
        Ok(BreakpointWalk { count: self.count, read })
    }
}

/// The ids of the breakpoints at an address, except the one that is kept.
pub open spec fn others_at(held: Seq<BreakpointInfo>, address: u64, keep: u32) -> Seq<u32>
    decreases held.len(),
{
    if held.len() == 0 {
        Seq::empty()
    } else {
        let before = others_at(held.drop_last(), address, keep);
        if held.last().id != keep && held.last().address == Some(address) {
            before.push(held.last().id)
        } else {
            before
        }
    }
}

/// Which of several ids were taken, in order.
pub open spec fn those_taken(ids: Seq<u32>, taken: Seq<bool>) -> Seq<u32>
    decreases taken.len(),
{
    if taken.len() == 0 {
        Seq::empty()
    } else {
        let before = those_taken(ids, taken.drop_last());
        if taken.last() {
            before.push(ids[taken.len() - 1])
        } else {
            before
        }
    }
}

/// The ids of the breakpoints at `address`, except `keep`. They are collected before any is
/// removed: a removal renumbers the indices under a walk.
pub fn breakpoints_at(held: &Vec<BreakpointInfo>, address: u64, keep: u32) -> (ids: Vec<u32>)
    ensures
        ids@ == others_at(held@, address, keep),
{
    let mut ids: Vec<u32> = Vec::new();
    let mut i: usize = 0;
    while i < held.len()
        invariant
            i <= held@.len(),
            ids@ == others_at(held@.take(i as int), address, keep),
        decreases held@.len() - i,
    {
        let one = &held[i];
        assert(held@.take(i + 1).drop_last() =~= held@.take(i as int));
        let here: bool = match one.address {
            Some(at) => at == address,
            None => false,
        };
        if one.id != keep && here {
            ids.push(one.id);
        }
        i += 1;
    }
    assert(held@.take(held@.len() as int) =~= held@);
    ids
}

fn taken_of(ids: &Vec<u32>, taken: &Vec<bool>) -> (removed: Vec<u32>)
    requires
        taken@.len() <= ids@.len(),
    ensures
        removed@ == those_taken(ids@, taken@),
{
    let mut removed: Vec<u32> = Vec::new();
    let mut i: usize = 0;
    while i < taken.len()
        invariant
            i <= taken@.len() <= ids@.len(),
            removed@ == those_taken(ids@, taken@.take(i as int)),
        decreases taken@.len() - i,
    {
        assert(taken@.take(i + 1).drop_last() =~= taken@.take(i as int));
        if taken[i] {
            removed.push(ids[i]);
        }
        i += 1;
    }
    assert(taken@.take(taken@.len() as int) =~= taken@);
    removed
}

/// A replacement removes neither the breakpoint it keeps nor one that is not at its address.
pub proof fn a_replacement_spares_the_rest(
    held: Seq<BreakpointInfo>,
    address: u64,
    keep: u32,
    id: u32,
)
    ensures
        others_at(held, address, keep).contains(id) <==> (id != keep && exists|i: int|
            0 <= i < held.len() && (#[trigger] held[i]).id == id && held[i].address == Some(
                address,
            )),
    decreases held.len(),
{
    if held.len() > 0 {
        let front = held.drop_last();
        let before = others_at(front, address, keep);
        a_replacement_spares_the_rest(front, address, keep, id);
        let all = others_at(held, address, keep);
        if all.contains(id) {
            let at = choose|at: int| 0 <= at < all.len() && all[at] == id;
            if at < before.len() {
                assert(before[at] == id);
                let i = choose|i: int|
                    0 <= i < front.len() && (#[trigger] front[i]).id == id && front[i].address
                        == Some(address);
                assert(held[i] == front[i]);
            } else {
                assert(held[held.len() - 1].id == id);
            }
        }
        if id != keep && exists|i: int|
            0 <= i < held.len() && (#[trigger] held[i]).id == id && held[i].address == Some(
                address,
            ) {
            let i = choose|i: int|
                0 <= i < held.len() && (#[trigger] held[i]).id == id && held[i].address == Some(
                    address,
                );
            if i < front.len() {
                assert(front[i] == held[i]);
                let at = choose|at: int| 0 <= at < before.len() && before[at] == id;
                assert(all[at] == id);
            } else {
                assert(all[all.len() - 1] == id);
            }
        }
    }
}

/// What a setting asks of the engine next.
#[derive(Debug, Clone, Copy, PartialEq, Eq, Structural)]
pub enum SettingCall {
    /// A new breakpoint of the engine's kind, disabled and at no address.
    Create { kind: u32 },
    /// Its location, as an address.
    Locate { address: u64 },
    /// The operation a break of the resolve is filed against.
    Begin,
    /// Its location, as the expression, with a watchdog where one is armed.
    Resolve { watchdog_ms: Option<u32> },
    /// The break request filed against the resolve.
    TakeRequest,
    /// Whatever break is still pending, to be consumed.
    Drain,
    /// No more of the resolve's operation.
    End,
    /// The address it resolved to.
    ReadOffset,
    /// The command it runs on every activation.
    SetCommand,
    SetPassCount { passes: u32 },
    SetThread { thread: u32 },
    /// The watched region.
    SetData { size: u32, access: u32 },
    /// The flags that arm it.
    AddFlags { flags: u32 },
    /// The breakpoint as the engine holds it.
    ReadBack,
    /// Every breakpoint the engine holds.
    List,
    /// No more of an older breakpoint.
    RemoveOther { id: u32 },
    /// No more of the new breakpoint.
    Discard,
    /// Nothing: the setting is over.
    Finish,
}

/// What the engine has answered to a setting so far.
pub struct Setting {
    pub spec: BreakpointSpec,
    /// The bound of resolving an expression, or none at all.
    pub timeout_ms: u32,
    pub created: Option<Result<(), EngineFault>>,
    /// Whether the resolve's operation was opened.
    pub begun: bool,
    /// What giving it a location came to, and whether the watchdog had fired.
    pub located: Option<(Result<(), EngineFault>, bool)>,
    pub asked: Option<bool>,
    pub drained: bool,
    /// Whether the resolve's operation was closed again.
    pub ended: bool,
    /// The offset it resolved to, where the engine could say.
    pub offset: Option<Option<u64>>,
    pub command_set: Option<Result<(), EngineFault>>,
    pub passes_set: Option<Result<(), EngineFault>>,
    pub thread_set: Option<Result<(), EngineFault>>,
    pub data_set: Option<Result<(), EngineFault>>,
    pub armed: Option<Result<(), EngineFault>>,
    pub read_back: Option<Result<BreakpointInfo, DbgEngError>>,
    /// The breakpoints to remove.
    pub stale: Option<Vec<u32>>,
    /// Which of them were.
    pub taken: Vec<bool>,
    pub discarded: bool,
}

/// Why a setting fails.
pub ghost enum SetFailure {
    /// The spec is one the engine would refuse later.
    Invalid(Seq<char>),
    /// A text the engine cannot be handed.
    BadText,
    /// The engine refused a step.
    Refused(EngineFault),
    /// The breakpoint could not be read back.
    Unread(DbgEngError),
}

/// Whether an error is the one a failure is reported by.
pub open spec fn tells(error: DbgEngError, failure: SetFailure) -> bool {
    match failure {
        SetFailure::Invalid(why) => error matches DbgEngError::InvalidBreakpoint(said) && said@
            == why,
        SetFailure::BadText => error == DbgEngError::InvalidCommand,
        SetFailure::Refused(fault) => error == DbgEngError::BreakpointFailed(fault),
        SetFailure::Unread(cause) => error == cause,
    }
}

/// The fault of a step, where it failed.
pub open spec fn fault(step: Option<Result<(), EngineFault>>) -> Option<EngineFault> {
    match step {
        Some(Err(fault)) => Some(fault),
        _ => None,
    }
}

impl Setting {
    /// Whether there is a new breakpoint.
    pub open spec fn made(&self) -> bool {
        self.created matches Some(Ok(_))
    }

    /// Whether the command is one the engine can be handed.
    pub open spec fn command_ok(&self) -> bool {
        !(self.spec.command matches Some(command) && command@.contains('\0'))
    }

    /// Whether the location is an expression.
    pub open spec fn resolves(&self) -> bool {
        self.spec.at is Expression
    }

    /// Whether the location is one the engine can be handed.
    pub open spec fn location_ok(&self) -> bool {
        !(self.spec.at matches BreakpointAt::Expression(text) && text@.contains('\0'))
    }

    /// What cut the resolve short.
    pub open spec fn cut_short(&self) -> Option<Interruption> {
        if self.located matches Some((_, true)) {
            Some(Interruption::Deadline { after_ms: self.timeout_ms })
        } else if self.asked == Some(true) {
            Some(Interruption::OnRequest)
        } else {
            None
        }
    }

    /// The failure of giving it a location. A resolve that was cut short has none: the breakpoint
    /// stands, and what is read back says where it ended up.
    pub open spec fn location_fault(&self) -> Option<EngineFault> {
        match self.located {
            Some((Err(fault), _)) => if self.resolves() && (self.asked is None || self.cut_short()
                is Some) {
                None
            } else {
                Some(fault)
            },
            _ => None,
        }
    }

    /// The address it resolved to.
    pub open spec fn resolved(&self) -> Option<u64> {
        match self.offset {
            Some(offset) => address_of(offset),
            None => None,
        }
    }

    /// Whether the address it resolved to is no multiple of the watch's size.
    pub open spec fn misresolved(&self) -> bool {
        match (self.spec.data, self.resolved()) {
            (Some(watch), Some(address)) => address % (watch.size as u64) != 0,
            _ => false,
        }
    }

    /// The first failure so far.
    pub open spec fn failure(&self) -> Option<SetFailure> {
        if self.spec.flaw() is Some {
            Some(SetFailure::Invalid(self.spec.flaw()->0))
        } else if !self.command_ok() {
            Some(SetFailure::BadText)
        } else if fault(self.created) is Some {
            Some(SetFailure::Refused(fault(self.created)->0))
        } else if self.created is Some && !self.location_ok() {
            Some(SetFailure::BadText)
        } else if self.location_fault() is Some {
            Some(SetFailure::Refused(self.location_fault()->0))
        } else if self.misresolved() {
            Some(
                SetFailure::Invalid(misresolved_text(self.spec.data->0.size, self.resolved()->0)),
            )
        } else if fault(self.command_set) is Some {
            Some(SetFailure::Refused(fault(self.command_set)->0))
        } else if fault(self.passes_set) is Some {
            Some(SetFailure::Refused(fault(self.passes_set)->0))
        } else if fault(self.thread_set) is Some {
            Some(SetFailure::Refused(fault(self.thread_set)->0))
        } else if fault(self.data_set) is Some {
            Some(SetFailure::Refused(fault(self.data_set)->0))
        } else if fault(self.armed) is Some {
            Some(SetFailure::Refused(fault(self.armed)->0))
        } else {
            match self.read_back {
                Some(Err(error)) => Some(SetFailure::Unread(error)),
                _ => None,
            }
        }
    }

    /// Whether the resolve's operation is open.
    pub open spec fn resolving(&self) -> bool {
        self.begun && !self.ended
    }

    /// What is asked of the engine next: the location, the parameters, the arming and the reading
    /// back in that order, and the removals last. A breakpoint whose setting failed is removed.
    pub open spec fn next_call(&self) -> SettingCall {
        if self.failure() is Some {
            if self.resolving() {
                SettingCall::End
            } else if self.made() && !self.discarded {
                SettingCall::Discard
            } else {
                SettingCall::Finish
            }
        } else if self.created is None {
            SettingCall::Create {
                kind: if self.spec.data is Some {
                    DEBUG_BREAKPOINT_DATA
                } else {
                    DEBUG_BREAKPOINT_CODE
                },
            }
        } else if self.located is None {
            match self.spec.at {
                BreakpointAt::Address(address) => SettingCall::Locate { address },
                BreakpointAt::Expression(_) => if !self.begun {
                    SettingCall::Begin
                } else {
                    SettingCall::Resolve {
                        watchdog_ms: if self.timeout_ms > 0 {
                            Some(self.timeout_ms)
                        } else {
                            None
                        },
                    }
                },
            }
        } else if self.resolves() && self.asked is None {
            SettingCall::TakeRequest
        } else if self.cut_short() is Some && !self.drained {
            SettingCall::Drain
        } else if self.resolving() {
            SettingCall::End
        } else if self.offset is None {
            SettingCall::ReadOffset
        } else {
            self.next_parameter()
        }
    }

    /// What is asked once the location is settled.
    pub open spec fn next_parameter(&self) -> SettingCall {
        if self.spec.command is Some && self.command_set is None {
            SettingCall::SetCommand
        } else if self.spec.pass_count is Some && self.passes_set is None {
            SettingCall::SetPassCount { passes: self.spec.pass_count->0 }
        } else if self.spec.thread is Some && self.thread_set is None {
            SettingCall::SetThread { thread: self.spec.thread->0 }
        } else if self.spec.data is Some && self.data_set is None {
            SettingCall::SetData {
                size: self.spec.data->0.size,
                access: self.spec.data->0.access.bits(),
            }
        } else if self.spec.flag_bits() != 0 && self.armed is None {
            SettingCall::AddFlags { flags: self.spec.flag_bits() }
        } else if self.read_back is None {
            SettingCall::ReadBack
        } else {
            self.next_removal()
        }
    }

    /// What is asked once the new breakpoint is certain.
    pub open spec fn next_removal(&self) -> SettingCall {
        if self.spec.on_existing is Replace && self.resolved() is Some {
            match self.stale {
                None => SettingCall::List,
                Some(stale) => if self.taken@.len() < stale@.len() {
                    SettingCall::RemoveOther { id: stale@[self.taken@.len() as int] }
                } else {
                    SettingCall::Finish
                },
            }
        } else {
            SettingCall::Finish
        }
    }

    /// What holds of every setting that was asked in order.
    pub open spec fn consistent(&self) -> bool {
        &&& self.created is Some ==> self.spec.flaw() is None && self.command_ok()
        &&& self.located is Some ==> self.made()
        &&& (self.located matches Some((_, true))) ==> self.resolves() && self.timeout_ms > 0
        &&& self.begun ==> self.resolves() && self.made() && self.location_ok()
        &&& self.located is Some && self.resolves() ==> self.begun
        &&& self.asked is Some ==> self.resolves() && self.located is Some
        &&& self.drained ==> self.asked is Some && self.cut_short() is Some
        &&& self.ended ==> self.begun && self.asked is Some && (self.cut_short() is Some
            ==> self.drained)
        &&& self.offset is Some ==> self.located is Some && !self.resolving()
        &&& self.read_back is Some || self.command_set is Some || self.passes_set is Some
            || self.thread_set is Some || self.data_set is Some || self.armed is Some
            ==> self.offset is Some
        &&& self.stale is Some ==> self.failure() is None && (self.read_back matches Some(Ok(_)))
            && self.located is Some && (self.resolves() ==> self.asked is Some) && self.offset
            is Some && self.next_parameter() == self.next_removal()
        &&& self.stale is Some ==> self.spec.on_existing is Replace && self.resolved() is Some
        &&& self.stale matches Some(stale) ==> !stale@.contains(self.read_back->0->Ok_0.id)
        &&& self.taken@.len() > 0 ==> self.stale is Some
        &&& self.stale matches Some(stale) ==> self.taken@.len() <= stale@.len()
        &&& self.discarded ==> self.failure() is Some && self.made() && !self.resolving()
    }

    /// The older breakpoints that were removed.
    pub open spec fn replaced(&self) -> Seq<u32> {
        match self.stale {
            Some(stale) => those_taken(stale@, self.taken@),
            None => Seq::empty(),
        }
    }

    /// How many questions may still be asked.
    pub open spec fn unasked(&self) -> int {
        let one = |open: bool|
            if open {
                1int
            } else {
                0int
            };
        let removals = match self.stale {
            None => usize::MAX + 1,
            Some(stale) => stale@.len() - self.taken@.len(),
        };
        one(self.created is None) + one(!self.begun) + one(self.located is None) + one(
            self.asked is None,
        ) + one(!self.drained) + one(!self.ended) + one(self.offset is None) + one(self.command_set is None) + one(
            self.passes_set is None,
        ) + one(self.thread_set is None) + one(self.data_set is None) + one(self.armed is None)
            + one(self.read_back is None) + one(!self.discarded) + removals
    }
}

impl Setting {
    /// A setting that has asked nothing yet.
    pub fn new(spec: BreakpointSpec, timeout_ms: u32) -> (setting: Setting)
        ensures
            setting.spec == spec,
            setting.timeout_ms == timeout_ms,
            setting.created is None && !setting.begun && setting.located is None
                && setting.asked is None && !setting.drained && !setting.ended && setting.offset is None && setting.command_set is None
                && setting.passes_set is None && setting.thread_set is None
                && setting.data_set is None && setting.armed is None && setting.read_back is None
                && setting.stale is None && setting.taken@.len() == 0 && !setting.discarded,
            setting.consistent(),
    {
        Setting {
            spec,
            timeout_ms,
            created: None,
            begun: false,
            located: None,
            asked: None,
            drained: false,
            ended: false,
            offset: None,
            command_set: None,
            passes_set: None,
            thread_set: None,
            data_set: None,
            armed: None,
            read_back: None,
            stale: None,
            taken: Vec::new(),
            discarded: false,
        }
    }

    /// What cut the resolve short, as far as it is known.
    pub fn interruption(&self) -> (cut_short: Option<Interruption>)
        ensures
            cut_short == self.cut_short(),
    {
        let by_watchdog: bool = match &self.located {
            Some((_, by_watchdog)) => *by_watchdog,
            None => false,
        };
        let asked: bool = match self.asked {
            Some(asked) => asked,
            None => false,
        };
        cut_short_by(by_watchdog, asked, self.timeout_ms)
    }

    fn handed_text(&self) -> (ok: (bool, bool))
        ensures
            ok.0 == self.command_ok(),
            ok.1 == self.location_ok(),
    {
        let command: bool = match &self.spec.command {
            Some(command) => !has_nul(command.as_str()),
            None => true,
        };
        let location: bool = match &self.spec.at {
            BreakpointAt::Expression(text) => !has_nul(text.as_str()),
            BreakpointAt::Address(_) => true,
        };
        (command, location)
    }

    fn step_fault(step: &Option<Result<(), EngineFault>>) -> (failed: Option<DbgEngError>)
        ensures
            failed is Some == fault(*step) is Some,
            failed matches Some(error) ==> error == DbgEngError::BreakpointFailed(fault(*step)->0),
    {
        match step {
            Some(Err(fault)) => Some(DbgEngError::BreakpointFailed(fault.duplicate())),
            _ => None,
        }
    }

    fn address(&self) -> (address: Option<u64>)
        ensures
            address == self.resolved(),
    {
        match self.offset {
            Some(offset) => resolved_address(offset),
            None => None,
        }
    }

    fn misresolve(&self) -> (failed: Option<DbgEngError>)
        requires
            self.spec.flaw() is None,
        ensures
            failed is Some == self.misresolved(),
            failed matches Some(error) ==> tells(
                error,
                SetFailure::Invalid(misresolved_text(self.spec.data->0.size, self.resolved()->0)),
            ),
    {
        match (self.spec.data, self.address()) {
            (Some(watch), Some(address)) => {
                if address % (watch.size as u64) != 0 {
                    let mut why = joined("a ", decimal(watch.size as u64).as_str());
                    why.append("-byte data breakpoint must be ");
                    why.append(decimal(watch.size as u64).as_str());
                    why.append("-byte aligned, and this location resolved to ");
                    why.append(hex(address).as_str());
                    why.append(", which is not");
                    Some(DbgEngError::InvalidBreakpoint(why))
                } else {
                    None
                }
            },
            _ => None,
        }
    }

    fn mislocated(&self) -> (failed: Option<DbgEngError>)
        ensures
            failed is Some == self.location_fault() is Some,
            failed matches Some(error) ==> error == DbgEngError::BreakpointFailed(
                self.location_fault()->0,
            ),
    {
        let resolves: bool = matches!(self.spec.at, BreakpointAt::Expression(_));
        match &self.located {
            Some((Err(fault), _)) => {
                if resolves && (self.asked.is_none() || self.interruption().is_some()) {
                    None
                } else {
                    Some(DbgEngError::BreakpointFailed(fault.duplicate()))
                }
            },
            _ => None,
        }
    }

    /// The first failure so far.
    pub fn failed(&self) -> (failed: Option<DbgEngError>)
        ensures
            failed is Some == self.failure() is Some,
            failed matches Some(error) ==> tells(error, self.failure()->0),
    {
        if let Err(error) = self.spec.validated() {
            return Some(error);
        }
        let (command_ok, location_ok) = self.handed_text();
        if !command_ok {
            return Some(DbgEngError::InvalidCommand);
        }
        if let Some(error) = Self::step_fault(&self.created) {
            return Some(error);
        }
        if self.created.is_some() && !location_ok {
            return Some(DbgEngError::InvalidCommand);
        }
        if let Some(error) = self.mislocated() {
            return Some(error);
        }
        if let Some(error) = self.misresolve() {
            return Some(error);
        }
        if let Some(error) = Self::step_fault(&self.command_set) {
            return Some(error);
        }
        if let Some(error) = Self::step_fault(&self.passes_set) {
            return Some(error);
        }
        if let Some(error) = Self::step_fault(&self.thread_set) {
            return Some(error);
        }
        if let Some(error) = Self::step_fault(&self.data_set) {
            return Some(error);
        }
        if let Some(error) = Self::step_fault(&self.armed) {
            return Some(error);
        }
        match &self.read_back {
            Some(Err(error)) => Some(error.duplicate()),
            _ => None,
        }
    }

    /// What to ask of the engine next.
    pub fn next(&self) -> (call: SettingCall)
        ensures
            call == self.next_call(),
    {
        if self.failed().is_some() {
            let created: bool = matches!(self.created, Some(Ok(())));
            return if self.begun && !self.ended {
                SettingCall::End
            } else if created && !self.discarded {
                SettingCall::Discard
            } else {
                SettingCall::Finish
            };
        }
        if self.created.is_none() {
            return SettingCall::Create {
                kind: if self.spec.data.is_some() {
                    DEBUG_BREAKPOINT_DATA
                } else {
                    DEBUG_BREAKPOINT_CODE
                },
            };
        }
        if self.located.is_none() {
            return match &self.spec.at {
                BreakpointAt::Address(address) => SettingCall::Locate { address: *address },
                BreakpointAt::Expression(_) => if !self.begun {
                    SettingCall::Begin
                } else {
                    SettingCall::Resolve {
                        watchdog_ms: if self.timeout_ms > 0 {
                            Some(self.timeout_ms)
                        } else {
                            None
                        },
                    }
                },
            };
        }
        let resolves: bool = matches!(self.spec.at, BreakpointAt::Expression(_));
        if resolves && self.asked.is_none() {
            return SettingCall::TakeRequest;
        }
        if self.interruption().is_some() && !self.drained {
            return SettingCall::Drain;
        }
        if self.begun && !self.ended {
            return SettingCall::End;
        }
        if self.offset.is_none() {
            return SettingCall::ReadOffset;
        }
        self.parameter()
    }

    fn parameter(&self) -> (call: SettingCall)
        ensures
            call == self.next_parameter(),
    {
        if self.spec.command.is_some() && self.command_set.is_none() {
            return SettingCall::SetCommand;
        }
        if let Some(passes) = self.spec.pass_count {
            if self.passes_set.is_none() {
                return SettingCall::SetPassCount { passes };
            }
        }
        if let Some(thread) = self.spec.thread {
            if self.thread_set.is_none() {
                return SettingCall::SetThread { thread };
            }
        }
        if let Some(watch) = self.spec.data {
            if self.data_set.is_none() {
                return SettingCall::SetData {
                    size: watch.size,
                    access: watch.access.to_engine(),
                };
            }
        }
        let flags: u32 = self.spec.flags();
        if flags != 0 && self.armed.is_none() {
            return SettingCall::AddFlags { flags };
        }
        if self.read_back.is_none() {
            return SettingCall::ReadBack;
        }
        if matches!(self.spec.on_existing, OnExisting::Replace) && self.address().is_some() {
            return match &self.stale {
                None => SettingCall::List,
                Some(stale) => if self.taken.len() < stale.len() {
                    SettingCall::RemoveOther { id: stale[self.taken.len()] }
                } else {
                    SettingCall::Finish
                },
            };
        }
        SettingCall::Finish
    }
}

impl Setting {
    /// Takes what creating the breakpoint came to.
    pub fn created(&mut self, created: Result<(), EngineFault>)
        requires
            old(self).consistent(),
            old(self).next_call() is Create,
        ensures
            *final(self) == (Setting { created: Some(created), ..*old(self) }),
            final(self).consistent(),
            final(self).unasked() < old(self).unasked(),
    {
        self.created = Some(created);
    }

    /// The resolve's operation is open.
    pub fn begun(&mut self)
        requires
            old(self).consistent(),
            old(self).next_call() is Begin,
        ensures
            *final(self) == (Setting { begun: true, ..*old(self) }),
            final(self).consistent(),
            final(self).unasked() < old(self).unasked(),
    {
        self.begun = true;
    }

    /// The resolve's operation is closed.
    pub fn ended(&mut self)
        requires
            old(self).consistent(),
            old(self).next_call() is End,
        ensures
            *final(self) == (Setting { ended: true, ..*old(self) }),
            final(self).consistent(),
            final(self).unasked() < old(self).unasked(),
    {
        self.ended = true;
    }

    /// Takes what giving it a location came to, and whether the watchdog had fired. Without a
    /// watchdog none fires.
    pub fn located(&mut self, located: Result<(), EngineFault>, by_watchdog: bool)
        requires
            old(self).consistent(),
            old(self).next_call() is Locate || old(self).next_call() is Resolve,
            by_watchdog ==> old(self).next_call() is Resolve
                && old(self).next_call()->watchdog_ms is Some,
        ensures
            *final(self) == (Setting { located: Some((located, by_watchdog)), ..*old(self) }),
            final(self).consistent(),
            final(self).unasked() < old(self).unasked(),
    {
        self.located = Some((located, by_watchdog));
    }

    /// Takes whether a break request was filed against the resolve.
    pub fn requested(&mut self, asked: bool)
        requires
            old(self).consistent(),
            old(self).next_call() is TakeRequest,
        ensures
            *final(self) == (Setting { asked: Some(asked), ..*old(self) }),
            final(self).consistent(),
            final(self).unasked() < old(self).unasked(),
    {
        self.asked = Some(asked);
    }

    /// Whatever break was pending is consumed.
    pub fn drained(&mut self)
        requires
            old(self).consistent(),
            old(self).next_call() is Drain,
        ensures
            *final(self) == (Setting { drained: true, ..*old(self) }),
            final(self).consistent(),
            final(self).unasked() < old(self).unasked(),
    {
        self.drained = true;
    }

    /// Takes the offset the engine answers, where it answers one.
    pub fn offset_read(&mut self, offset: Option<u64>)
        requires
            old(self).consistent(),
            old(self).next_call() is ReadOffset,
        ensures
            *final(self) == (Setting { offset: Some(offset), ..*old(self) }),
            final(self).consistent(),
            final(self).unasked() < old(self).unasked(),
    {
        self.offset = Some(offset);
    }

    /// Takes what setting the parameter that was asked for came to, or arming the breakpoint.
    pub fn applied(&mut self, applied: Result<(), EngineFault>)
        requires
            old(self).consistent(),
            old(self).next_call() is SetCommand || old(self).next_call() is SetPassCount
                || old(self).next_call() is SetThread || old(self).next_call() is SetData
                || old(self).next_call() is AddFlags,
        ensures
            *final(self) == match old(self).next_call() {
                SettingCall::SetCommand => Setting { command_set: Some(applied), ..*old(self) },
                SettingCall::SetPassCount { .. } => Setting {
                    passes_set: Some(applied),
                    ..*old(self)
                },
                SettingCall::SetThread { .. } => Setting {
                    thread_set: Some(applied),
                    ..*old(self)
                },
                SettingCall::SetData { .. } => Setting { data_set: Some(applied), ..*old(self) },
                _ => Setting { armed: Some(applied), ..*old(self) },
            },
            final(self).consistent(),
            final(self).unasked() < old(self).unasked(),
    {
        match self.next() {
            SettingCall::SetCommand => {
                self.command_set = Some(applied);
            },
            SettingCall::SetPassCount { .. } => {
                self.passes_set = Some(applied);
            },
            SettingCall::SetThread { .. } => {
                self.thread_set = Some(applied);
            },
            SettingCall::SetData { .. } => {
                self.data_set = Some(applied);
            },
            _ => {
                self.armed = Some(applied);
            },
        }
    }

    /// Takes the breakpoint as the engine's getters describe it.
    pub fn read_back(&mut self, raw: RawBreakpoint)
        requires
            old(self).consistent(),
            old(self).next_call() is ReadBack,
        ensures
            final(self).read_back is Some,
            *final(self) == (Setting { read_back: final(self).read_back, ..*old(self) }),
            match raw.id {
                Ok(id) => final(self).read_back->0 == Ok::<BreakpointInfo, DbgEngError>(
                    info_of(id, raw),
                ),
                Err(fault) => final(self).read_back->0 matches Err(error) && error.is_context(
                    "reading the id of breakpoint "@ + "just set"@,
                    fault,
                ),
            },
            final(self).consistent(),
            final(self).unasked() < old(self).unasked(),
    {
        self.read_back = Some(breakpoint_info(raw, "just set"));
    }

    /// Takes every breakpoint the engine holds, or nothing where the list could not be read: then
    /// nothing is removed.
    pub fn listed(&mut self, held: Option<Vec<BreakpointInfo>>)
        requires
            old(self).consistent(),
            old(self).next_call() is List,
        ensures
            final(self).stale is Some,
            *final(self) == (Setting { stale: final(self).stale, ..*old(self) }),
            final(self).stale->0@ == match held {
                Some(held) => others_at(
                    held@,
                    old(self).resolved()->0,
                    old(self).read_back->0->Ok_0.id,
                ),
                None => Seq::empty(),
            },
            final(self).consistent(),
            final(self).unasked() < old(self).unasked(),
    {
        let address = self.address();
        let stale = match (held, address, &self.read_back) {
            (Some(held), Some(address), Some(Ok(info))) => {
                let stale = breakpoints_at(&held, address, info.id);
                proof {
                    a_replacement_spares_the_rest(held@, address, info.id, info.id);
                }
                stale
            },
            _ => Vec::new(),
        };
        assert(stale@.len() == stale.len());
        self.stale = Some(stale);
    }

    /// Takes whether the older breakpoint that was named is gone.
    pub fn other_removed(&mut self, gone: bool)
        requires
            old(self).consistent(),
            old(self).next_call() is RemoveOther,
        ensures
            final(self).taken@ == old(self).taken@.push(gone),
            *final(self) == (Setting { taken: final(self).taken, ..*old(self) }),
            final(self).consistent(),
            final(self).unasked() < old(self).unasked(),
    {
        self.taken.push(gone);
    }

    /// The new breakpoint is gone again.
    pub fn discarded(&mut self)
        requires
            old(self).consistent(),
            old(self).next_call() is Discard,
        ensures
            *final(self) == (Setting { discarded: true, ..*old(self) }),
            final(self).consistent(),
            final(self).unasked() < old(self).unasked(),
    {
        self.discarded = true;
    }

    /// What the setting came to, once there is nothing left to ask: the breakpoint as the engine
    /// holds it, and the older ones that were removed for it.
    pub fn finish(self) -> (set: Result<BreakpointSet, DbgEngError>)
        requires
            self.consistent(),
            self.next_call() is Finish,
        ensures
            match self.failure() {
                Some(failure) => set matches Err(error) && tells(error, failure),
                None => {
                    &&& set matches Ok(set)
                    &&& set.breakpoint == self.read_back->0->Ok_0
                    &&& set.replaced@ == self.replaced()
                    &&& set.cut_short == self.cut_short()
                },
            },
    {
        if let Some(error) = self.failed() {
            return Err(error);
        }
        let cut_short = self.interruption();
        let replaced = match &self.stale {
            Some(stale) => taken_of(stale, &self.taken),
            None => Vec::new(),
        };
        match self.read_back {
            Some(Ok(breakpoint)) => Ok(BreakpointSet { breakpoint, replaced, cut_short }),
            Some(Err(error)) => Err(error),
            None => Err(DbgEngError::InvalidCommand),
        }
    }
}

/// Nothing is removed unless the new breakpoint is certain: every step that can fail is behind,
/// it is armed as it was asked to be and read back, and it is not itself removed.
pub proof fn nothing_is_replaced_in_vain(setting: Setting)
    requires
        setting.consistent(),
        setting.next_call() is RemoveOther,
    ensures
        setting.failure() is None,
        setting.read_back matches Some(Ok(_)),
        setting.spec.flag_bits() != 0 ==> setting.armed matches Some(Ok(_)),
        setting.spec.on_existing is Replace,
        setting.next_call()->RemoveOther_id != setting.read_back->0->Ok_0.id,
{
    let stale = setting.stale->0@;
    assert(stale.contains(stale[setting.taken@.len() as int]));
}

/// Nothing is replaced where nothing was asked to be, nor where the location did not resolve: a
/// deferred breakpoint stands beside those that are there.
pub proof fn an_addition_replaces_nothing(setting: Setting)
    requires
        setting.consistent(),
        !(setting.spec.on_existing is Replace) || setting.resolved() is None,
    ensures
        !(setting.next_call() is List || setting.next_call() is RemoveOther),
        setting.replaced() == Seq::<u32>::empty(),
{
}

/// A setting ends: every answer lowers how many questions may still be asked, and that is never
/// below none.
pub proof fn a_setting_ends(setting: Setting)
    requires
        setting.consistent(),
    ensures
        setting.unasked() >= 0,
{
}

/// A setting that fails leaves nothing behind and takes nothing away: its breakpoint is removed
/// again, and none of the older ones is.
pub proof fn a_failed_setting_leaves_nothing(setting: Setting)
    requires
        setting.consistent(),
        setting.next_call() is Finish,
        setting.failure() is Some,
    ensures
        setting.made() ==> setting.discarded,
        setting.stale is None,
        setting.taken@.len() == 0,
{
}

/// A setting that succeeds leaves its breakpoint.
pub proof fn a_setting_that_succeeds_stays(setting: Setting)
    requires
        setting.consistent(),
        setting.next_call() is Finish,
        setting.failure() is None,
    ensures
        setting.made(),
        !setting.discarded,
        setting.read_back matches Some(Ok(_)),
{
}

/// A breakpoint is armed only once everything else it was asked to have has landed.
pub proof fn arming_comes_last(setting: Setting)
    requires
        setting.next_call() is AddFlags,
    ensures
        setting.located is Some,
        setting.spec.command is Some ==> setting.command_set matches Some(Ok(_)),
        setting.spec.pass_count is Some ==> setting.passes_set matches Some(Ok(_)),
        setting.spec.thread is Some ==> setting.thread_set matches Some(Ok(_)),
        setting.spec.data is Some ==> setting.data_set matches Some(Ok(_)),
        setting.armed is None,
{
}

/// A resolve is an operation of its own: nothing else is asked in it but the resolve, the request
/// filed against it and the break that is consumed. It is closed once the request was read and
/// what it left pending was consumed, before anything else is asked, and on every path.
pub proof fn a_resolve_is_broken_as_itself(setting: Setting)
    requires
        setting.consistent(),
    ensures
        setting.resolving() <==> setting.next_call() is Resolve || setting.next_call()
            is TakeRequest || setting.next_call() is Drain || setting.next_call() is End,
        setting.next_call() is End ==> setting.asked is Some && (setting.cut_short() is Some
            ==> setting.drained),
        setting.next_call() is Finish ==> setting.begun == setting.ended,
        setting.begun ==> setting.spec.at is Expression,
{
}

/// A resolve that was cut short does not fail the setting, whatever the engine said of it, and
/// the break that cut it short is consumed before anything else is asked.
pub proof fn a_break_leaves_the_breakpoint(setting: Setting)
    requires
        setting.consistent(),
        setting.asked is Some,
        setting.cut_short() is Some,
    ensures
        setting.location_fault() is None,
        setting.failure() is None && !setting.drained ==> setting.next_call() is Drain || setting.located is None,
{
}

/// What is asked for a breakpoint is what its description holds, each thing once and only where it
/// holds it.
pub proof fn a_setting_asks_for_what_it_was_given(setting: Setting)
    requires
        setting.consistent(),
    ensures
        setting.next_call() matches SettingCall::Create { kind } ==> {
            &&& setting.created is None
            &&& kind == 1 <==> setting.spec.data is Some
            &&& kind == 0 <==> setting.spec.data is None
        },
        setting.next_call() matches SettingCall::Locate { address } ==> setting.spec.at
            == BreakpointAt::Address(address) && setting.located is None && setting.made(),
        setting.next_call() is Begin ==> setting.spec.at is Expression && !setting.begun
            && setting.made(),
        setting.next_call() matches SettingCall::Resolve { watchdog_ms } ==> {
            &&& setting.spec.at is Expression && setting.begun && setting.located is None
            &&& watchdog_ms is None <==> setting.timeout_ms == 0
            &&& watchdog_ms matches Some(bound) ==> bound == setting.timeout_ms
        },
        setting.next_call() is TakeRequest ==> setting.spec.at is Expression && setting.asked
            is None && setting.located is Some,
        setting.next_call() is Drain ==> !setting.drained && ((setting.located matches Some(
            (_, true),
        )) || setting.asked == Some(true)),
        setting.next_call() is End ==> setting.begun && !setting.ended,
        setting.next_call() is ReadOffset ==> setting.offset is None && setting.located is Some,
        setting.next_call() is SetCommand ==> setting.spec.command is Some && setting.command_set
            is None,
        setting.next_call() matches SettingCall::SetPassCount { passes } ==> setting.spec.pass_count
            == Some(passes) && setting.passes_set is None,
        setting.next_call() matches SettingCall::SetThread { thread } ==> setting.spec.thread
            == Some(thread) && setting.thread_set is None,
        setting.next_call() matches SettingCall::SetData { size, access } ==> {
            &&& setting.spec.data matches Some(watch)
            &&& size == watch.size
            &&& access == watch.access.bits()
            &&& setting.data_set is None
        },
        setting.next_call() matches SettingCall::AddFlags { flags } ==> flags
            == setting.spec.flag_bits() && flags != 0 && setting.armed is None,
        setting.next_call() is ReadBack ==> setting.read_back is None && setting.offset is Some,
        setting.next_call() is List ==> setting.spec.on_existing is Replace && setting.stale is None
            && (setting.read_back matches Some(Ok(_))),
        setting.next_call() matches SettingCall::RemoveOther { id } ==> {
            &&& setting.stale matches Some(stale)
            &&& setting.taken@.len() < stale@.len()
            &&& id == stale@[setting.taken@.len() as int]
        },
        setting.next_call() is Discard ==> !setting.discarded && setting.made()
            && setting.failure() is Some,
{
}

/// A setting that is over and did not fail has asked for everything its description holds.
pub proof fn a_finished_setting_asked_for_everything(setting: Setting)
    requires
        setting.consistent(),
        setting.next_call() is Finish,
        setting.failure() is None,
    ensures
        setting.created matches Some(Ok(_)),
        setting.located is Some,
        setting.spec.at is Expression ==> setting.begun && setting.ended && setting.asked is Some,
        setting.offset is Some,
        setting.spec.command is Some ==> (setting.command_set matches Some(Ok(_))),
        setting.spec.pass_count is Some ==> (setting.passes_set matches Some(Ok(_))),
        setting.spec.thread is Some ==> (setting.thread_set matches Some(Ok(_))),
        setting.spec.data is Some ==> (setting.data_set matches Some(Ok(_))),
        setting.spec.flag_bits() != 0 ==> (setting.armed matches Some(Ok(_))),
        setting.read_back matches Some(Ok(_)),
        setting.spec.on_existing is Replace && setting.resolved() is Some ==> setting.stale is Some
            && setting.taken@.len() == setting.stale->0@.len(),
{
}

/// A setting fails of something that happened: a description that cannot be set, a text that
/// cannot be handed over, a step the engine refused, or a breakpoint that cannot be read back. A
/// resolve that was cut short is no failure.
pub proof fn a_setting_fails_of_what_happened(setting: Setting, fault: EngineFault)
    requires
        setting.consistent(),
    ensures
        setting.failure() == Some(SetFailure::Refused(fault)) ==> {
            ||| setting.created == Some(Err::<(), EngineFault>(fault))
            ||| {
                &&& setting.located == Some((Err::<(), EngineFault>(fault), false))
                &&& setting.spec.at is Expression ==> setting.asked == Some(false)
            }
            ||| setting.command_set == Some(Err::<(), EngineFault>(fault))
            ||| setting.passes_set == Some(Err::<(), EngineFault>(fault))
            ||| setting.thread_set == Some(Err::<(), EngineFault>(fault))
            ||| setting.data_set == Some(Err::<(), EngineFault>(fault))
            ||| setting.armed == Some(Err::<(), EngineFault>(fault))
        },
        setting.failure() is None ==> {
            &&& setting.spec.flaw() is None
            &&& setting.created != Some(Err::<(), EngineFault>(fault))
            &&& setting.located == Some((Err::<(), EngineFault>(fault), false)) ==> setting.spec.at
                is Expression && setting.asked != Some(false)
            &&& setting.command_set != Some(Err::<(), EngineFault>(fault))
            &&& setting.passes_set != Some(Err::<(), EngineFault>(fault))
            &&& setting.thread_set != Some(Err::<(), EngineFault>(fault))
            &&& setting.data_set != Some(Err::<(), EngineFault>(fault))
            &&& setting.armed != Some(Err::<(), EngineFault>(fault))
            &&& !(setting.read_back matches Some(Err(_)))
        },
        setting.spec.flaw() matches Some(why) ==> setting.failure() == Some(
            SetFailure::Invalid(why),
        ),
        setting.failure() matches Some(SetFailure::Unread(error)) ==> setting.read_back == Some(
            Err::<BreakpointInfo, DbgEngError>(error),
        ),
        setting.spec.flaw() is None && (setting.spec.command matches Some(command)
            && command@.contains('\0')) ==> setting.failure() == Some(SetFailure::BadText),
        setting.failure() is None && setting.created is Some ==> !(setting.spec.at
            matches BreakpointAt::Expression(text) && text@.contains('\0')),
        setting.failure() == Some(SetFailure::BadText) ==> (setting.spec.command
            matches Some(command) && command@.contains('\0')) || (setting.spec.at
            matches BreakpointAt::Expression(text) && text@.contains('\0')),
{
}

/// A failure is told as what it is, with the engine's own fault where it was the engine's.
pub proof fn a_failure_is_told_as_it_is(error: DbgEngError, failure: SetFailure)
    requires
        tells(error, failure),
    ensures
        failure matches SetFailure::Invalid(why) ==> error is InvalidBreakpoint
            && error->InvalidBreakpoint_0@ == why,
        failure is BadText ==> error is InvalidCommand,
        failure matches SetFailure::Refused(fault) ==> error is BreakpointFailed
            && error->BreakpointFailed_0 == fault,
        failure matches SetFailure::Unread(cause) ==> error == cause,
{
}

/// A resolve was cut short exactly where its watchdog fired or it was asked to break, and says
/// which; and a breakpoint is at an address exactly where the engine could say one.
pub proof fn a_resolve_is_told_by_its_replies(setting: Setting, address: u64)
    ensures
        setting.cut_short() == Some(
            Interruption::Deadline { after_ms: setting.timeout_ms },
        ) <==> (setting.located matches Some((_, true))),
        setting.cut_short() == Some(Interruption::OnRequest) <==> !(setting.located matches Some(
            (_, true),
        )) && setting.asked == Some(true),
        setting.cut_short() is None <==> !(setting.located matches Some((_, true)))
            && setting.asked != Some(true),
        setting.resolved() == Some(address) <==> setting.offset == Some(Some(address)) && address
            != u64::MAX,
        setting.misresolved() <==> {
            &&& setting.spec.data matches Some(watch)
            &&& setting.offset matches Some(Some(at))
            &&& at != u64::MAX && at % (watch.size as u64) != 0
        },
{
}

/// What is replaced is what was at the address and is not the new breakpoint, in the order the
/// engine lists it.
pub proof fn the_others_are_listed_in_order(held: Seq<BreakpointInfo>, address: u64, keep: u32)
    ensures
        others_at(held, address, keep) == held.filter(
            |info: BreakpointInfo| info.id != keep && info.address == Some(address),
        ).map_values(|info: BreakpointInfo| info.id),
    decreases held.len(),
{
    reveal(Seq::filter);
    let ours = |info: BreakpointInfo| info.id != keep && info.address == Some(address);
    let id = |info: BreakpointInfo| info.id;
    if held.len() > 0 {
        the_others_are_listed_in_order(held.drop_last(), address, keep);
    }
    assert(others_at(held, address, keep) =~= held.filter(ours).map_values(id));
}

/// What is told as removed is what was: every id whose removal went well, and no other.
pub proof fn only_what_went_is_told_as_removed(ids: Seq<u32>, taken: Seq<bool>, id: u32)
    requires
        taken.len() <= ids.len(),
    ensures
        those_taken(ids, taken).contains(id) <==> exists|i: int|
            0 <= i < taken.len() && #[trigger] taken[i] && ids[i] == id,
        those_taken(ids, taken).len() <= taken.len(),
        (forall|i: int| 0 <= i < taken.len() ==> #[trigger] taken[i]) ==> those_taken(ids, taken)
            == ids.take(taken.len() as int),
    decreases taken.len(),
{
    if taken.len() > 0 {
        let front = taken.drop_last();
        only_what_went_is_told_as_removed(ids, front, id);
        let before = those_taken(ids, front);
        let all = those_taken(ids, taken);
        let last = taken.len() - 1;
        assert(forall|i: int| 0 <= i < last ==> #[trigger] taken[i] == front[i]);
        if taken.last() {
            assert(all[all.len() - 1] == ids[last]);
            assert forall|i: int| 0 <= i < before.len() implies all[i] == #[trigger] before[i] by {}
            if before.contains(id) {
                let k = before.index_of(id);
                assert(all[k] == id);
            }
            if all.contains(id) && ids[last] != id {
                let k = all.index_of(id);
                assert(before[k] == id);
            }
            if ids[last] == id {
                assert(all.contains(id));
                assert(taken[last]);
            }
        }
        if before.contains(id) {
            let i = choose|i: int| 0 <= i < front.len() && #[trigger] front[i] && ids[i] == id;
            assert(taken[i]);
        }
        if exists|i: int| 0 <= i < taken.len() && #[trigger] taken[i] && ids[i] == id {
            let i = choose|i: int| 0 <= i < taken.len() && #[trigger] taken[i] && ids[i] == id;
            if i < last {
                assert(front[i]);
            }
        }
        if forall|i: int| 0 <= i < taken.len() ==> #[trigger] taken[i] {
            assert(taken[last]);
            assert(forall|i: int| 0 <= i < front.len() ==> #[trigger] front[i]);
            assert(all =~= ids.take(taken.len() as int));
        }
    } else {
        assert(those_taken(ids, taken) =~= ids.take(0));
    }
}

/// The breakpoints are read one after another, each at its index, until all are.
pub proof fn breakpoints_are_read_in_order(walk: BreakpointWalk, index: u32)
    ensures
        walk.next_index() == Some(index) ==> index == walk.read@.len() && index < walk.count,
        walk.next_index() is None ==> walk.read@.len() >= walk.count,
{
}

} // verus!
