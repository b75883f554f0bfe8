//! Breakpoints: what one is asked for as, and what the engine holds it as.
use vstd::prelude::*;
use vstd::string::*;

use super::breaks::Interruption;
use super::codes::{
    DEBUG_ANY_ID, DEBUG_BREAKPOINT_CODE, DEBUG_BREAKPOINT_DATA, DEBUG_BREAKPOINT_DEFERRED,
    DEBUG_BREAKPOINT_ENABLED, DEBUG_BREAKPOINT_ONE_SHOT, DEBUG_BREAK_EXECUTE, DEBUG_BREAK_IO,
    DEBUG_BREAK_READ, DEBUG_BREAK_WRITE, DEBUG_INVALID_OFFSET,
};
use super::error::{DbgEngError, EngineFault};
use crate::text::{decimal, decimal_text, hex, hex_text, joined};

verus! {

/// What kind of event a breakpoint watches for.
#[derive(Debug, Clone, Copy, PartialEq, Eq, Structural)]
pub enum BreakpointKind {
    /// Execution reaching an address.
    Code,
    /// Access to a range of memory.
    Data,
    /// A type this build does not name, kept as the engine's own code.
    Other(u32),
}

impl BreakpointKind {
    /// The kind an engine code stands for.
    pub open spec fn of_code(code: u32) -> BreakpointKind {
        if code == DEBUG_BREAKPOINT_CODE {
            BreakpointKind::Code
        } else if code == DEBUG_BREAKPOINT_DATA {
            BreakpointKind::Data
        } else {
            BreakpointKind::Other(code)
        }
    }

    /// The kind an engine code stands for.
    pub fn from_engine(code: u32) -> (kind: BreakpointKind)
        ensures
            kind == BreakpointKind::of_code(code),
    {
        if code == DEBUG_BREAKPOINT_CODE {
            BreakpointKind::Code
        } else if code == DEBUG_BREAKPOINT_DATA {
            BreakpointKind::Data
        } else {
            BreakpointKind::Other(code)
        }
    }
}

/// Where a breakpoint goes.
#[derive(Debug, Clone, PartialEq, Eq)]
pub enum BreakpointAt {
    /// A resolved address. Cannot block and cannot defer.
    Address(u64),
    /// A symbolic expression, which the engine resolves as it is set, and which can block.
    Expression(String),
}

/// What accesses activate a data breakpoint.
#[derive(Debug, Clone, Copy, PartialEq, Eq, Structural)]
pub enum DataAccess {
    Read,
    Write,
    ReadWrite,
    Execute,
    /// I/O port access.
    Io,
    /// A combination this build does not name, kept as the engine's own bits.
    Other(u32),
}

/// The engine's bits for reading and writing both.
pub const DEBUG_BREAK_READ_WRITE: u32 = 3;

impl DataAccess {
    /// The engine's bits for an access.
    pub open spec fn bits(self) -> u32 {
        match self {
            DataAccess::Read => DEBUG_BREAK_READ,
            DataAccess::Write => DEBUG_BREAK_WRITE,
            DataAccess::ReadWrite => DEBUG_BREAK_READ_WRITE,
            DataAccess::Execute => DEBUG_BREAK_EXECUTE,
            DataAccess::Io => DEBUG_BREAK_IO,
            DataAccess::Other(bits) => bits,
        }
    }

    /// The access the engine's bits stand for.
    pub open spec fn of_bits(bits: u32) -> DataAccess {
        if bits == DEBUG_BREAK_READ {
            DataAccess::Read
        } else if bits == DEBUG_BREAK_WRITE {
            DataAccess::Write
        } else if bits == DEBUG_BREAK_READ_WRITE {
            DataAccess::ReadWrite
        } else if bits == DEBUG_BREAK_EXECUTE {
            DataAccess::Execute
        } else if bits == DEBUG_BREAK_IO {
            DataAccess::Io
        } else {
            DataAccess::Other(bits)
        }
    }

    /// The engine's bits for an access. Reading is not widened to reading and writing.
    pub fn to_engine(self) -> (bits: u32)
        ensures
            bits == self.bits(),
    {
        match self {
            DataAccess::Read => DEBUG_BREAK_READ,
            DataAccess::Write => DEBUG_BREAK_WRITE,
            DataAccess::ReadWrite => DEBUG_BREAK_READ_WRITE,
            DataAccess::Execute => DEBUG_BREAK_EXECUTE,
            DataAccess::Io => DEBUG_BREAK_IO,
            DataAccess::Other(bits) => bits,
        }
    }

    /// The access the engine's bits stand for. Bits without a name are kept.
    pub fn from_engine(bits: u32) -> (access: DataAccess)
        ensures
            access == DataAccess::of_bits(bits),
    {
        if bits == DEBUG_BREAK_READ {
            DataAccess::Read
        } else if bits == DEBUG_BREAK_WRITE {
            DataAccess::Write
        } else if bits == DEBUG_BREAK_READ_WRITE {
            DataAccess::ReadWrite
        } else if bits == DEBUG_BREAK_EXECUTE {
            DataAccess::Execute
        } else if bits == DEBUG_BREAK_IO {
            DataAccess::Io
        } else {
            DataAccess::Other(bits)
        }
    }
}

/// An access survives the trip to the engine and back, unless its bits have a name it does not
/// go by; and bits always survive the trip through an access.
pub proof fn an_access_survives_the_round_trip(access: DataAccess, bits: u32)
    ensures
        DataAccess::of_bits(bits).bits() == bits,
        access !is Other ==> DataAccess::of_bits(access.bits()) == access,
        access is Other && DataAccess::of_bits(access.bits()) is Other ==> DataAccess::of_bits(
            access.bits(),
        ) == access,
{
}

/// Each named access has engine bits of its own.
pub proof fn accesses_are_told_apart(left: DataAccess, right: DataAccess)
    requires
        left !is Other,
        right !is Other,
        left != right,
    ensures
        left.bits() != right.bits(),
{
}

/// The watched region of a data breakpoint: what access, over how many bytes.
#[derive(Debug, Clone, Copy, PartialEq, Eq, Structural)]
pub struct DataWatch {
    pub access: DataAccess,
    /// 1, 2, 4 or 8 bytes; the address must be a multiple of it.
    pub size: u32,
}

/// What to do about breakpoints the engine already holds at the address a new one resolves to.
#[derive(Debug, Clone, Copy, PartialEq, Eq, Structural)]
pub enum OnExisting {
    /// Leave them.
    Add,
    /// Remove every other breakpoint at the resolved address, once the new one is certain.
    Replace,
}

impl Default for OnExisting {
    fn default() -> (existing: OnExisting)
        ensures
            existing == OnExisting::Add,
    {
        OnExisting::Add
    }
}

/// A breakpoint to create: where it goes, and every parameter the engine will hold it by.
#[derive(Debug, Clone, PartialEq, Eq)]
pub struct BreakpointSpec {
    pub at: BreakpointAt,
    /// `Some` makes this a data breakpoint, and `None` a code one.
    pub data: Option<DataWatch>,
    /// A debugger command run every time it is activated.
    pub command: Option<String>,
    /// Restricts it to one thread.
    pub thread: Option<u32>,
    /// How many times it must be reached before it stops the target.
    pub pass_count: Option<u32>,
    /// Removes itself the first time it is activated.
    pub one_shot: bool,
    /// Whether it is armed.
    pub enabled: bool,
    pub on_existing: OnExisting,
}

/// Whether a size is one a debug register can watch.
pub open spec fn watchable(size: u32) -> bool {
    size == 1 || size == 2 || size == 4 || size == 8
}

/// What is said of a size no debug register can watch.
pub open spec fn bad_size_text(size: u32) -> Seq<char> {
    "a data breakpoint's size must be 1, 2, 4 or 8 bytes, not "@ + decimal_text(size as nat)
}

/// What is said of an address that is no multiple of its watch's size.
pub open spec fn misaligned_text(size: u32, address: u64) -> Seq<char> {
    "a "@ + decimal_text(size as nat) + "-byte data breakpoint must be "@ + decimal_text(
        size as nat,
    ) + "-byte aligned, and "@ + hex_text(address as nat) + " is not"@
}

/// What is said of a location that resolved to such an address.
pub open spec fn misresolved_text(size: u32, address: u64) -> Seq<char> {
    "a "@ + decimal_text(size as nat) + "-byte data breakpoint must be "@ + decimal_text(
        size as nat,
    ) + "-byte aligned, and this location resolved to "@ + hex_text(address as nat)
        + ", which is not"@
}

impl BreakpointSpec {
    /// A code breakpoint: execution reaching an address. Armed, and beside whatever is there.
    pub fn code(at: BreakpointAt) -> (spec: BreakpointSpec)
        ensures
            spec == (BreakpointSpec {
                at,
                data: None,
                command: None,
                thread: None,
                pass_count: None,
                one_shot: false,
                enabled: true,
                on_existing: OnExisting::Add,
            }),
    {
        BreakpointSpec {
            at,
            data: None,
            command: None,
            thread: None,
            pass_count: None,
            one_shot: false,
            enabled: true,
            on_existing: OnExisting::Add,
        }
    }

    /// A data breakpoint: the processor accessing a region.
    pub fn data(at: BreakpointAt, watch: DataWatch) -> (spec: BreakpointSpec)
        ensures
            spec == (BreakpointSpec {
                at,
                data: Some(watch),
                command: None,
                thread: None,
                pass_count: None,
                one_shot: false,
                enabled: true,
                on_existing: OnExisting::Add,
            }),
    {
        BreakpointSpec { data: Some(watch), ..BreakpointSpec::code(at) }
    }

    /// A command the debugger runs on every activation.
    pub fn with_command(self, command: &str) -> (spec: BreakpointSpec)
        ensures
            spec.command is Some && spec.command->0@ == command@,
            spec == (BreakpointSpec { command: spec.command, ..self }),
    {
        BreakpointSpec { command: Some(String::from_str(command)), ..self }
    }

    /// Restricts it to one thread.
    pub fn on_thread(self, thread: u32) -> (spec: BreakpointSpec)
        ensures
            spec == (BreakpointSpec { thread: Some(thread), ..self }),
    {
        BreakpointSpec { thread: Some(thread), ..self }
    }

    /// Stops only on the nth arrival.
    pub fn with_pass_count(self, passes: u32) -> (spec: BreakpointSpec)
        ensures
            spec == (BreakpointSpec { pass_count: Some(passes), ..self }),
    {
        BreakpointSpec { pass_count: Some(passes), ..self }
    }

    /// Removes itself once activated.
    pub fn one_shot(self) -> (spec: BreakpointSpec)
        ensures
            spec == (BreakpointSpec { one_shot: true, ..self }),
    {
        BreakpointSpec { one_shot: true, ..self }
    }

    /// Creates it disabled.
    pub fn disabled(self) -> (spec: BreakpointSpec)
        ensures
            spec == (BreakpointSpec { enabled: false, ..self }),
    {
        BreakpointSpec { enabled: false, ..self }
    }

    /// Removes whatever the engine already holds at this address.
    pub fn replacing_existing(self) -> (spec: BreakpointSpec)
        ensures
            spec == (BreakpointSpec { on_existing: OnExisting::Replace, ..self }),
    {
        BreakpointSpec { on_existing: OnExisting::Replace, ..self }
    }

    /// Why the engine would take this spec and refuse it at the next resume.
    pub open spec fn flaw(&self) -> Option<Seq<char>> {
        match self.data {
            None => None,
            Some(watch) => if !watchable(watch.size) {
                Some(bad_size_text(watch.size))
            } else {
                match self.at {
                    BreakpointAt::Address(address) => if address % (watch.size as u64) != 0 {
                        Some(misaligned_text(watch.size, address))
                    } else {
                        None
                    },
                    BreakpointAt::Expression(_) => None,
                }
            },
        }
    }

    /// Refuses a spec the engine would accept now and reject later: a data breakpoint of a size
    /// no debug register watches, or at an address that is no multiple of its size. Where an
    /// expression leads is judged once it has resolved.
    pub fn validated(&self) -> (checked: Result<(), DbgEngError>)
        ensures
            checked is Err == self.flaw() is Some,
            checked matches Err(error) ==> error matches DbgEngError::InvalidBreakpoint(why)
                && why@ == self.flaw()->0,
    {
        let watch = match self.data {
            None => return Ok(()),
            Some(watch) => watch,
        };
        if !(watch.size == 1 || watch.size == 2 || watch.size == 4 || watch.size == 8) {
            return Err(
                DbgEngError::InvalidBreakpoint(
                    joined(
                        "a data breakpoint's size must be 1, 2, 4 or 8 bytes, not ",
                        decimal(watch.size as u64).as_str(),
                    ),
                ),
            );
        }
        if let BreakpointAt::Address(address) = &self.at {
            if *address % (watch.size as u64) != 0 {
                let mut why = joined("a ", decimal(watch.size as u64).as_str());
                why.append("-byte data breakpoint must be ");
                why.append(decimal(watch.size as u64).as_str());
                why.append("-byte aligned, and ");
                why.append(hex(*address).as_str());
                why.append(" is not");
                return Err(DbgEngError::InvalidBreakpoint(why));
            }
        }
        Ok(())
    }

    /// The flags a freshly created breakpoint has to be given to match this spec.
    pub open spec fn flag_bits(&self) -> u32 {
        let enabled = if self.enabled {
            DEBUG_BREAKPOINT_ENABLED
        } else {
            0
        };
        let one_shot = if self.one_shot {
            DEBUG_BREAKPOINT_ONE_SHOT
        } else {
            0
        };
        (enabled + one_shot) as u32
    }

    /// The flags a freshly created breakpoint has to be given to match this spec.
    pub fn flags(&self) -> (flags: u32)
        ensures
            flags == self.flag_bits(),
    {
        let mut flags: u32 = 0;
        if self.enabled {
            flags = flags + DEBUG_BREAKPOINT_ENABLED;
        }
        if self.one_shot {
            flags = flags + DEBUG_BREAKPOINT_ONE_SHOT;
        }
        flags
    }
}

/// A spec sends only the two flags a client owns: whether the location is deferred is the
/// engine's to say.
pub proof fn a_spec_sends_only_its_own_flags(spec: BreakpointSpec)
    ensures
        spec.flag_bits() & DEBUG_BREAKPOINT_DEFERRED == 0,
        spec.enabled == (spec.flag_bits() & DEBUG_BREAKPOINT_ENABLED != 0),
        spec.one_shot == (spec.flag_bits() & DEBUG_BREAKPOINT_ONE_SHOT != 0),
{
    assert(0u32 & 2u32 == 0 && 4u32 & 2u32 == 0 && 16u32 & 2u32 == 0 && 20u32 & 2u32 == 0)
        by (bit_vector);
    assert(0u32 & 4u32 == 0 && 4u32 & 4u32 != 0 && 16u32 & 4u32 == 0 && 20u32 & 4u32 != 0)
        by (bit_vector);
    assert(0u32 & 16u32 == 0 && 4u32 & 16u32 == 0 && 16u32 & 16u32 != 0 && 20u32 & 16u32 != 0)
        by (bit_vector);
}

/// One breakpoint the engine holds.
#[derive(Debug, Clone, PartialEq, Eq)]
pub struct BreakpointInfo {
    /// The id the debugger prints and takes.
    pub id: u32,
    pub kind: BreakpointKind,
    /// Where it will fire, or `None` while it has no address yet.
    pub address: Option<u64>,
    /// The expression the engine is still holding this breakpoint as.
    pub expression: Option<String>,
    /// The command the debugger runs each time it fires.
    pub command: Option<String>,
    /// The watched region of a data breakpoint.
    pub data: Option<DataWatch>,
    /// The thread it is restricted to.
    pub thread: Option<u32>,
    pub enabled: bool,
    /// Waiting for its module to load.
    pub deferred: bool,
    /// Removes itself the first time it fires.
    pub one_shot: bool,
    /// How many times it must be reached before it stops the target.
    pub pass_count: u32,
    /// How many of those passes are still to go.
    pub passes_remaining: u32,
}

/// What setting a breakpoint left the session holding.
#[derive(Debug, Clone, PartialEq, Eq)]
pub struct BreakpointSet {
    /// The new breakpoint as the engine holds it.
    pub breakpoint: BreakpointInfo,
    /// Ids removed to make room.
    pub replaced: Vec<u32>,
    /// `None` when the whole set ran to completion. The breakpoint exists either way.
    pub cut_short: Option<Interruption>,
}

/// What the engine's getters answered about a breakpoint. A getter that failed answered nothing.
pub struct RawBreakpoint {
    pub id: Result<u32, EngineFault>,
    pub kind: Option<u32>,
    pub flags: Option<u32>,
    pub offset: Option<u64>,
    pub expression: Option<String>,
    pub command: Option<String>,
    pub thread: Option<u32>,
    /// The watched region's size and access.
    pub data: Option<(u32, u32)>,
    pub pass_count: Option<u32>,
    pub passes_remaining: Option<u32>,
}

/// The address an offset getter answered with, where it is one.
pub open spec fn address_of(offset: Option<u64>) -> Option<u64> {
    match offset {
        Some(offset) => if offset != DEBUG_INVALID_OFFSET {
            Some(offset)
        } else {
            None
        },
        None => None,
    }
}

/// The address an offset getter answered with: a deferred breakpoint has none, and neither has
/// one whose expression resolved to nothing.
pub fn resolved_address(offset: Option<u64>) -> (address: Option<u64>)
    ensures
        address == address_of(offset),
{
    match offset {
        Some(offset) => if offset != DEBUG_INVALID_OFFSET {
            Some(offset)
        } else {
            None
        },
        None => None,
    }
}

/// A text, where there is one and it is not empty.
pub open spec fn nonempty(text: Option<String>) -> Option<String> {
    match text {
        Some(text) => if text@.len() > 0 {
            Some(text)
        } else {
            None
        },
        None => None,
    }
}

fn kept(text: Option<String>) -> (kept: Option<String>)
    ensures
        kept == nonempty(text),
{
    match text {
        Some(text) => if text.as_str().is_empty() {
            None
        } else {
            Some(text)
        },
        None => None,
    }
}

impl RawBreakpoint {
    /// What kind of breakpoint the engine says it is.
    pub open spec fn kind_of(&self) -> BreakpointKind {
        match self.kind {
            Some(code) => BreakpointKind::of_code(code),
            None => BreakpointKind::Other(DEBUG_ANY_ID),
        }
    }

    /// The watched region, of a data breakpoint alone.
    pub open spec fn watch_of(&self) -> Option<DataWatch> {
        match (self.kind_of(), self.data) {
            (BreakpointKind::Data, Some((size, access))) => Some(
                DataWatch { access: DataAccess::of_bits(access), size },
            ),
            _ => None,
        }
    }

    /// Whether a flag is set.
    pub open spec fn flagged(&self, flag: u32) -> bool {
        match self.flags {
            Some(flags) => flags & flag != 0,
            None => 0u32 & flag != 0,
        }
    }
}

/// The thread a breakpoint is restricted to, where it is.
pub open spec fn one_thread(thread: Option<u32>) -> Option<u32> {
    match thread {
        Some(thread) => if thread != DEBUG_ANY_ID {
            Some(thread)
        } else {
            None
        },
        None => None,
    }
}

/// A count, where it could be had.
pub open spec fn counted(count: Option<u32>) -> u32 {
    match count {
        Some(count) => count,
        None => 0,
    }
}

/// The breakpoint of an id that the engine's getters describe.
pub open spec fn info_of(id: u32, raw: RawBreakpoint) -> BreakpointInfo {
    BreakpointInfo {
        id,
        kind: raw.kind_of(),
        address: address_of(raw.offset),
        expression: nonempty(raw.expression),
        command: nonempty(raw.command),
        data: raw.watch_of(),
        thread: one_thread(raw.thread),
        enabled: raw.flagged(DEBUG_BREAKPOINT_ENABLED),
        deferred: raw.flagged(DEBUG_BREAKPOINT_DEFERRED),
        one_shot: raw.flagged(DEBUG_BREAKPOINT_ONE_SHOT),
        pass_count: counted(raw.pass_count),
        passes_remaining: counted(raw.passes_remaining),
    }
}

/// One breakpoint's every field, from what the engine's getters answered. `location` names the
/// breakpoint where even its id cannot be read.
pub fn breakpoint_info(raw: RawBreakpoint, location: &str) -> (info: Result<
    BreakpointInfo,
    DbgEngError,
>)
    ensures
        match raw.id {
            Ok(id) => info == Ok::<BreakpointInfo, DbgEngError>(info_of(id, raw)),
            Err(fault) => info matches Err(error) && error.is_context(
                "reading the id of breakpoint "@ + location@,
                fault,
            ),
        },
{
    let id: u32 = match raw.id {
        Ok(id) => id,
        Err(source) => return Err(
            DbgEngError::Context {
                operation: joined("reading the id of breakpoint ", location),
                source,
            },
        ),
    };
    let kind = match raw.kind {
        Some(code) => BreakpointKind::from_engine(code),
        None => BreakpointKind::Other(DEBUG_ANY_ID),
    };
    let flags: u32 = match raw.flags {
        Some(flags) => flags,
        None => 0,
    };
    let data = match (kind, raw.data) {
        (BreakpointKind::Data, Some((size, access))) => Some(
            DataWatch { access: DataAccess::from_engine(access), size },
        ),
        _ => None,
    };
    let thread = match raw.thread {
        Some(thread) => if thread != DEBUG_ANY_ID {
            Some(thread)
        } else {
            None
        },
        None => None,
    };
    Ok(
        BreakpointInfo {
            id,
            kind,
            address: resolved_address(raw.offset),
            expression: kept(raw.expression),
            command: kept(raw.command),
            data,
            thread,
            enabled: flags & DEBUG_BREAKPOINT_ENABLED != 0,
            deferred: flags & DEBUG_BREAKPOINT_DEFERRED != 0,
            one_shot: flags & DEBUG_BREAKPOINT_ONE_SHOT != 0,
            pass_count: raw.pass_count.unwrap_or(0),
            passes_remaining: raw.passes_remaining.unwrap_or(0),
        },
    )
}

/// What looking a breakpoint up by its id came to.
pub fn looked_up(id: u32, reply: Result<(), EngineFault>) -> (result: Result<(), DbgEngError>)
    ensures
        match reply {
            Ok(_) => result is Ok,
            Err(fault) => result matches Err(error) && error.is_context(
                "looking up breakpoint "@ + decimal_text(id as nat),
                fault,
            ),
        },
{
    match reply {
        Ok(()) => Ok(()),
        Err(source) => Err(
            DbgEngError::Context {
                operation: joined("looking up breakpoint ", decimal(id as u64).as_str()),
                source,
            },
        ),
    }
}

/// What removing a breakpoint that was found came to.
pub fn removed(id: u32, reply: Result<(), EngineFault>) -> (result: Result<(), DbgEngError>)
    ensures
        match reply {
            Ok(_) => result is Ok,
            Err(fault) => result matches Err(error) && error.is_context(
                "removing breakpoint "@ + decimal_text(id as nat),
                fault,
            ),
        },
{
    match reply {
        Ok(()) => Ok(()),
        Err(source) => Err(
            DbgEngError::Context {
                operation: joined("removing breakpoint ", decimal(id as u64).as_str()),
                source,
            },
        ),
    }
}

/// What arming or disarming a breakpoint that was found came to.
pub fn rearmed(id: u32, enabled: bool, reply: Result<(), EngineFault>) -> (result: Result<
    (),
    DbgEngError,
>)
    ensures
        match reply {
            Ok(_) => result is Ok,
            Err(fault) => result matches Err(error) && error.is_context(
                (if enabled {
                    "enabling breakpoint "@
                } else {
                    "disabling breakpoint "@
                }) + decimal_text(id as nat),
                fault,
            ),
        },
{
    match reply {
        Ok(()) => Ok(()),
        Err(source) => {
            let doing = if enabled {
                "enabling breakpoint "
            } else {
                "disabling breakpoint "
            };
            Err(
                DbgEngError::Context {
                    operation: joined(doing, decimal(id as u64).as_str()),
                    source,
                },
            )
        },
    }
}

/// Each engine code has the kind of its own name, and a code without a name is told as itself.
pub proof fn each_breakpoint_code_has_its_own_kind(code: u32)
    ensures
        BreakpointKind::of_code(code) is Code <==> code == DEBUG_BREAKPOINT_CODE,
        BreakpointKind::of_code(code) is Data <==> code == DEBUG_BREAKPOINT_DATA,
        BreakpointKind::of_code(code) is Other <==> code > DEBUG_BREAKPOINT_DATA,
        BreakpointKind::of_code(code) matches BreakpointKind::Other(kept) ==> kept == code,
{
}

/// Each access has the engine's bits of its own name, both ways: what is set is what was asked
/// for, and what is told is what the engine holds.
pub proof fn each_access_has_its_own_bits(access: DataAccess, bits: u32)
    ensures
        DataAccess::of_bits(bits) is Read <==> bits == DEBUG_BREAK_READ,
        DataAccess::of_bits(bits) is Write <==> bits == DEBUG_BREAK_WRITE,
        DataAccess::of_bits(bits) is ReadWrite <==> bits == DEBUG_BREAK_READ + DEBUG_BREAK_WRITE,
        DataAccess::of_bits(bits) is Execute <==> bits == DEBUG_BREAK_EXECUTE,
        DataAccess::of_bits(bits) is Io <==> bits == DEBUG_BREAK_IO,
        DataAccess::of_bits(bits) matches DataAccess::Other(kept) ==> kept == bits,
        access is Read ==> access.bits() == DEBUG_BREAK_READ,
        access is Write ==> access.bits() == DEBUG_BREAK_WRITE,
        access is ReadWrite ==> access.bits() == DEBUG_BREAK_READ + DEBUG_BREAK_WRITE,
        access is Execute ==> access.bits() == DEBUG_BREAK_EXECUTE,
        access is Io ==> access.bits() == DEBUG_BREAK_IO,
        access matches DataAccess::Other(kept) ==> access.bits() == kept,
{
}

/// A spec is refused exactly where it watches a size no debug register watches, or an address that
/// is no multiple of that size: a code breakpoint never is, and neither is an expression of a size
/// that can be watched.
pub proof fn only_an_unwatchable_region_is_refused(spec: BreakpointSpec)
    ensures
        spec.flaw() is Some <==> spec.data is Some && (!(spec.data->0.size == 1
            || spec.data->0.size == 2 || spec.data->0.size == 4 || spec.data->0.size == 8) || (
        spec.at matches BreakpointAt::Address(address) && address % (spec.data->0.size as u64)
            != 0)),
        spec.data is None ==> spec.flaw() is None,
{
}

/// A refusal says the size and, of an address that does not fit, the address too: the size is the
/// last thing said of one that cannot be watched.
pub proof fn a_refusal_names_the_size(size: u32, address: u64)
    ensures
        bad_size_text(size).skip(bad_size_text(size).len() - decimal_text(size as nat).len())
            == decimal_text(size as nat),
        misaligned_text(size, address).skip(
            misaligned_text(size, address).len() - (hex_text(address as nat) + " is not"@).len(),
        ) == hex_text(address as nat) + " is not"@,
        misresolved_text(size, address).skip(
            misresolved_text(size, address).len() - (hex_text(address as nat)
                + ", which is not"@).len(),
        ) == hex_text(address as nat) + ", which is not"@,
{
    let tail = hex_text(address as nat) + " is not"@;
    let said = misaligned_text(size, address);
    assert(said.skip(said.len() - tail.len()) =~= tail);
    let tail = hex_text(address as nat) + ", which is not"@;
    let said = misresolved_text(size, address);
    assert(said.skip(said.len() - tail.len()) =~= tail);
    let said = bad_size_text(size);
    let tail = decimal_text(size as nat);
    assert(said.skip(said.len() - tail.len()) =~= tail);
}

/// A breakpoint is told as the engine's getters describe it, each parameter by the getter of its
/// own name. A getter that failed leaves its own parameter empty and no other.
pub proof fn each_getter_answers_for_itself(id: u32, raw: RawBreakpoint)
    ensures
        info_of(id, raw).id == id,
        raw.kind matches Some(code) ==> {
            &&& info_of(id, raw).kind is Code <==> code == DEBUG_BREAKPOINT_CODE
            &&& info_of(id, raw).kind is Data <==> code == DEBUG_BREAKPOINT_DATA
        },
        raw.kind is None ==> info_of(id, raw).kind is Other,
        raw.pass_count matches Some(n) ==> info_of(id, raw).pass_count == n,
        raw.passes_remaining matches Some(m) ==> info_of(id, raw).passes_remaining == m,
        info_of(id, raw).pass_count == 0 <==> raw.pass_count is None || raw.pass_count == Some(0u32),
        info_of(id, raw).passes_remaining == 0 <==> raw.passes_remaining is None
            || raw.passes_remaining == Some(0u32),
        forall|address: u64|
            info_of(id, raw).address == Some(address) <==> raw.offset == Some(address) && address
                != 0xffff_ffff_ffff_ffff,
        forall|thread: u32|
            info_of(id, raw).thread == Some(thread) <==> raw.thread == Some(thread) && thread
                != 0xffff_ffff,
        info_of(id, raw).expression == raw.expression || (info_of(id, raw).expression is None
            && raw.expression->0@.len() == 0),
        info_of(id, raw).command == raw.command || (info_of(id, raw).command is None
            && raw.command->0@.len() == 0),
        info_of(id, raw).expression matches Some(text) ==> text@.len() > 0,
        info_of(id, raw).command matches Some(text) ==> text@.len() > 0,
{
}

/// A breakpoint's flags are told each by its own bit, and by none where they could not be read.
pub proof fn each_flag_is_its_own_bit(id: u32, raw: RawBreakpoint, flags: u32)
    requires
        raw.flags == Some(flags) || (raw.flags is None && flags == 0),
    ensures
        info_of(id, raw).enabled <==> flags & 4 != 0,
        info_of(id, raw).deferred <==> flags & 2 != 0,
        info_of(id, raw).one_shot <==> flags & 16 != 0,
        raw.flags is None ==> !info_of(id, raw).enabled && !info_of(id, raw).deferred && !info_of(
            id,
            raw,
        ).one_shot,
{
    assert(0u32 & 4u32 == 0 && 0u32 & 2u32 == 0 && 0u32 & 16u32 == 0) by (bit_vector);
}

/// A watched region is told of a data breakpoint alone, with the size and the access the engine
/// holds, whatever those are.
pub proof fn only_a_data_breakpoint_watches(id: u32, raw: RawBreakpoint, size: u32, access: u32)
    ensures
        info_of(id, raw).data is Some <==> raw.kind == Some(DEBUG_BREAKPOINT_DATA) && raw.data
            is Some,
        info_of(id, raw).data is Some && raw.data == Some((size, access)) ==> {
            let watch = info_of(id, raw).data->0;
            &&& watch.size == size
            &&& watch.access.bits() == access
            &&& watch.access is Read <==> access == DEBUG_BREAK_READ
            &&& watch.access is Write <==> access == DEBUG_BREAK_WRITE
            &&& watch.access is Execute <==> access == DEBUG_BREAK_EXECUTE
            &&& watch.access is Io <==> access == DEBUG_BREAK_IO
        },
{
    an_access_survives_the_round_trip(DataAccess::Read, access);
}

} // verus!
