//! The failures an engine session reports.
use vstd::prelude::*;
use vstd::string::*;

use crate::text::{decimal, decimal_text, hex, hex_text, joined};

verus! {

/// A failing engine call: its `HRESULT` and what the system says of it.
#[derive(Debug, Clone)]
pub struct EngineFault {
    pub code: i32,
    pub text: String,
}

impl EngineFault {
    /// The same fault again.
    pub fn duplicate(&self) -> (same: EngineFault)
        ensures
            same == *self,
    {
        EngineFault { code: self.code, text: self.text.clone() }
    }
}

/// Why an engine operation failed.
#[derive(Debug, Clone)]
pub enum DbgEngError {
    /// COM could not be initialized.
    ComInitFailed(EngineFault),
    /// The engine handed out no client.
    CreateClientFailed(EngineFault),
    /// The client has no control interface.
    GetControlFailed(EngineFault),
    /// The client has no symbols interface.
    GetSymbolsFailed(EngineFault),
    /// A kernel attach was refused.
    AttachFailed(EngineFault),
    /// A command, or the wait behind it, failed.
    CommandFailed(EngineFault),
    /// The symbol path could not be changed.
    SymbolPathFailed(EngineFault),
    /// The engine refused a step of building a breakpoint.
    BreakpointFailed(EngineFault),
    /// Any other engine call failed.
    OperationFailed(EngineFault),
    /// A breakpoint the engine would take now and refuse at the next resume.
    InvalidBreakpoint(String),
    /// A command text the engine cannot be handed.
    InvalidCommand,
    /// The engine holds no target.
    NoDebuggee,
    /// A kernel target connected and never broke in.
    KernelBreakTimeout,
    /// A user-mode open whose process never joined the session.
    LiveTargetTimeout,
    /// A user-mode open a host stopped before its process joined.
    LiveTargetInterrupted,
    /// A text the engine cannot print.
    InvalidOutput,
    /// A scope of another target was offered back.
    ScopeFromAnotherTarget,
    /// A failing call, with what it was made for.
    Context { operation: String, source: EngineFault },
    /// A read that came back with fewer bytes than it asked for.
    ShortRead { address: u64, requested: usize, actual: usize },
    /// A buffer the engine's own length fields cannot describe.
    BufferTooLarge(usize),
    /// The announcement-driven kernel attach could not be carried through.
    ExperimentalKernelAttach(&'static str),
}

impl DbgEngError {
    /// Whether this is a failing call made for what `operation` says.
    pub open spec fn is_context(&self, operation: Seq<char>, fault: EngineFault) -> bool {
        self matches DbgEngError::Context { operation: said, source } && said@ == operation
            && source == fault
    }

    /// The same failure again.
    pub fn duplicate(&self) -> (same: DbgEngError)
        ensures
            same == *self,
    {
        match self {
            DbgEngError::ComInitFailed(fault) => DbgEngError::ComInitFailed(fault.duplicate()),
            DbgEngError::CreateClientFailed(fault) => DbgEngError::CreateClientFailed(
                fault.duplicate(),
            ),
            DbgEngError::GetControlFailed(fault) => DbgEngError::GetControlFailed(
                fault.duplicate(),
            ),
            DbgEngError::GetSymbolsFailed(fault) => DbgEngError::GetSymbolsFailed(
                fault.duplicate(),
            ),
            DbgEngError::AttachFailed(fault) => DbgEngError::AttachFailed(fault.duplicate()),
            DbgEngError::CommandFailed(fault) => DbgEngError::CommandFailed(fault.duplicate()),
            DbgEngError::SymbolPathFailed(fault) => DbgEngError::SymbolPathFailed(
                fault.duplicate(),
            ),
            DbgEngError::BreakpointFailed(fault) => DbgEngError::BreakpointFailed(
                fault.duplicate(),
            ),
            DbgEngError::OperationFailed(fault) => DbgEngError::OperationFailed(fault.duplicate()),
            DbgEngError::InvalidBreakpoint(why) => DbgEngError::InvalidBreakpoint(why.clone()),
            DbgEngError::InvalidCommand => DbgEngError::InvalidCommand,
            DbgEngError::NoDebuggee => DbgEngError::NoDebuggee,
            DbgEngError::KernelBreakTimeout => DbgEngError::KernelBreakTimeout,
            DbgEngError::LiveTargetTimeout => DbgEngError::LiveTargetTimeout,
            DbgEngError::LiveTargetInterrupted => DbgEngError::LiveTargetInterrupted,
            DbgEngError::InvalidOutput => DbgEngError::InvalidOutput,
            DbgEngError::ScopeFromAnotherTarget => DbgEngError::ScopeFromAnotherTarget,
            DbgEngError::Context { operation, source } => DbgEngError::Context {
                operation: operation.clone(),
                source: source.duplicate(),
            },
            DbgEngError::ShortRead { address, requested, actual } => DbgEngError::ShortRead {
                address: *address,
                requested: *requested,
                actual: *actual,
            },
            DbgEngError::BufferTooLarge(size) => DbgEngError::BufferTooLarge(*size),
            DbgEngError::ExperimentalKernelAttach(why) => DbgEngError::ExperimentalKernelAttach(
                why,
            ),
        }
    }

    /// What the failure says of itself.
    pub open spec fn message(&self) -> Seq<char> {
        match self {
            DbgEngError::ComInitFailed(fault) => "Failed to initialize COM: "@ + fault.text@,
            DbgEngError::CreateClientFailed(fault) => "Failed to create debug client: "@ + fault.text@,
            DbgEngError::GetControlFailed(fault) => "Failed to get debug control: "@ + fault.text@,
            DbgEngError::GetSymbolsFailed(fault) => "Failed to get debug symbols: "@ + fault.text@,
            DbgEngError::AttachFailed(fault) => "Failed to attach to kernel: "@ + fault.text@,
            DbgEngError::CommandFailed(fault) => "Debug command failed: "@ + fault.text@,
            DbgEngError::SymbolPathFailed(fault) => "Symbol path operation failed: "@ + fault.text@,
            DbgEngError::BreakpointFailed(fault) => "Breakpoint failed: "@ + fault.text@,
            DbgEngError::OperationFailed(fault) => "Operation failed: "@ + fault.text@,
            DbgEngError::InvalidBreakpoint(why) => "Invalid breakpoint: "@ + why@,
            DbgEngError::InvalidCommand => "Invalid command string (contains interior NUL)"@,
            DbgEngError::NoDebuggee => "No active debuggee — attach to a target, launch a process, or open a dump/trace first"@,
            DbgEngError::KernelBreakTimeout => "kernel target did not break in within the attach timeout — is it reachable and in debug mode?"@,
            DbgEngError::LiveTargetTimeout => "the process did not join the session within the open timeout"@,
            DbgEngError::LiveTargetInterrupted => "the open was interrupted before the process joined the session"@,
            DbgEngError::InvalidOutput => "debugger text contains an interior NUL"@,
            DbgEngError::ScopeFromAnotherTarget => "this scope was read from a target the engine no longer holds"@,
            DbgEngError::Context { operation, source } => operation@ + " failed: "@ + source.text@,
            DbgEngError::ShortRead { address, requested, actual } => "short virtual read at "@
                + hex_text(*address as nat) + ": requested "@ + decimal_text(*requested as nat)
                + " bytes, read "@ + decimal_text(*actual as nat),
            DbgEngError::BufferTooLarge(size) => "requested debugger buffer is too large: "@
                + decimal_text(*size as nat) + " bytes"@,
            DbgEngError::ExperimentalKernelAttach(why) => "experimental kernel attach: "@ + why@,
        }
    }

    /// The message, as text.
    pub fn to_text(&self) -> (text: String)
        ensures
            text@ == self.message(),
    {
        match self {
            DbgEngError::ComInitFailed(fault) => joined("Failed to initialize COM: ", fault.text.as_str()),
            DbgEngError::CreateClientFailed(fault) => joined("Failed to create debug client: ", fault.text.as_str()),
            DbgEngError::GetControlFailed(fault) => joined("Failed to get debug control: ", fault.text.as_str()),
            DbgEngError::GetSymbolsFailed(fault) => joined("Failed to get debug symbols: ", fault.text.as_str()),
            DbgEngError::AttachFailed(fault) => joined("Failed to attach to kernel: ", fault.text.as_str()),
            DbgEngError::CommandFailed(fault) => joined("Debug command failed: ", fault.text.as_str()),
            DbgEngError::SymbolPathFailed(fault) => joined("Symbol path operation failed: ", fault.text.as_str()),
            DbgEngError::BreakpointFailed(fault) => joined("Breakpoint failed: ", fault.text.as_str()),
            DbgEngError::OperationFailed(fault) => joined("Operation failed: ", fault.text.as_str()),
            DbgEngError::InvalidBreakpoint(why) => joined("Invalid breakpoint: ", why.as_str()),
            DbgEngError::InvalidCommand => String::from_str("Invalid command string (contains interior NUL)"),
            DbgEngError::NoDebuggee => String::from_str("No active debuggee — attach to a target, launch a process, or open a dump/trace first"),
            DbgEngError::KernelBreakTimeout => String::from_str("kernel target did not break in within the attach timeout — is it reachable and in debug mode?"),
            DbgEngError::LiveTargetTimeout => String::from_str("the process did not join the session within the open timeout"),
            DbgEngError::LiveTargetInterrupted => String::from_str("the open was interrupted before the process joined the session"),
            DbgEngError::InvalidOutput => String::from_str("debugger text contains an interior NUL"),
            DbgEngError::ScopeFromAnotherTarget => String::from_str("this scope was read from a target the engine no longer holds"),
            DbgEngError::Context { operation, source } => {
                let mut text = joined(operation.as_str(), " failed: ");
                text.append(source.text.as_str());
                text
            },
            DbgEngError::ShortRead { address, requested, actual } => {
                let mut text = joined("short virtual read at ", hex(*address).as_str());
                text.append(": requested ");
                text.append(decimal(*requested as u64).as_str());
                text.append(" bytes, read ");
                text.append(decimal(*actual as u64).as_str());
                text
            },
            DbgEngError::BufferTooLarge(size) => {
                let mut text = joined(
                    "requested debugger buffer is too large: ",
                    decimal(*size as u64).as_str(),
                );
                text.append(" bytes");
                text
            },
            DbgEngError::ExperimentalKernelAttach(why) => joined(
                "experimental kernel attach: ",
                why,
            ),
        }
    }
}

/// What an engine call answered, its failure told with what the call was made for.
pub fn in_context<T>(operation: String, reply: Result<T, EngineFault>) -> (result: Result<
    T,
    DbgEngError,
>)
    ensures
        match reply {
            Ok(value) => result == Ok::<T, DbgEngError>(value),
            Err(fault) => result matches Err(error) && error.is_context(operation@, fault),
        },
{
    match reply {
        Ok(value) => Ok(value),
        Err(source) => Err(DbgEngError::Context { operation, source }),
    }
}

/// An error that has a cause ends in the cause's own words, and one with more to say says it.
pub proof fn an_error_says_its_cause(error: DbgEngError, fault: EngineFault)
    ensures
        error == DbgEngError::ComInitFailed(fault) || error == DbgEngError::CreateClientFailed(
            fault,
        ) || error == DbgEngError::GetControlFailed(fault) || error
            == DbgEngError::GetSymbolsFailed(fault) || error == DbgEngError::AttachFailed(fault)
            || error == DbgEngError::CommandFailed(fault) || error
            == DbgEngError::SymbolPathFailed(fault) || error == DbgEngError::BreakpointFailed(fault)
            || error == DbgEngError::OperationFailed(fault) ==> fault.text@.is_suffix_of(
            error.message(),
        ),
        error matches DbgEngError::InvalidBreakpoint(why) ==> why@.is_suffix_of(error.message()),
        error matches DbgEngError::ExperimentalKernelAttach(why) ==> why@.is_suffix_of(
            error.message(),
        ),
        error matches DbgEngError::Context { operation, source } ==> operation@.is_prefix_of(
            error.message(),
        ) && source.text@.is_suffix_of(error.message()),
        error matches DbgEngError::ShortRead { address, requested, actual } ==> {
            &&& ("short virtual read at "@ + hex_text(address as nat) + ": requested "@
                + decimal_text(requested as nat)).is_prefix_of(error.message())
            &&& (" bytes, read "@ + decimal_text(actual as nat)).is_suffix_of(error.message())
        },
        error matches DbgEngError::BufferTooLarge(size) ==> (decimal_text(size as nat)
            + " bytes"@).is_suffix_of(error.message()),
{
    let said = error.message();
    let ends = |tail: Seq<char>| said.skip(said.len() - tail.len());
    match error {
        DbgEngError::ComInitFailed(fault) | DbgEngError::CreateClientFailed(fault)
        | DbgEngError::GetControlFailed(fault) | DbgEngError::GetSymbolsFailed(fault)
        | DbgEngError::AttachFailed(fault) | DbgEngError::CommandFailed(fault)
        | DbgEngError::SymbolPathFailed(fault) | DbgEngError::BreakpointFailed(fault)
        | DbgEngError::OperationFailed(fault) => {
            assert(ends(fault.text@) =~= fault.text@);
        },
        DbgEngError::InvalidBreakpoint(why) => {
            assert(ends(why@) =~= why@);
        },
        DbgEngError::ExperimentalKernelAttach(why) => {
            assert(ends(why@) =~= why@);
        },
        DbgEngError::Context { operation, source } => {
            assert(said.take(operation@.len() as int) =~= operation@);
            assert(ends(source.text@) =~= source.text@);
        },
        DbgEngError::ShortRead { address, requested, actual } => {
            let head = "short virtual read at "@ + hex_text(address as nat) + ": requested "@
                + decimal_text(requested as nat);
            let tail = " bytes, read "@ + decimal_text(actual as nat);
            assert(said.take(head.len() as int) =~= head);
            assert(ends(tail) =~= tail);
        },
        DbgEngError::BufferTooLarge(size) => {
            let tail = decimal_text(size as nat) + " bytes"@;
            assert(ends(tail) =~= tail);
        },
        _ => {},
    }
}

/// Every error says what failed, each in its own words.
pub proof fn every_error_has_its_words(fault: EngineFault)
    ensures
        "Failed to initialize COM: "@.is_prefix_of(DbgEngError::ComInitFailed(fault).message()),
        "Failed to create debug client: "@.is_prefix_of(
            DbgEngError::CreateClientFailed(fault).message(),
        ),
        "Failed to get debug control: "@.is_prefix_of(
            DbgEngError::GetControlFailed(fault).message(),
        ),
        "Failed to get debug symbols: "@.is_prefix_of(
            DbgEngError::GetSymbolsFailed(fault).message(),
        ),
        "Failed to attach to kernel: "@.is_prefix_of(DbgEngError::AttachFailed(fault).message()),
        "Debug command failed: "@.is_prefix_of(DbgEngError::CommandFailed(fault).message()),
        "Symbol path operation failed: "@.is_prefix_of(
            DbgEngError::SymbolPathFailed(fault).message(),
        ),
        "Breakpoint failed: "@.is_prefix_of(DbgEngError::BreakpointFailed(fault).message()),
        "Operation failed: "@.is_prefix_of(DbgEngError::OperationFailed(fault).message()),
        DbgEngError::InvalidCommand.message() == "Invalid command string (contains interior NUL)"@,
        DbgEngError::LiveTargetTimeout.message()
            == "the process did not join the session within the open timeout"@,
        DbgEngError::LiveTargetInterrupted.message()
            == "the open was interrupted before the process joined the session"@,
        DbgEngError::InvalidOutput.message() == "debugger text contains an interior NUL"@,
        DbgEngError::ScopeFromAnotherTarget.message()
            == "this scope was read from a target the engine no longer holds"@,
{
    let begins = |said: Seq<char>, head: Seq<char>| said.take(head.len() as int);
    assert(begins(
        DbgEngError::ComInitFailed(fault).message(),
        "Failed to initialize COM: "@,
    ) =~= "Failed to initialize COM: "@);
    assert(begins(
        DbgEngError::CreateClientFailed(fault).message(),
        "Failed to create debug client: "@,
    ) =~= "Failed to create debug client: "@);
    assert(begins(
        DbgEngError::GetControlFailed(fault).message(),
        "Failed to get debug control: "@,
    ) =~= "Failed to get debug control: "@);
    assert(begins(
        DbgEngError::GetSymbolsFailed(fault).message(),
        "Failed to get debug symbols: "@,
    ) =~= "Failed to get debug symbols: "@);
    assert(begins(
        DbgEngError::AttachFailed(fault).message(),
        "Failed to attach to kernel: "@,
    ) =~= "Failed to attach to kernel: "@);
    assert(begins(DbgEngError::CommandFailed(fault).message(), "Debug command failed: "@)
        =~= "Debug command failed: "@);
    assert(begins(
        DbgEngError::SymbolPathFailed(fault).message(),
        "Symbol path operation failed: "@,
    ) =~= "Symbol path operation failed: "@);
    assert(begins(DbgEngError::BreakpointFailed(fault).message(), "Breakpoint failed: "@)
        =~= "Breakpoint failed: "@);
    assert(begins(DbgEngError::OperationFailed(fault).message(), "Operation failed: "@)
        =~= "Operation failed: "@);
}

/// A failing call is told with what it was made for and with the engine's own fault, and with
/// nothing else.
pub proof fn a_context_holds_both(error: DbgEngError, operation: Seq<char>, fault: EngineFault)
    ensures
        error.is_context(operation, fault) <==> {
            &&& error is Context
            &&& error->operation@ == operation
            &&& error->source == fault
        },
{
}

} // verus!
