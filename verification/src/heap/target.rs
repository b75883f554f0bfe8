//! Whether a target's heaps can be walked at all.
use vstd::prelude::*;
use vstd::string::*;

use crate::bytes::{le32, read_le_i32, signed32};
use super::roots::{MemoryReply, MemoryReplyView};
use super::types::{HeapQueryError, QueryErrorView};
use crate::dbgeng::codes::{
    DEBUG_STATUS_BREAK, DEBUG_STATUS_NO_DEBUGGEE, IMAGE_FILE_MACHINE_AMD64, IMAGE_FILE_MACHINE_ARM64,
};
use crate::dbgeng::error::DbgEngError;
use crate::dbgeng::module::{ModuleIdentity, SymbolKind};
use crate::text::{hex, hex_text, joined};

verus! {

/// A target whose heaps can be walked.
#[derive(Debug, Clone, Copy, PartialEq, Eq, Structural)]
pub struct ValidatedTarget {
    pub target: u64,
    pub process_system_id: u32,
    pub peb: u64,
    pub generation: u64,
}

/// How far the questions about a target have got.
pub enum TargetCheck {
    /// Asking whether the target is a kernel.
    Class,
    /// Asking what it is doing.
    Status,
    /// Asking which processor it runs on.
    Machine,
    /// Asking where the current process's PEB is.
    Peb,
    /// Asking which process that is.
    Process { peb: u64 },
    /// Nothing stands against it.
    Passed { peb: u64, process_system_id: u32 },
    /// Its heaps cannot be walked.
    Refused(HeapQueryError),
}

/// What a query against a target was answered: the value, or why it could not be asked.
pub open spec fn engine_error(error: DbgEngError) -> QueryErrorView {
    QueryErrorView::Engine(error)
}

/// Why a kernel answer refuses a target.
pub open spec fn class_refusal(kernel: Result<bool, DbgEngError>) -> Option<QueryErrorView> {
    match kernel {
        Err(error) => Some(engine_error(error)),
        Ok(true) => Some(QueryErrorView::NotUserTarget),
        Ok(false) => None,
    }
}

/// Why an execution status refuses a target.
pub open spec fn status_refusal(status: Result<u32, DbgEngError>) -> Option<QueryErrorView> {
    match status {
        Err(error) => Some(engine_error(error)),
        Ok(status) => if status == DEBUG_STATUS_NO_DEBUGGEE {
            Some(QueryErrorView::NoDebuggee)
        } else if status == DEBUG_STATUS_BREAK {
            None
        } else {
            Some(QueryErrorView::TargetRunning { status })
        },
    }
}

/// Why a processor refuses a target.
pub open spec fn machine_refusal(machine: Result<u32, DbgEngError>) -> Option<QueryErrorView> {
    match machine {
        Err(error) => Some(engine_error(error)),
        Ok(machine) => if machine == IMAGE_FILE_MACHINE_AMD64 || machine
            == IMAGE_FILE_MACHINE_ARM64 {
            None
        } else {
            Some(QueryErrorView::UnsupportedArchitecture { machine })
        },
    }
}

/// Why a PEB refuses a target.
pub open spec fn peb_refusal(peb: Result<u64, DbgEngError>) -> Option<QueryErrorView> {
    match peb {
        Err(error) => Some(engine_error(error)),
        Ok(peb) => if peb == 0 {
            Some(QueryErrorView::InvalidPeb("DbgEng returned a null PEB"@))
        } else {
            None
        },
    }
}

impl TargetCheck {
    /// Whether a target was refused for this reason.
    pub open spec fn refused_for(self, refusal: QueryErrorView) -> bool {
        self matches TargetCheck::Refused(error) && error@ == refusal
    }

    /// Takes whether the target is a kernel: only a user-mode one has user heaps.
    pub fn with_class(kernel: Result<bool, DbgEngError>) -> (check: TargetCheck)
        ensures
            class_refusal(kernel) matches Some(refusal) ==> check.refused_for(refusal),
            class_refusal(kernel) is None ==> check is Status,
    {
        match kernel {
            Err(error) => TargetCheck::Refused(HeapQueryError::Engine(error)),
            Ok(true) => TargetCheck::Refused(HeapQueryError::NotUserTarget),
            Ok(false) => TargetCheck::Status,
        }
    }

    /// Takes what the target is doing: its heaps hold still only while it is stopped.
    pub fn with_status(status: Result<u32, DbgEngError>) -> (check: TargetCheck)
        ensures
            status_refusal(status) matches Some(refusal) ==> check.refused_for(refusal),
            status_refusal(status) is None ==> check is Machine,
    {
        match status {
            Err(error) => TargetCheck::Refused(HeapQueryError::Engine(error)),
            Ok(status) => if status == DEBUG_STATUS_NO_DEBUGGEE {
                TargetCheck::Refused(HeapQueryError::NoDebuggee)
            } else if status == DEBUG_STATUS_BREAK {
                TargetCheck::Machine
            } else {
                TargetCheck::Refused(HeapQueryError::TargetRunning { status })
            },
        }
    }

    /// Takes the physical processor, which fixes a pointer's width: x64 and ARM64 are decoded.
    pub fn with_machine(machine: Result<u32, DbgEngError>) -> (check: TargetCheck)
        ensures
            machine_refusal(machine) matches Some(refusal) ==> check.refused_for(refusal),
            machine_refusal(machine) is None ==> check is Peb,
    {
        match machine {
            Err(error) => TargetCheck::Refused(HeapQueryError::Engine(error)),
            Ok(machine) => if machine == IMAGE_FILE_MACHINE_AMD64 || machine
                == IMAGE_FILE_MACHINE_ARM64 {
                TargetCheck::Peb
            } else {
                TargetCheck::Refused(HeapQueryError::UnsupportedArchitecture { machine })
            },
        }
    }

    /// Takes where the PEB is; a null one is nowhere.
    pub fn with_peb(peb: Result<u64, DbgEngError>) -> (check: TargetCheck)
        ensures
            peb_refusal(peb) matches Some(refusal) ==> check.refused_for(refusal),
            peb_refusal(peb) is None ==> check == (TargetCheck::Process { peb: peb->Ok_0 }),
    {
        match peb {
            Err(error) => TargetCheck::Refused(HeapQueryError::Engine(error)),
            Ok(peb) => if peb == 0 {
                TargetCheck::Refused(
                    HeapQueryError::InvalidPeb(String::from_str("DbgEng returned a null PEB")),
                )
            } else {
                TargetCheck::Process { peb }
            },
        }
    }

    /// Takes which process the PEB is of.
    pub fn with_process(peb: u64, process_system_id: Result<u32, DbgEngError>) -> (check: TargetCheck)
        ensures
            process_system_id matches Err(error) ==> check.refused_for(engine_error(error)),
            process_system_id matches Ok(id) ==> check == (TargetCheck::Passed {
                peb,
                process_system_id: id,
            }),
    {
        match process_system_id {
            Err(error) => TargetCheck::Refused(HeapQueryError::Engine(error)),
            Ok(process_system_id) => TargetCheck::Passed { peb, process_system_id },
        }
    }
}

/// Everything asked about a target, in the order it is asked. A question that was not reached is
/// not answered.
pub struct TargetAnswers {
    pub kernel: Result<bool, DbgEngError>,
    pub status: Option<Result<u32, DbgEngError>>,
    pub machine: Option<Result<u32, DbgEngError>>,
    pub peb: Option<Result<u64, DbgEngError>>,
    pub process_system_id: Option<Result<u32, DbgEngError>>,
}

impl TargetAnswers {
    /// Whether exactly the questions were answered that no earlier answer made needless.
    pub open spec fn in_order(self) -> bool {
        &&& self.status is Some == class_refusal(self.kernel) is None
        &&& self.machine is Some == (self.status matches Some(status) && status_refusal(status) is None)
        &&& self.peb is Some == (self.machine matches Some(machine) && machine_refusal(
            machine,
        ) is None)
        &&& self.process_system_id is Some == (self.peb matches Some(peb) && peb_refusal(
            peb,
        ) is None)
    }

    /// Why the target is refused, by the first answer that stands against it.
    pub open spec fn refusal(self) -> Option<QueryErrorView> {
        if class_refusal(self.kernel) is Some {
            class_refusal(self.kernel)
        } else if status_refusal(self.status->0) is Some {
            status_refusal(self.status->0)
        } else if machine_refusal(self.machine->0) is Some {
            machine_refusal(self.machine->0)
        } else if peb_refusal(self.peb->0) is Some {
            peb_refusal(self.peb->0)
        } else {
            match self.process_system_id->0 {
                Err(error) => Some(engine_error(error)),
                Ok(_) => None,
            }
        }
    }
}

/// Whether the heaps of the target that was asked about can be walked.
pub fn validate_target(answers: TargetAnswers, target: u64, generation: u64) -> (valid: Result<
    ValidatedTarget,
    HeapQueryError,
>)
    requires
        answers.in_order(),
    ensures
        valid is Err == answers.refusal() is Some,
        valid matches Err(error) ==> error@ == answers.refusal()->0,
        valid matches Ok(valid) ==> valid == (ValidatedTarget {
            target,
            process_system_id: answers.process_system_id->0->Ok_0,
            peb: answers.peb->0->Ok_0,
            generation,
        }),
{
    match TargetCheck::with_class(answers.kernel) {
        TargetCheck::Refused(error) => return Err(error),
        _ => {},
    }
    let status = match answers.status {
        Some(status) => status,
        None => return Err(HeapQueryError::NotUserTarget),
    };
    match TargetCheck::with_status(status) {
        TargetCheck::Refused(error) => return Err(error),
        _ => {},
    }
    let machine = match answers.machine {
        Some(machine) => machine,
        None => return Err(HeapQueryError::NoDebuggee),
    };
    match TargetCheck::with_machine(machine) {
        TargetCheck::Refused(error) => return Err(error),
        _ => {},
    }
    let peb = match answers.peb {
        Some(peb) => peb,
        None => return Err(HeapQueryError::NoDebuggee),
    };
    let peb: u64 = match TargetCheck::with_peb(peb) {
        TargetCheck::Refused(error) => return Err(error),
        TargetCheck::Process { peb } => peb,
        _ => return Err(HeapQueryError::NoDebuggee),
    };
    let process = match answers.process_system_id {
        Some(process) => process,
        None => return Err(HeapQueryError::NoDebuggee),
    };
    match TargetCheck::with_process(peb, process) {
        TargetCheck::Passed { peb, process_system_id } => Ok(
            ValidatedTarget { target, process_system_id, peb, generation },
        ),
        TargetCheck::Refused(error) => Err(error),
        _ => Err(HeapQueryError::NoDebuggee),
    }
}

/// Why the allocator's layout could not be resolved.
#[derive(Debug)]
pub enum LayoutError {
    Interrupted,
    BudgetExpired,
    /// Anything else, in its own words.
    Other(String),
}

/// What a failing layout means to a heap query.
pub fn map_layout_error(error: LayoutError) -> (mapped: HeapQueryError)
    ensures
        mapped@ == (match error {
            LayoutError::Interrupted => QueryErrorView::Interrupted,
            LayoutError::BudgetExpired => QueryErrorView::BudgetExpired,
            LayoutError::Other(why) => QueryErrorView::Layout(why@),
        }),
{
    match error {
        LayoutError::Interrupted => HeapQueryError::Interrupted,
        LayoutError::BudgetExpired => HeapQueryError::BudgetExpired,
        LayoutError::Other(why) => HeapQueryError::Layout(why),
    }
}

/// Whether resolving the layout goes on: a request to stop outranks the deadline. An engine that
/// could not be asked comes with what the layout has to say about it.
pub fn poll_layout(interrupted: Result<bool, String>, deadline_passed: bool) -> (poll: Result<
    (),
    LayoutError,
>)
    ensures
        interrupted matches Err(why) ==> poll == Err::<(), LayoutError>(LayoutError::Other(why)),
        interrupted == Ok::<bool, String>(true) ==> poll == Err::<(), LayoutError>(
            LayoutError::Interrupted,
        ),
        interrupted == Ok::<bool, String>(false) && deadline_passed ==> poll == Err::<
            (),
            LayoutError,
        >(LayoutError::BudgetExpired),
        interrupted == Ok::<bool, String>(false) && !deadline_passed ==> poll is Ok,
{
    match interrupted {
        Err(why) => Err(LayoutError::Other(why)),
        Ok(true) => Err(LayoutError::Interrupted),
        Ok(false) => if deadline_passed {
            Err(LayoutError::BudgetExpired)
        } else {
            Ok(())
        },
    }
}

/// What an engine query made while resolving the layout comes to: a poll that ends the resolving
/// outranks the query's own answer, failing or not.
pub fn outranked<T>(poll: Result<(), LayoutError>, answer: Result<T, DbgEngError>) -> (taken: Result<
    T,
    HeapQueryError,
>)
    ensures
        poll is Ok && answer is Ok ==> taken == Ok::<T, HeapQueryError>(answer->Ok_0),
        poll is Ok && answer is Err ==> taken is Err && taken->Err_0 == HeapQueryError::Engine(
            answer->Err_0,
        ),
        poll matches Err(error) ==> taken is Err && taken->Err_0@ == (match error {
            LayoutError::Interrupted => QueryErrorView::Interrupted,
            LayoutError::BudgetExpired => QueryErrorView::BudgetExpired,
            LayoutError::Other(why) => QueryErrorView::Layout(why@),
        }),
{
    match poll {
        Err(error) => Err(map_layout_error(error)),
        Ok(()) => match answer {
            Ok(value) => Ok(value),
            Err(error) => Err(HeapQueryError::Engine(error)),
        },
    }
}

/// The failure of a target whose symbols do not say where a thread keeps its `WowTebOffset`.
pub fn missing_wow_field(error: &DbgEngError) -> (missing: HeapQueryError)
    ensures
        missing@ == QueryErrorView::Layout(
            "ntdll's _TEB.WowTebOffset, which says whether this is a WoW64 process: "@
                + error.message(),
        ),
{
    HeapQueryError::Layout(
        joined(
            "ntdll's _TEB.WowTebOffset, which says whether this is a WoW64 process: ",
            error.to_text().as_str(),
        ),
    )
}

/// Whether `ntdll`'s symbols carry the types a walk decodes with: the engine has to have loaded
/// private type information, from a file it can name.
pub fn require_type_info(module: &ModuleIdentity) -> (checked: Result<(), HeapQueryError>)
    ensures
        checked is Ok == ((module.symbols is Pdb || module.symbols is Dia)
            && module.symbol_file@.len() > 0),
        checked matches Err(error) ==> error@ == QueryErrorView::Layout(
            "DbgEng did not load private PDB type information for ntdll"@,
        ),
{
    let typed: bool = matches!(module.symbols, SymbolKind::Pdb | SymbolKind::Dia);
    if !typed || module.symbol_file.as_str().is_empty() {
        Err(
            HeapQueryError::Layout(
                String::from_str("DbgEng did not load private PDB type information for ntdll"),
            ),
        )
    } else {
        Ok(())
    }
}

/// Where a thread's `WowTebOffset` is read.
pub open spec fn wow_field(teb: u64, offset: u64) -> Result<u64, QueryErrorView> {
    if teb == 0 {
        Err(QueryErrorView::InvalidTeb("DbgEng returned a null TEB"@))
    } else if teb + offset > u64::MAX {
        Err(
            QueryErrorView::InvalidTeb(
                "TEB "@ + hex_text(teb as nat) + " + "@ + hex_text(offset as nat) + " overflows"@,
            ),
        )
    } else {
        Ok((teb + offset) as u64)
    }
}

/// Where to read a thread's `WowTebOffset`.
pub fn wow_teb_field(teb: u64, offset: u64) -> (field: Result<u64, HeapQueryError>)
    ensures
        field matches Ok(field) ==> wow_field(teb, offset) == Ok::<u64, QueryErrorView>(field),
        field matches Err(error) ==> wow_field(teb, offset) == Err::<u64, QueryErrorView>(error@),
{
    if teb == 0 {
        return Err(
            HeapQueryError::InvalidTeb(String::from_str("DbgEng returned a null TEB")),
        );
    }
    match teb.checked_add(offset) {
        Some(field) => Ok(field),
        None => {
            let mut why = joined("TEB ", hex(teb).as_str());
            why.append(" + ");
            why.append(hex(offset).as_str());
            why.append(" overflows");
            Err(HeapQueryError::InvalidTeb(why))
        },
    }
}

/// What the four bytes at a thread's `WowTebOffset` say: a thread with a 32-bit TEB beside its
/// own is one of a WoW64 process, and a TEB that cannot be read is not taken for a native one.
pub open spec fn wow_refusal(field: u64, reply: MemoryReplyView) -> Option<QueryErrorView> {
    match reply {
        MemoryReplyView::Failed(error) => Some(
            QueryErrorView::InvalidTeb(
                "cannot read WowTebOffset at "@ + hex_text(field as nat) + ": "@ + error.message(),
            ),
        ),
        MemoryReplyView::Bytes(bytes) => if bytes.len() != 4 {
            Some(
                QueryErrorView::InvalidTeb(
                    "short read of WowTebOffset at "@ + hex_text(field as nat),
                ),
            )
        } else if signed32(le32(bytes, 0)) == 0 {
            None
        } else {
            Some(QueryErrorView::Wow64Process { wow_teb_offset: signed32(le32(bytes, 0)) })
        },
    }
}

/// Refuses a WoW64 process by the four bytes at its thread's `WowTebOffset`.
pub fn wow_teb_offset(field: u64, reply: MemoryReply) -> (checked: Result<(), HeapQueryError>)
    ensures
        checked is Err == wow_refusal(field, reply@) is Some,
        checked matches Err(error) ==> error@ == wow_refusal(field, reply@)->0,
{
    let bytes = match reply {
        MemoryReply::Bytes(bytes) => bytes,
        MemoryReply::Failed(error) => {
            let mut why = joined("cannot read WowTebOffset at ", hex(field).as_str());
            why.append(": ");
            why.append(error.to_text().as_str());
            return Err(HeapQueryError::InvalidTeb(why));
        },
    };
    if bytes.len() != 4 {
        return Err(
            HeapQueryError::InvalidTeb(
                joined("short read of WowTebOffset at ", hex(field).as_str()),
            ),
        );
    }
    let wow_teb_offset: i32 = read_le_i32(bytes.as_slice(), 0);
    if wow_teb_offset == 0 {
        Ok(())
    } else {
        Err(HeapQueryError::Wow64Process { wow_teb_offset })
    }
}

/// A process is let through only where its thread's `WowTebOffset` was read and is zero.
pub proof fn only_a_native_process_passes(field: u64, reply: MemoryReplyView)
    requires
        wow_refusal(field, reply) is None,
    ensures
        reply is Bytes,
        reply->Bytes_0.len() == 4,
        le32(reply->Bytes_0, 0) == 0,
{
}

/// A target is let through exactly where it is a stopped user-mode process of a processor that is
/// known, with a PEB; every failure is the engine's own, and everything else is told as what it
/// is.
pub proof fn only_a_stopped_process_passes(
    kernel: Result<bool, DbgEngError>,
    status: Result<u32, DbgEngError>,
    machine: Result<u32, DbgEngError>,
    peb: Result<u64, DbgEngError>,
)
    ensures
        class_refusal(kernel) is None <==> kernel == Ok::<bool, DbgEngError>(false),
        kernel == Ok::<bool, DbgEngError>(true) ==> class_refusal(kernel) == Some(
            QueryErrorView::NotUserTarget,
        ),
        kernel matches Err(error) ==> class_refusal(kernel) == Some(QueryErrorView::Engine(error)),
        status_refusal(status) is None <==> status == Ok::<u32, DbgEngError>(6u32),
        status_refusal(status) == Some(QueryErrorView::NoDebuggee) <==> status == Ok::<
            u32,
            DbgEngError,
        >(7u32),
        status matches Ok(code) ==> (code != 6 && code != 7 ==> status_refusal(status) == Some(
            QueryErrorView::TargetRunning { status: code },
        )),
        status matches Err(error) ==> status_refusal(status) == Some(QueryErrorView::Engine(error)),
        machine_refusal(machine) is None <==> machine == Ok::<u32, DbgEngError>(0x8664u32)
            || machine == Ok::<u32, DbgEngError>(0xaa64u32),
        machine matches Ok(code) ==> (machine_refusal(machine) is Some ==> machine_refusal(machine)
            == Some(QueryErrorView::UnsupportedArchitecture { machine: code })),
        machine matches Err(error) ==> machine_refusal(machine) == Some(
            QueryErrorView::Engine(error),
        ),
        peb_refusal(peb) is None <==> (peb matches Ok(address) && address != 0),
        peb == Ok::<u64, DbgEngError>(0u64) ==> peb_refusal(peb) is Some && peb_refusal(peb)->0
            is InvalidPeb,
        peb matches Err(error) ==> peb_refusal(peb) == Some(QueryErrorView::Engine(error)),
{
}

/// The first thing that stands against a target is the one it is refused for, and nothing else
/// is.
pub proof fn the_first_refusal_is_told(answers: TargetAnswers)
    requires
        answers.in_order(),
    ensures
        answers.refusal() is None <==> answers.kernel == Ok::<bool, DbgEngError>(false) && (
        answers.status == Some(Ok::<u32, DbgEngError>(6u32))) && (answers.machine == Some(
            Ok::<u32, DbgEngError>(0x8664u32),
        ) || answers.machine == Some(Ok::<u32, DbgEngError>(0xaa64u32))) && (answers.peb
            matches Some(Ok(address)) && address != 0) && (answers.process_system_id matches Some(
            Ok(_),
        )),
        answers.kernel == Ok::<bool, DbgEngError>(true) ==> answers.refusal() == Some(
            QueryErrorView::NotUserTarget,
        ),
        answers.status == Some(Ok::<u32, DbgEngError>(7u32)) ==> answers.refusal() == Some(
            QueryErrorView::NoDebuggee,
        ),
        answers.process_system_id matches Some(Err(error)) ==> answers.refusal() == Some(
            QueryErrorView::Engine(error),
        ),
{
}

/// The word that tells a process of another width lies at its offset in the thread's block, where
/// there is such a block and such an address.
pub proof fn the_word_lies_in_the_block(teb: u64, offset: u64)
    ensures
        wow_field(teb, offset) is Ok <==> teb != 0 && teb + offset <= u64::MAX,
        wow_field(teb, offset) matches Ok(field) ==> field == teb + offset,
        wow_field(teb, offset) matches Err(error) ==> error is InvalidTeb,
{
}

/// A process is refused for its width exactly where that word is not zero, and is told with it;
/// and where the word cannot be read in full that is told instead.
pub proof fn the_word_tells_the_width(field: u64, reply: MemoryReplyView)
    ensures
        wow_refusal(field, reply) is None <==> (reply matches MemoryReplyView::Bytes(bytes)
            && bytes.len() == 4 && le32(bytes, 0) == 0),
        wow_refusal(field, reply) is Some && wow_refusal(field, reply)->0 is Wow64Process <==> (
        reply matches MemoryReplyView::Bytes(bytes) && bytes.len() == 4 && le32(bytes, 0) != 0),
        wow_refusal(field, reply) matches Some(QueryErrorView::Wow64Process { wow_teb_offset })
            ==> wow_teb_offset == signed32(le32(reply->Bytes_0, 0)),
        wow_refusal(field, reply) is Some ==> wow_refusal(field, reply)->0 is Wow64Process
            || wow_refusal(field, reply)->0 is InvalidTeb,
{
}

/// A check that was refused holds what it was refused for; and questions are asked in order, each
/// exactly where nothing before it stood against the target.
pub proof fn questions_are_asked_in_order(
    check: TargetCheck,
    refusal: QueryErrorView,
    answers: TargetAnswers,
)
    ensures
        check.refused_for(refusal) <==> check is Refused && check->Refused_0@ == refusal,
        answers.in_order() <==> {
            &&& answers.status is Some <==> answers.kernel == Ok::<bool, DbgEngError>(false)
            &&& answers.machine is Some <==> answers.status == Some(Ok::<u32, DbgEngError>(6u32))
            &&& answers.peb is Some <==> answers.machine == Some(
                Ok::<u32, DbgEngError>(0x8664u32),
            ) || answers.machine == Some(Ok::<u32, DbgEngError>(0xaa64u32))
            &&& answers.process_system_id is Some <==> (answers.peb matches Some(Ok(address))
                && address != 0)
        },
{
}

} // verus!
