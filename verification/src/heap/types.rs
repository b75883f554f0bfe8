//! What a heap query answers with.
use vstd::prelude::*;
use vstd::string::*;

use crate::dbgeng::error::DbgEngError;
use crate::dbgeng::module::ModuleIdentity;
use crate::text::{
    a_decimal_reads_back, decimal, decimal_text, hex, hex_text, joined, number_of,
};

verus! {

/// What a heap root turned out to be.
#[derive(Debug, Clone, Copy, PartialEq, Eq, Structural, Hash, PartialOrd, Ord)]
pub enum HeapKind {
    Segment,
    Nt,
    Unknown,
    Unreadable,
}

/// One heap of the process.
#[derive(Debug, Clone, PartialEq, Eq)]
pub struct HeapRoot {
    /// Position in the enumeration: `ntdll`'s process heap list in its own order, then any root
    /// the PEB names that the list did not hold.
    pub index: usize,
    pub address: u64,
    pub kind: HeapKind,
    pub supported: bool,
    pub reason: Option<String>,
}

/// A [`HeapRoot`] with its text as characters.
pub struct HeapRootView {
    pub index: nat,
    pub address: u64,
    pub kind: HeapKind,
    pub supported: bool,
    pub reason: Option<Seq<char>>,
}

/// The characters of a text that may be absent.
pub open spec fn text_of(text: Option<String>) -> Option<Seq<char>> {
    match text {
        Some(text) => Some(text@),
        None => None,
    }
}

impl View for HeapRoot {
    type V = HeapRootView;

    open spec fn view(&self) -> HeapRootView {
        HeapRootView {
            index: self.index as nat,
            address: self.address,
            kind: self.kind,
            supported: self.supported,
            reason: text_of(self.reason),
        }
    }
}

impl HeapRoot {
    /// The same root again.
    pub fn duplicate(&self) -> (root: HeapRoot)
        ensures
            root == *self,
    {
        HeapRoot {
            index: self.index,
            address: self.address,
            kind: self.kind,
            supported: self.supported,
            reason: match &self.reason {
                Some(reason) => Some(reason.clone()),
                None => None,
            },
        }
    }
}

/// Which allocator front or back end served a chunk.
#[derive(Debug, Clone, Copy, PartialEq, Eq, Structural, Hash, PartialOrd, Ord)]
pub enum HeapBackend {
    Lfh,
    Vs,
    Segment,
    Large,
}

/// What a chunk is being used for.
#[derive(Debug, Clone, Copy, PartialEq, Eq, Structural, Hash, PartialOrd, Ord)]
pub enum HeapState {
    Allocated,
    ReusableFree,
    CachedFree,
    Unreadable,
}

/// One chunk of a Segment Heap.
#[derive(Debug, Clone, Copy, PartialEq, Eq, Structural)]
pub struct HeapAllocation {
    pub heap: u64,
    pub backend: HeapBackend,
    pub state: HeapState,
    pub header_address: u64,
    pub user_address: u64,
    pub capacity: u64,
    /// Exact only when the selected schema validates the allocator's unused-byte metadata.
    pub requested_size: Option<u64>,
    pub subsegment: Option<u64>,
    pub size_class: u32,
}

impl HeapAllocation {
    /// One past the last usable byte, at most the last address there is.
    pub open spec fn spec_end(&self) -> int {
        if self.user_address + self.capacity <= u64::MAX {
            self.user_address + self.capacity
        } else {
            u64::MAX as int
        }
    }

    /// Whether an address is the chunk's: its header, or what it hands out.
    pub open spec fn covers(&self, address: u64) -> bool {
        self.header_address <= address < self.spec_end()
    }

    /// One past the last usable byte, saturating at the last address there is.
    pub fn end(&self) -> (end: u64)
        ensures
            end == self.spec_end(),
    {
        self.user_address.saturating_add(self.capacity)
    }

    /// Whether `address` lies in the chunk's header or in what it hands out.
    pub fn contains(&self, address: u64) -> (inside: bool)
        ensures
            inside == self.covers(address),
    {
        address >= self.header_address && address < self.end()
    }
}

/// Which heaps a walk covered, and which it had to skip.
#[derive(Debug, Clone, PartialEq, Eq)]
pub struct HeapScope {
    pub segment_heaps_walked: Vec<u64>,
    pub nt_heaps_skipped: Vec<u64>,
    pub unknown_heaps_skipped: Vec<u64>,
    pub unreadable_heaps_skipped: Vec<u64>,
}

/// How much of the process a walk reached.
#[derive(Debug, Clone, Copy, PartialEq, Eq, Structural)]
pub enum WalkCoverage {
    /// Everything there was.
    Complete,
    /// What the budget allowed: more time reaches more.
    BudgetExpired,
    /// What could be read: the same gaps remain however long it runs.
    Partial,
}

impl WalkCoverage {
    /// Whether nothing was missed.
    pub fn complete(self) -> (complete: bool)
        ensures
            complete == (self is Complete),
    {
        matches!(self, WalkCoverage::Complete)
    }
}

/// How often the engine was slow to answer a walk's reads.
#[derive(Debug, Clone, Copy, PartialEq, Eq, Structural)]
pub struct WalkStalls {
    pub count: u64,
}

/// One kind of complaint a walk raised, and how often.
#[derive(Debug, Clone, PartialEq, Eq)]
pub struct DiagnosticShape {
    pub shape: String,
    pub count: u64,
}

/// What a walk covered and what it cost.
#[derive(Debug, Clone, Copy, PartialEq, Eq, Structural)]
pub struct HeapWalkReport {
    pub coverage: WalkCoverage,
    pub total_chunks: usize,
    pub allocated_chunks: usize,
    pub diagnostic_count: usize,
    pub unreadable_gaps: usize,
    pub refused_headers: u64,
    /// Committed bytes the walk declined to decode because it could not place a chunk boundary
    /// in them.
    pub unplaced_bytes: u64,
    pub stalls: WalkStalls,
}

/// The complaints of a walk: totals by shape, and lines kept verbatim.
#[derive(Debug, Clone, PartialEq, Eq)]
pub struct HeapDiagnosticReport {
    pub categories: Vec<DiagnosticShape>,
    pub examples: Vec<String>,
}

/// A chunk and the chunks that touch it.
#[derive(Debug, Clone, Copy, PartialEq, Eq, Structural)]
pub struct HeapNeighbourhood {
    pub allocation: HeapAllocation,
    /// Signed displacement from `user_address`; addresses in the allocator header are negative.
    pub offset: i64,
    pub previous: Option<HeapAllocation>,
    pub next: Option<HeapAllocation>,
}

/// The chunks that share a heap, a back end, a state and a size class.
#[derive(Debug, Clone, Copy, PartialEq, Eq, Structural, Hash, PartialOrd, Ord)]
pub struct HeapCensusRow {
    pub heap: u64,
    pub backend: HeapBackend,
    pub state: HeapState,
    pub size_class: u32,
    pub chunks: usize,
    pub total_capacity: u64,
}

/// The image whose types and symbols a walk was decoded with.
#[derive(Debug, Clone, PartialEq, Eq)]
pub struct LayoutProvenance {
    pub module: ModuleIdentity,
}

/// An answer, paired with the coverage of the walk it came from.
#[derive(Debug, Clone)]
pub struct HeapAnswer<T> {
    pub found: T,
    pub layout: LayoutProvenance,
    pub scope: HeapScope,
    pub walk: HeapWalkReport,
}

/// Why a heap query has no answer.
#[derive(Debug, Clone)]
pub enum HeapQueryError {
    NotUserTarget,
    NoDebuggee,
    TargetRunning { status: u32 },
    UnsupportedArchitecture { machine: u32 },
    /// The current thread has a 32-bit TEB beside its own, so the program's heaps are 32-bit
    /// structures this walker does not decode.
    Wow64Process { wow_teb_offset: i32 },
    InvalidTeb(String),
    InvalidPeb(String),
    UnsupportedHeap { heap: u64 },
    Layout(String),
    Interrupted,
    BudgetExpired,
    Walk(String),
    Engine(DbgEngError),
}

/// A [`HeapQueryError`] with its texts as characters.
pub enum QueryErrorView {
    NotUserTarget,
    NoDebuggee,
    TargetRunning { status: u32 },
    UnsupportedArchitecture { machine: u32 },
    Wow64Process { wow_teb_offset: i32 },
    InvalidTeb(Seq<char>),
    InvalidPeb(Seq<char>),
    UnsupportedHeap { heap: u64 },
    Layout(Seq<char>),
    Interrupted,
    BudgetExpired,
    Walk(Seq<char>),
    Engine(DbgEngError),
}

impl View for HeapQueryError {
    type V = QueryErrorView;

    open spec fn view(&self) -> QueryErrorView {
        match self {
            HeapQueryError::NotUserTarget => QueryErrorView::NotUserTarget,
            HeapQueryError::NoDebuggee => QueryErrorView::NoDebuggee,
            HeapQueryError::TargetRunning { status } => QueryErrorView::TargetRunning {
                status: *status,
            },
            HeapQueryError::UnsupportedArchitecture { machine } =>
                QueryErrorView::UnsupportedArchitecture { machine: *machine },
            HeapQueryError::Wow64Process { wow_teb_offset } => QueryErrorView::Wow64Process {
                wow_teb_offset: *wow_teb_offset,
            },
            HeapQueryError::InvalidTeb(why) => QueryErrorView::InvalidTeb(why@),
            HeapQueryError::InvalidPeb(why) => QueryErrorView::InvalidPeb(why@),
            HeapQueryError::UnsupportedHeap { heap } => QueryErrorView::UnsupportedHeap {
                heap: *heap,
            },
            HeapQueryError::Layout(why) => QueryErrorView::Layout(why@),
            HeapQueryError::Interrupted => QueryErrorView::Interrupted,
            HeapQueryError::BudgetExpired => QueryErrorView::BudgetExpired,
            HeapQueryError::Walk(why) => QueryErrorView::Walk(why@),
            HeapQueryError::Engine(error) => QueryErrorView::Engine(*error),
        }
    }
}

/// `value` in decimal, with a sign where it is negative.
pub open spec fn signed_text(value: i32) -> Seq<char> {
    if value < 0 {
        "-"@ + decimal_text((-value) as nat)
    } else {
        decimal_text(value as nat)
    }
}

fn signed(value: i32) -> (text: String)
    ensures
        text@ == signed_text(value),
{
    if value < 0 {
        joined("-", decimal((-(value as i64)) as u64).as_str())
    } else {
        decimal(value as u64)
    }
}

impl QueryErrorView {
    /// What the failure says of itself.
    pub open spec fn message(self) -> Seq<char> {
        match self {
            QueryErrorView::NotUserTarget => "heap queries require a user-mode target"@,
            QueryErrorView::NoDebuggee => "no debuggee is loaded"@,
            QueryErrorView::TargetRunning { status } =>
                "the target is not stopped (execution status "@ + hex_text(status as nat)
                    + "); break in before walking heaps"@,
            QueryErrorView::UnsupportedArchitecture { machine } =>
                "heap walking supports x64 and ARM64 targets only (machine "@ + hex_text(
                    machine as nat,
                ) + ")"@,
            QueryErrorView::Wow64Process { wow_teb_offset } =>
                "heap walking does not support a WoW64 process (_TEB.WowTebOffset is "@
                    + signed_text(wow_teb_offset)
                    + "): its own heaps are 32-bit, and the 64-bit heaps beside them are the emulation layer's"@,
            QueryErrorView::InvalidTeb(why) => "invalid TEB: "@ + why,
            QueryErrorView::InvalidPeb(why) => "invalid PEB heap metadata: "@ + why,
            QueryErrorView::UnsupportedHeap { heap } => "heap selector "@ + hex_text(heap as nat)
                + " is not a supported Segment Heap root of the current process"@,
            QueryErrorView::Layout(why) => "missing or unsupported ntdll allocator layout ("@ + why
                + "); run `.reload /f ntdll.dll` and retry"@,
            QueryErrorView::Interrupted => "the heap walk was interrupted on request"@,
            QueryErrorView::BudgetExpired =>
                "the heap walk ran out of its budget while resolving the ntdll allocator layout"@,
            QueryErrorView::Walk(why) => "walking the heap failed: "@ + why,
            QueryErrorView::Engine(error) => error.message(),
        }
    }
}

impl HeapQueryError {
    /// The message, as text.
    pub fn to_text(&self) -> (text: String)
        ensures
            text@ == self@.message(),
    {
        match self {
            HeapQueryError::NotUserTarget => String::from_str(
                "heap queries require a user-mode target",
            ),
            HeapQueryError::NoDebuggee => String::from_str("no debuggee is loaded"),
            HeapQueryError::TargetRunning { status } => {
                let mut text = joined(
                    "the target is not stopped (execution status ",
                    hex(*status as u64).as_str(),
                );
                text.append("); break in before walking heaps");
                text
            },
            HeapQueryError::UnsupportedArchitecture { machine } => {
                let mut text = joined(
                    "heap walking supports x64 and ARM64 targets only (machine ",
                    hex(*machine as u64).as_str(),
                );
                text.append(")");
                text
            },
            HeapQueryError::Wow64Process { wow_teb_offset } => {
                let mut text = joined(
                    "heap walking does not support a WoW64 process (_TEB.WowTebOffset is ",
                    signed(*wow_teb_offset).as_str(),
                );
                text.append(
                    "): its own heaps are 32-bit, and the 64-bit heaps beside them are the emulation layer's",
                );
                text
            },
            HeapQueryError::InvalidTeb(why) => joined("invalid TEB: ", why.as_str()),
            HeapQueryError::InvalidPeb(why) => joined("invalid PEB heap metadata: ", why.as_str()),
            HeapQueryError::UnsupportedHeap { heap } => {
                let mut text = joined("heap selector ", hex(*heap).as_str());
                text.append(" is not a supported Segment Heap root of the current process");
                text
            },
            HeapQueryError::Layout(why) => {
                let mut text = joined(
                    "missing or unsupported ntdll allocator layout (",
                    why.as_str(),
                );
                text.append("); run `.reload /f ntdll.dll` and retry");
                text
            },
            HeapQueryError::Interrupted => String::from_str(
                "the heap walk was interrupted on request",
            ),
            HeapQueryError::BudgetExpired => String::from_str(
                "the heap walk ran out of its budget while resolving the ntdll allocator layout",
            ),
            HeapQueryError::Walk(why) => joined("walking the heap failed: ", why.as_str()),
            HeapQueryError::Engine(error) => error.to_text(),
        }
    }
}

/// A chunk covers its header and what is its user's, up to its end and no further; a chunk that
/// would reach past the highest address ends there.
pub proof fn a_chunk_covers_its_own(chunk: HeapAllocation, address: u64)
    ensures
        chunk.user_address + chunk.capacity <= u64::MAX ==> (chunk.covers(address) <==> (
        chunk.header_address <= address && address < chunk.user_address + chunk.capacity)),
        chunk.user_address + chunk.capacity > u64::MAX ==> (chunk.covers(address) <==> (
        chunk.header_address <= address && address < u64::MAX)),
        chunk.user_address + chunk.capacity <= u64::MAX ==> chunk.spec_end() - chunk.user_address
            == chunk.capacity,
{
}

/// A root is told as it is.
pub proof fn a_root_is_told_as_it_is(root: HeapRoot)
    ensures
        root@.index == root.index,
        root@.address == root.address,
        root@.kind == root.kind,
        root@.supported == root.supported,
        root@.reason is None <==> root.reason is None,
        root.reason matches Some(reason) ==> root@.reason == Some(reason@),
{
}

/// An error is told as it is, with all that it carries.
pub proof fn a_query_error_is_told_as_it_is(error: HeapQueryError)
    ensures
        error is NotUserTarget <==> error@ is NotUserTarget,
        error is NoDebuggee <==> error@ is NoDebuggee,
        error is Interrupted <==> error@ is Interrupted,
        error is BudgetExpired <==> error@ is BudgetExpired,
        error matches HeapQueryError::TargetRunning { status } ==> error@
            == (QueryErrorView::TargetRunning { status }),
        error matches HeapQueryError::UnsupportedArchitecture { machine } ==> error@
            == (QueryErrorView::UnsupportedArchitecture { machine }),
        error matches HeapQueryError::Wow64Process { wow_teb_offset } ==> error@
            == (QueryErrorView::Wow64Process { wow_teb_offset }),
        error matches HeapQueryError::InvalidTeb(why) ==> error@ == QueryErrorView::InvalidTeb(
            why@,
        ),
        error matches HeapQueryError::InvalidPeb(why) ==> error@ == QueryErrorView::InvalidPeb(
            why@,
        ),
        error matches HeapQueryError::UnsupportedHeap { heap } ==> error@
            == (QueryErrorView::UnsupportedHeap { heap }),
        error matches HeapQueryError::Layout(why) ==> error@ == QueryErrorView::Layout(why@),
        error matches HeapQueryError::Walk(why) ==> error@ == QueryErrorView::Walk(why@),
        error matches HeapQueryError::Engine(cause) ==> error@ == QueryErrorView::Engine(cause),
{
}

/// A signed number reads back as itself: a sign before its digits where it is below zero, and its
/// digits alone where it is not.
pub proof fn a_signed_number_reads_back(value: i32)
    ensures
        value >= 0 ==> number_of(signed_text(value), 10) == value,
        value < 0 ==> signed_text(value)[0] == '-' && number_of(signed_text(value).skip(1), 10)
            == -value,
{
    reveal_strlit("-");
    if value < 0 {
        a_decimal_reads_back((-value) as nat);
        assert(signed_text(value).skip(1) =~= decimal_text((-value) as nat));
    } else {
        a_decimal_reads_back(value as nat);
    }
}

/// What a refusal says holds what it refuses: the status, the processor, the heap or the cause.
pub proof fn a_refusal_says_what_it_refuses(error: QueryErrorView)
    ensures
        error matches QueryErrorView::TargetRunning { status } ==> (
        "the target is not stopped (execution status "@ + hex_text(status as nat)).is_prefix_of(
            error.message(),
        ),
        error matches QueryErrorView::UnsupportedArchitecture { machine } ==> (hex_text(
            machine as nat,
        ) + ")"@).is_suffix_of(error.message()),
        error matches QueryErrorView::Wow64Process { wow_teb_offset } ==> (
        "heap walking does not support a WoW64 process (_TEB.WowTebOffset is "@ + signed_text(
            wow_teb_offset,
        )).is_prefix_of(error.message()),
        error matches QueryErrorView::InvalidTeb(why) ==> error.message() == "invalid TEB: "@ + why,
        error matches QueryErrorView::InvalidPeb(why) ==> error.message()
            == "invalid PEB heap metadata: "@ + why,
        error matches QueryErrorView::UnsupportedHeap { heap } ==> ("heap selector "@ + hex_text(
            heap as nat,
        )).is_prefix_of(error.message()),
        error matches QueryErrorView::Layout(why) ==> (
        "missing or unsupported ntdll allocator layout ("@ + why).is_prefix_of(error.message()),
        error matches QueryErrorView::Walk(why) ==> error.message() == "walking the heap failed: "@
            + why,
        error matches QueryErrorView::Engine(cause) ==> error.message() == cause.message(),
        error is NotUserTarget ==> error.message() == "heap queries require a user-mode target"@,
        error is NoDebuggee ==> error.message() == "no debuggee is loaded"@,
        error is Interrupted ==> error.message() == "the heap walk was interrupted on request"@,
{
    let said = error.message();
    match error {
        QueryErrorView::TargetRunning { status } => {
            let head = "the target is not stopped (execution status "@ + hex_text(status as nat);
            assert(said.take(head.len() as int) =~= head);
        },
        QueryErrorView::UnsupportedArchitecture { machine } => {
            let tail = hex_text(machine as nat) + ")"@;
            assert(said.skip(said.len() - tail.len()) =~= tail);
        },
        QueryErrorView::Wow64Process { wow_teb_offset } => {
            let head = "heap walking does not support a WoW64 process (_TEB.WowTebOffset is "@
                + signed_text(wow_teb_offset);
            assert(said.take(head.len() as int) =~= head);
        },
        QueryErrorView::UnsupportedHeap { heap } => {
            let head = "heap selector "@ + hex_text(heap as nat);
            assert(said.take(head.len() as int) =~= head);
        },
        QueryErrorView::Layout(why) => {
            let head = "missing or unsupported ntdll allocator layout ("@ + why;
            assert(said.take(head.len() as int) =~= head);
        },
        _ => {},
    }
}

} // verus!
