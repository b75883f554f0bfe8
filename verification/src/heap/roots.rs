//! What a heap root is, by its signatures, and where it names its place on `ntdll`'s heap list.
use vstd::prelude::*;
use vstd::string::*;

use crate::bytes::{le32, le64, read_le32, read_le64};
use super::types::{text_of, HeapKind, HeapQueryError, HeapRoot, HeapRootView};
use crate::dbgeng::error::DbgEngError;
use crate::text::{hex, hex_text, joined};

verus! {

pub const SEGMENT_HEAP_SIGNATURE: u32 = 0xddee_ddee;

pub const NT_HEAP_SIGNATURE: u32 = 0xeeff_eeff;

/// The most heaps a PEB is believed to name.
pub const MAX_PROCESS_HEAPS: u64 = 4096;

/// Where an entry on `ntdll`'s process heap list keeps the heap it stands for.
pub const LIST_ENTRY_HEAP: u64 = 0x10;

/// The addresses user mode can hold, on x64 and ARM64 alike.
pub open spec fn in_user_half(address: u64) -> bool {
    0x1_0000 <= address < 0x0000_8000_0000_0000
}

/// Whether `address` lies in the user half of the address space.
pub fn user_pointer(address: u64) -> (inside: bool)
    ensures
        inside == in_user_half(address),
{
    address >= 0x1_0000 && address < 0x0000_8000_0000_0000
}

/// The offsets root discovery reads at, taken out of the schema once.
#[derive(Debug, Clone, Copy, PartialEq, Eq, Structural)]
pub struct RootLayout {
    pub number_of_heaps: u64,
    pub process_heaps: u64,
    pub segment_signature: u64,
    pub nt_signature: u64,
    /// Where each kind of heap names its entry on `ntdll`'s heap list, when the symbols say.
    pub segment_entry: Option<u64>,
    pub nt_entry: Option<u64>,
}

/// A field of the schema that root discovery needs.
#[derive(Debug, Clone, Copy, PartialEq, Eq, Structural)]
pub enum RootField {
    NumberOfHeaps,
    ProcessHeaps,
    SegmentSignature,
    NtSignature,
    SegmentEntry,
    NtEntry,
}

impl RootField {
    /// The type and the field as the symbols name them.
    pub open spec fn spec_names(self) -> (Seq<char>, Seq<char>) {
        match self {
            RootField::NumberOfHeaps => ("_PEB"@, "NumberOfHeaps"@),
            RootField::ProcessHeaps => ("_PEB"@, "ProcessHeaps"@),
            RootField::SegmentSignature => ("_SEGMENT_HEAP"@, "Signature"@),
            RootField::NtSignature => ("_HEAP"@, "Signature"@),
            RootField::SegmentEntry => ("_SEGMENT_HEAP"@, "UserContext"@),
            RootField::NtEntry => ("_HEAP"@, "UserContext"@),
        }
    }

    /// The type and the field as the symbols name them.
    pub fn names(self) -> (names: (&'static str, &'static str))
        ensures
            (names.0@, names.1@) == self.spec_names(),
    {
        match self {
            RootField::NumberOfHeaps => ("_PEB", "NumberOfHeaps"),
            RootField::ProcessHeaps => ("_PEB", "ProcessHeaps"),
            RootField::SegmentSignature => ("_SEGMENT_HEAP", "Signature"),
            RootField::NtSignature => ("_HEAP", "Signature"),
            RootField::SegmentEntry => ("_SEGMENT_HEAP", "UserContext"),
            RootField::NtEntry => ("_HEAP", "UserContext"),
        }
    }
}

/// What the schema answered for each [`RootField`]: an offset, or why there is none.
pub struct RootFields {
    pub number_of_heaps: Result<u64, String>,
    pub process_heaps: Result<u64, String>,
    pub segment_signature: Result<u64, String>,
    pub nt_signature: Result<u64, String>,
    pub segment_entry: Result<u64, String>,
    pub nt_entry: Result<u64, String>,
}

impl RootFields {
    /// The first of the four fields discovery cannot do without that the schema lacks.
    pub open spec fn first_missing(&self) -> Option<String> {
        if self.number_of_heaps is Err {
            Some(self.number_of_heaps->Err_0)
        } else if self.process_heaps is Err {
            Some(self.process_heaps->Err_0)
        } else if self.segment_signature is Err {
            Some(self.segment_signature->Err_0)
        } else if self.nt_signature is Err {
            Some(self.nt_signature->Err_0)
        } else {
            None
        }
    }
}

impl RootLayout {
    /// The layout the schema's answers give. The four signature and PEB fields are needed; the
    /// two list fields are absent on a build that keeps no list.
    pub fn of(fields: RootFields) -> (layout: Result<RootLayout, HeapQueryError>)
        ensures
            layout is Err == (fields.first_missing() is Some),
            layout is Err ==> layout->Err_0 == HeapQueryError::Layout(fields.first_missing()->0),
            layout matches Ok(layout) ==> {
                &&& layout.number_of_heaps == fields.number_of_heaps->Ok_0
                &&& layout.process_heaps == fields.process_heaps->Ok_0
                &&& layout.segment_signature == fields.segment_signature->Ok_0
                &&& layout.nt_signature == fields.nt_signature->Ok_0
                &&& layout.segment_entry == (match fields.segment_entry {
                    Ok(offset) => Some(offset),
                    Err(_) => None,
                })
                &&& layout.nt_entry == (match fields.nt_entry {
                    Ok(offset) => Some(offset),
                    Err(_) => None,
                })
            },
    {
        let number_of_heaps: u64 = match fields.number_of_heaps {
            Ok(offset) => offset,
            Err(why) => return Err(HeapQueryError::Layout(why)),
        };
        let process_heaps: u64 = match fields.process_heaps {
            Ok(offset) => offset,
            Err(why) => return Err(HeapQueryError::Layout(why)),
        };
        let segment_signature: u64 = match fields.segment_signature {
            Ok(offset) => offset,
            Err(why) => return Err(HeapQueryError::Layout(why)),
        };
        let nt_signature: u64 = match fields.nt_signature {
            Ok(offset) => offset,
            Err(why) => return Err(HeapQueryError::Layout(why)),
        };
        Ok(
            RootLayout {
                number_of_heaps,
                process_heaps,
                segment_signature,
                nt_signature,
                segment_entry: fields.segment_entry.ok(),
                nt_entry: fields.nt_entry.ok(),
            },
        )
    }
}

/// What was read of a value, or the text of why it could not be.
pub open spec fn outcome_of(read: Result<u32, String>) -> Result<u32, Seq<char>> {
    match read {
        Ok(value) => Ok(value),
        Err(why) => Err(why@),
    }
}

/// What the two signatures say a root is, and why it is not walked where it is not.
pub open spec fn classification(
    segment: Result<u32, Seq<char>>,
    nt: Result<u32, Seq<char>>,
) -> (HeapKind, Option<Seq<char>>) {
    let is_segment = segment == Ok::<u32, Seq<char>>(SEGMENT_HEAP_SIGNATURE);
    let is_nt = nt == Ok::<u32, Seq<char>>(NT_HEAP_SIGNATURE);
    if is_segment && is_nt {
        (
            HeapKind::Unknown,
            Some("root ambiguously matches both Segment and NT heap signatures"@),
        )
    } else if is_segment {
        (HeapKind::Segment, None)
    } else if is_nt {
        (
            HeapKind::Nt,
            Some("classic NT heap decoding is outside the v1 Segment Heap walker"@),
        )
    } else if segment is Err && nt is Err {
        (
            HeapKind::Unreadable,
            Some(
                "cannot read Segment signature ("@ + segment->Err_0 + ") or NT signature ("@
                    + nt->Err_0 + ")"@,
            ),
        )
    } else {
        (
            HeapKind::Unknown,
            Some("root matches neither the PDB-resolved Segment nor NT heap signature"@),
        )
    }
}

/// What the two signatures say a root is.
pub fn classify_root(segment: Result<u32, String>, nt: Result<u32, String>) -> (judged: (
    HeapKind,
    Option<String>,
))
    ensures
        (judged.0, text_of(judged.1)) == classification(outcome_of(segment), outcome_of(nt)),
{
    let is_segment: bool = match &segment {
        Ok(value) => *value == SEGMENT_HEAP_SIGNATURE,
        Err(_) => false,
    };
    let is_nt: bool = match &nt {
        Ok(value) => *value == NT_HEAP_SIGNATURE,
        Err(_) => false,
    };
    if is_segment && is_nt {
        return (
            HeapKind::Unknown,
            Some(
                String::from_str("root ambiguously matches both Segment and NT heap signatures"),
            ),
        );
    }
    if is_segment {
        return (HeapKind::Segment, None);
    }
    if is_nt {
        return (
            HeapKind::Nt,
            Some(
                String::from_str(
                    "classic NT heap decoding is outside the v1 Segment Heap walker",
                ),
            ),
        );
    }
    match (segment, nt) {
        (Err(segment), Err(nt)) => {
            let mut why = joined("cannot read Segment signature (", segment.as_str());
            why.append(") or NT signature (");
            why.append(nt.as_str());
            why.append(")");
            (HeapKind::Unreadable, Some(why))
        },
        _ => (
            HeapKind::Unknown,
            Some(
                String::from_str(
                    "root matches neither the PDB-resolved Segment nor NT heap signature",
                ),
            ),
        ),
    }
}

/// What a read of target memory came back with.
#[derive(Debug, Clone)]
pub enum MemoryReply {
    Bytes(Vec<u8>),
    Failed(DbgEngError),
}

/// A [`MemoryReply`] with its bytes as a sequence.
pub enum MemoryReplyView {
    Bytes(Seq<u8>),
    Failed(DbgEngError),
}

impl View for MemoryReply {
    type V = MemoryReplyView;

    open spec fn view(&self) -> MemoryReplyView {
        match self {
            MemoryReply::Bytes(bytes) => MemoryReplyView::Bytes(bytes@),
            MemoryReply::Failed(error) => MemoryReplyView::Failed(*error),
        }
    }
}

impl MemoryReplyView {
    /// A read answers with every byte it asked for, or fails.
    pub open spec fn whole(self, size: nat) -> bool {
        self matches MemoryReplyView::Bytes(bytes) ==> bytes.len() == size
    }
}

/// What is known of a root before its memory is read.
pub enum Probe {
    /// Its address alone decides.
    Known { kind: HeapKind, reason: Option<String> },
    /// Both signatures lie in the `size` bytes at `address`.
    Read { address: u64, size: u64 },
}

/// A [`Probe`] with its text as characters.
pub enum ProbeView {
    Known { kind: HeapKind, reason: Option<Seq<char>> },
    Read { address: u64, size: u64 },
}

impl View for Probe {
    type V = ProbeView;

    open spec fn view(&self) -> ProbeView {
        match self {
            Probe::Known { kind, reason } => ProbeView::Known {
                kind: *kind,
                reason: text_of(*reason),
            },
            Probe::Read { address, size } => ProbeView::Read { address: *address, size: *size },
        }
    }
}

impl RootLayout {
    /// The lower of the two signature offsets.
    pub open spec fn lower_signature(self) -> u64 {
        if self.segment_signature <= self.nt_signature {
            self.segment_signature
        } else {
            self.nt_signature
        }
    }

    /// The higher of the two signature offsets.
    pub open spec fn higher_signature(self) -> u64 {
        if self.segment_signature <= self.nt_signature {
            self.nt_signature
        } else {
            self.segment_signature
        }
    }

    /// Whether one read can cover both signatures.
    pub open spec fn readable(self) -> bool {
        self.higher_signature() + 4 <= u64::MAX
    }

    /// How many bytes cover both signatures.
    pub open spec fn signature_span(self) -> int {
        self.higher_signature() + 4 - self.lower_signature()
    }

    /// What is known of the root at `address` before its memory is read.
    pub open spec fn probe_of(self, address: u64) -> ProbeView {
        if address == 0 {
            ProbeView::Known { kind: HeapKind::Unknown, reason: Some("null heap root"@) }
        } else if !in_user_half(address) {
            ProbeView::Known {
                kind: HeapKind::Unknown,
                reason: Some("heap root is outside the user address range"@),
            }
        } else if address + self.lower_signature() > u64::MAX {
            let overflow = "heap signature address overflow"@;
            let (kind, reason) = classification(Err(overflow), Err(overflow));
            ProbeView::Known { kind, reason }
        } else {
            ProbeView::Read {
                address: (address + self.lower_signature()) as u64,
                size: self.signature_span() as u64,
            }
        }
    }

    /// What the bytes that cover both signatures say of the root they were read from.
    pub open spec fn judged_from(self, reply: MemoryReplyView) -> (HeapKind, Option<Seq<char>>) {
        match reply {
            MemoryReplyView::Bytes(bytes) => classification(
                Ok(le32(bytes, self.segment_signature - self.lower_signature())),
                Ok(le32(bytes, self.nt_signature - self.lower_signature())),
            ),
            MemoryReplyView::Failed(error) => classification(
                Err(error.message()),
                Err(error.message()),
            ),
        }
    }

    /// What the heap at `address` is, without reading it where its address decides.
    pub fn probe(&self, address: u64) -> (probe: Probe)
        requires
            self.readable(),
        ensures
            probe@ == self.probe_of(address),
    {
        if address == 0 {
            return Probe::Known {
                kind: HeapKind::Unknown,
                reason: Some(String::from_str("null heap root")),
            };
        }
        if !user_pointer(address) {
            return Probe::Known {
                kind: HeapKind::Unknown,
                reason: Some(String::from_str("heap root is outside the user address range")),
            };
        }
        let lower: u64 = if self.segment_signature <= self.nt_signature {
            self.segment_signature
        } else {
            self.nt_signature
        };
        let higher: u64 = if self.segment_signature <= self.nt_signature {
            self.nt_signature
        } else {
            self.segment_signature
        };
        match address.checked_add(lower) {
            Some(start) => Probe::Read { address: start, size: higher + 4 - lower },
            None => {
                let (kind, reason) = classify_root(
                    Err(String::from_str("heap signature address overflow")),
                    Err(String::from_str("heap signature address overflow")),
                );
                Probe::Known { kind, reason }
            },
        }
    }

    /// What the bytes that cover both signatures say of their root.
    pub fn judge(&self, reply: &MemoryReply) -> (judged: (HeapKind, Option<String>))
        requires
            self.readable(),
            reply@.whole(self.signature_span() as nat),
        ensures
            (judged.0, text_of(judged.1)) == self.judged_from(reply@),
    {
        match reply {
            MemoryReply::Bytes(bytes) => {
                let length: usize = bytes.len();
                assert(length == self.signature_span());
                let lower: u64 = if self.segment_signature <= self.nt_signature {
                    self.segment_signature
                } else {
                    self.nt_signature
                };
                let segment: u32 = read_le32(
                    bytes.as_slice(),
                    (self.segment_signature - lower) as usize,
                );
                let nt: u32 = read_le32(bytes.as_slice(), (self.nt_signature - lower) as usize);
                classify_root(Ok(segment), Ok(nt))
            },
            MemoryReply::Failed(error) => classify_root(
                Err(error.to_text()),
                Err(error.to_text()),
            ),
        }
    }
}

/// Where a heap keeps the name of its entry on `ntdll`'s heap list.
pub enum Naming {
    /// It cannot be told.
    Unknown(String),
    /// The heap names none.
    Nowhere,
    /// At this address.
    At(u64),
}

/// A [`Naming`] with its text as characters.
pub enum NamingView {
    Unknown(Seq<char>),
    Nowhere,
    At(u64),
}

impl View for Naming {
    type V = NamingView;

    open spec fn view(&self) -> NamingView {
        match self {
            Naming::Unknown(why) => NamingView::Unknown(why@),
            Naming::Nowhere => NamingView::Nowhere,
            Naming::At(address) => NamingView::At(*address),
        }
    }
}

/// `base + offset`, at most the last address there is.
pub open spec fn saturated(base: u64, offset: u64) -> u64 {
    if base + offset <= u64::MAX {
        (base + offset) as u64
    } else {
        u64::MAX
    }
}

impl RootLayout {
    /// Where a heap of this kind names its list entry.
    pub open spec fn naming_of(self, heap: u64, kind: HeapKind) -> NamingView {
        match kind {
            HeapKind::Segment => match self.segment_entry {
                Some(offset) => NamingView::At(saturated(heap, offset)),
                None => NamingView::Nowhere,
            },
            HeapKind::Nt => match self.nt_entry {
                Some(offset) => NamingView::At(saturated(heap, offset)),
                None => NamingView::Nowhere,
            },
            HeapKind::Unknown | HeapKind::Unreadable => NamingView::Unknown(
                "heap "@ + hex_text(heap as nat)
                    + " is neither a Segment nor an NT heap, so where it names its entry is not known"@,
            ),
        }
    }

    /// Where the heap at `heap` names its entry on `ntdll`'s heap list.
    pub fn naming(&self, heap: u64, kind: HeapKind) -> (naming: Naming)
        ensures
            naming@ == self.naming_of(heap, kind),
    {
        let offset = match kind {
            HeapKind::Segment => self.segment_entry,
            HeapKind::Nt => self.nt_entry,
            HeapKind::Unknown | HeapKind::Unreadable => {
                let mut why = joined("heap ", hex(heap).as_str());
                why.append(
                    " is neither a Segment nor an NT heap, so where it names its entry is not known",
                );
                return Naming::Unknown(why);
            },
        };
        match offset {
            Some(offset) => Naming::At(heap.saturating_add(offset)),
            None => Naming::Nowhere,
        }
    }
}

/// The entry a heap names, from the read of where it names one; null is none.
pub open spec fn entry_named(heap: u64, reply: MemoryReplyView) -> Result<Option<u64>, Seq<char>> {
    match reply {
        MemoryReplyView::Bytes(bytes) => if le64(bytes, 0) == 0 {
            Ok(None)
        } else {
            Ok(Some(le64(bytes, 0)))
        },
        MemoryReplyView::Failed(error) => Err(
            "cannot read where heap "@ + hex_text(heap as nat) + " names its entry: "@
                + error.message(),
        ),
    }
}

/// A named entry, or the text of why it is not known.
pub open spec fn named_view(named: Result<Option<u64>, String>) -> Result<Option<u64>, Seq<char>> {
    match named {
        Ok(entry) => Ok(entry),
        Err(why) => Err(why@),
    }
}

/// The entry `heap` names, from the read of where it names one.
pub fn list_entry_of(heap: u64, reply: &MemoryReply) -> (named: Result<Option<u64>, String>)
    requires
        reply@.whole(8),
    ensures
        named_view(named) == entry_named(heap, reply@),
{
    match reply {
        MemoryReply::Bytes(bytes) => {
            let entry: u64 = read_le64(bytes.as_slice(), 0);
            if entry == 0 {
                Ok(None)
            } else {
                Ok(Some(entry))
            }
        },
        MemoryReply::Failed(error) => {
            let mut why = joined("cannot read where heap ", hex(heap).as_str());
            why.append(" names its entry: ");
            why.append(error.to_text().as_str());
            Err(why)
        },
    }
}

/// The root at a position, by what it was judged to be.
pub open spec fn root_at(index: nat, address: u64, judged: (HeapKind, Option<Seq<char>>)) -> HeapRootView {
    HeapRootView {
        index,
        address,
        kind: judged.0,
        supported: judged.0 == HeapKind::Segment,
        reason: judged.1,
    }
}

/// The root at a position, by what it was judged to be; only a Segment Heap is supported.
pub fn root(index: usize, address: u64, judged: (HeapKind, Option<String>)) -> (root: HeapRoot)
    ensures
        root@ == root_at(index as nat, address, (judged.0, text_of(judged.1))),
{
    HeapRoot {
        index,
        address,
        kind: judged.0,
        supported: judged.0 == HeapKind::Segment,
        reason: judged.1,
    }
}

/// A heap lies in the user half of memory: above the first pages and below the kernel's.
pub proof fn the_user_half_has_its_bounds(address: u64)
    ensures
        in_user_half(address) <==> address >= 65_536 && address <= 0x7fff_ffff_ffff,
{
}

/// Every field is found under the name its record gives it.
pub proof fn every_field_has_its_name(field: RootField)
    ensures
        field is NumberOfHeaps ==> field.spec_names() == ("_PEB"@, "NumberOfHeaps"@),
        field is ProcessHeaps ==> field.spec_names() == ("_PEB"@, "ProcessHeaps"@),
        field is SegmentSignature ==> field.spec_names() == ("_SEGMENT_HEAP"@, "Signature"@),
        field is NtSignature ==> field.spec_names() == ("_HEAP"@, "Signature"@),
        field is SegmentEntry ==> field.spec_names() == ("_SEGMENT_HEAP"@, "UserContext"@),
        field is NtEntry ==> field.spec_names() == ("_HEAP"@, "UserContext"@),
{
}

/// The layout is missing exactly where one of the four fields it cannot do without is, and the
/// first of them says why. The entries on the list may be.
pub proof fn four_fields_are_needed(fields: RootFields)
    ensures
        fields.first_missing() is None <==> fields.number_of_heaps is Ok && fields.process_heaps
            is Ok && fields.segment_signature is Ok && fields.nt_signature is Ok,
        fields.number_of_heaps matches Err(why) ==> fields.first_missing() == Some(why),
        fields.number_of_heaps is Ok ==> (fields.process_heaps matches Err(why)
            ==> fields.first_missing() == Some(why)),
        fields.number_of_heaps is Ok && fields.process_heaps is Ok ==> (fields.segment_signature
            matches Err(why) ==> fields.first_missing() == Some(why)),
        fields.number_of_heaps is Ok && fields.process_heaps is Ok && fields.segment_signature is Ok
            ==> (fields.nt_signature matches Err(why) ==> fields.first_missing() == Some(why)),
{
}

/// A root is of a kind exactly where its signature is that kind's and not the other's as well; it
/// is unreadable where neither could be read, and unknown otherwise. Only a Segment heap needs no
/// reason.
pub proof fn a_signature_tells_the_kind(segment: Result<u32, Seq<char>>, nt: Result<u32, Seq<char>>)
    ensures
        ({
            let is_segment = segment matches Ok(word) && word == 0xddee_ddee;
            let is_nt = nt matches Ok(word) && word == 0xeeff_eeff;
            let kind = classification(segment, nt).0;
            let reason = classification(segment, nt).1;
            &&& kind is Segment <==> is_segment && !is_nt
            &&& kind is Nt <==> is_nt && !is_segment
            &&& kind is Unreadable <==> segment is Err && nt is Err
            &&& reason is None <==> kind is Segment
        }),
        segment is Err && nt is Err ==> classification(segment, nt).1 == Some(
            "cannot read Segment signature ("@ + segment->Err_0 + ") or NT signature ("@
                + nt->Err_0 + ")"@,
        ),
{
}

/// A reading is told as it is.
pub proof fn a_reading_is_told_as_it_is(read: Result<u32, String>, named: Result<Option<u64>, String>)
    ensures
        read matches Ok(value) ==> outcome_of(read) == Ok::<u32, Seq<char>>(value),
        read matches Err(why) ==> outcome_of(read) == Err::<u32, Seq<char>>(why@),
        named matches Ok(entry) ==> named_view(named) == Ok::<Option<u64>, Seq<char>>(entry),
        named matches Err(why) ==> named_view(named) == Err::<Option<u64>, Seq<char>>(why@),
{
}

/// One read takes in both signatures and nothing before the one or behind the other; a root is
/// known without one exactly where its address cannot be a heap's or has no such memory behind
/// it.
pub proof fn a_probe_takes_in_both_signatures(layout: RootLayout, heap: u64)
    requires
        layout.readable(),
    ensures
        layout.probe_of(heap) is Known <==> !in_user_half(heap) || heap + layout.segment_signature
            > u64::MAX && heap + layout.nt_signature > u64::MAX,
        layout.probe_of(heap) matches ProbeView::Known { kind, reason } ==> {
            &&& reason is Some
            &&& !in_user_half(heap) ==> kind is Unknown
            &&& in_user_half(heap) ==> kind is Unreadable
        },
        layout.probe_of(heap) matches ProbeView::Read { address, size } ==> {
            &&& address <= heap + layout.segment_signature
            &&& address <= heap + layout.nt_signature
            &&& heap + layout.segment_signature + 4 <= address + size
            &&& heap + layout.nt_signature + 4 <= address + size
            &&& address == heap + layout.segment_signature || address == heap + layout.nt_signature
            &&& address + size == heap + layout.segment_signature + 4 || address + size == heap
                + layout.nt_signature + 4
        },
{
}

/// A root that was read is judged by the words at its own signatures, wherever they lie in what
/// was read, and one that could not be is unreadable.
pub proof fn a_root_is_judged_by_its_own_words(
    layout: RootLayout,
    heap: u64,
    reply: MemoryReplyView,
    address: u64,
    size: u64,
)
    requires
        layout.readable(),
        layout.probe_of(heap) == (ProbeView::Read { address, size }),
    ensures
        reply matches MemoryReplyView::Bytes(bytes) ==> {
            let segment = le32(bytes, heap + layout.segment_signature - address);
            let nt = le32(bytes, heap + layout.nt_signature - address);
            &&& layout.judged_from(reply).0 is Segment <==> segment == 0xddee_ddee && nt
                != 0xeeff_eeff
            &&& layout.judged_from(reply).0 is Nt <==> nt == 0xeeff_eeff && segment != 0xddee_ddee
            &&& !(layout.judged_from(reply).0 is Unreadable)
        },
        reply is Failed ==> layout.judged_from(reply).0 is Unreadable,
{
}

/// A heap names its entry at the place its own kind keeps it, if that kind keeps one; of a root of
/// no known kind it cannot be told.
pub proof fn a_heap_names_its_entry_in_its_own_place(layout: RootLayout, heap: u64, kind: HeapKind)
    ensures
        layout.naming_of(heap, kind) is Unknown <==> kind is Unknown || kind is Unreadable,
        kind is Segment ==> (layout.naming_of(heap, kind) is At <==> layout.segment_entry is Some),
        kind is Nt ==> (layout.naming_of(heap, kind) is At <==> layout.nt_entry is Some),
        kind is Segment && layout.segment_entry is Some && heap + layout.segment_entry->0
            <= u64::MAX ==> layout.naming_of(heap, kind) == NamingView::At(
            (heap + layout.segment_entry->0) as u64,
        ),
        kind is Nt && layout.nt_entry is Some && heap + layout.nt_entry->0 <= u64::MAX
            ==> layout.naming_of(heap, kind) == NamingView::At((heap + layout.nt_entry->0) as u64),
{
}

/// An entry is what the word at that place says, and none where it says nothing.
pub proof fn an_entry_is_what_the_word_says(heap: u64, reply: MemoryReplyView, entry: u64)
    ensures
        entry_named(heap, reply) == Ok::<Option<u64>, Seq<char>>(Some(entry)) <==> reply is Bytes
            && le64(reply->Bytes_0, 0) == entry && entry != 0,
        entry_named(heap, reply) == Ok::<Option<u64>, Seq<char>>(None) <==> reply is Bytes && le64(
            reply->Bytes_0,
            0,
        ) == 0,
        entry_named(heap, reply) is Err <==> reply is Failed,
        reply matches MemoryReplyView::Failed(error) ==> error.message().is_suffix_of(
            entry_named(heap, reply)->Err_0,
        ),
{
    if reply is Failed {
        let said = entry_named(heap, reply)->Err_0;
        let tail = reply->Failed_0.message();
        assert(said.skip(said.len() - tail.len()) =~= tail);
    }
}

/// A root is supported exactly where it is a Segment heap, and holds what it was judged to be.
pub proof fn only_a_segment_heap_is_supported(
    index: nat,
    address: u64,
    judged: (HeapKind, Option<Seq<char>>),
)
    ensures
        root_at(index, address, judged).index == index,
        root_at(index, address, judged).address == address,
        root_at(index, address, judged).kind == judged.0,
        root_at(index, address, judged).reason == judged.1,
        root_at(index, address, judged).supported <==> judged.0 is Segment,
{
}

/// What memory answers, what a probe asks and what a heap names are told as they are, and a whole
/// answer is as long as what was asked for.
pub proof fn what_was_read_is_told_as_it_is(reply: MemoryReply, probe: Probe, naming: Naming, size: nat)
    ensures
        reply matches MemoryReply::Bytes(bytes) ==> reply@ == MemoryReplyView::Bytes(bytes@),
        reply matches MemoryReply::Failed(error) ==> reply@ == MemoryReplyView::Failed(error),
        reply matches MemoryReply::Bytes(bytes) ==> (reply@.whole(size) <==> bytes@.len() == size),
        probe matches Probe::Read { address, size } ==> probe@ == (ProbeView::Read {
            address,
            size,
        }),
        probe matches Probe::Known { kind, reason } ==> probe@ == (ProbeView::Known {
            kind,
            reason: text_of(reason),
        }),
        naming matches Naming::At(address) ==> naming@ == NamingView::At(address),
        naming is Nowhere <==> naming@ is Nowhere,
        naming matches Naming::Unknown(why) ==> naming@ == NamingView::Unknown(why@),
        SEGMENT_HEAP_SIGNATURE == 0xddee_ddee && NT_HEAP_SIGNATURE == 0xeeff_eeff,
        MAX_PROCESS_HEAPS == 4096 && LIST_ENTRY_HEAP == 16,
{
}

/// A layout can be read by exactly where both signatures end within memory.
pub proof fn a_layout_can_be_read_by(layout: RootLayout)
    ensures
        layout.readable() <==> layout.segment_signature + 4 <= u64::MAX && layout.nt_signature + 4
            <= u64::MAX,
{
}

} // verus!
