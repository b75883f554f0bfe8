//! Root discovery: every heap of a process, one engine request at a time.
//!
//! The PEB is not the list: its `ProcessHeaps` holds the process heap and nothing else on a build
//! that keeps `ntdll`'s heap list. The list is reached through the process heap, which names its
//! entry in `UserContext`. Every entry is checked rather than trusted: its heap has to name it
//! back, its `Blink` has to be the entry before it, and exactly one entry, the head, lies inside
//! `ntdll`. Anything the walk cannot follow is reported as unseen rather than absent.
use vstd::prelude::*;
use vstd::string::*;

use crate::bytes::{le32, le64, read_le32, read_le64};
use super::roots::{
    entry_named, in_user_half, list_entry_of, named_view, root, root_at, user_pointer, MemoryReply,
    MemoryReplyView, Naming, NamingView, Probe, ProbeView, RootLayout, MAX_PROCESS_HEAPS,
};
use super::types::{
    text_of, HeapKind, HeapQueryError, HeapRoot, HeapRootView, QueryErrorView,
};
use crate::dbgeng::error::DbgEngError;
use crate::text::{decimal, decimal_text, hex, hex_text, joined};

verus! {

/// The heaps found so far, and what may have been missed.
pub struct RootEnumeration {
    pub roots: Vec<HeapRoot>,
    /// How many roots there are, when that was known before they were all classified: the PEB's
    /// count, on a build that keeps no heap list.
    pub total: Option<usize>,
    pub budget_expired: bool,
    /// Why roots may exist that this enumeration did not see. `None` means it saw them all.
    pub unseen: Option<String>,
}

/// A [`RootEnumeration`] with its roots and text as sequences.
#[verifier::ext_equal]
pub struct EnumerationView {
    pub roots: Seq<HeapRootView>,
    pub total: Option<nat>,
    pub budget_expired: bool,
    pub unseen: Option<Seq<char>>,
}

/// Each root of a sequence, with its text as characters.
pub open spec fn root_views(roots: Seq<HeapRoot>) -> Seq<HeapRootView> {
    Seq::new(roots.len(), |i: int| roots[i]@)
}

impl View for RootEnumeration {
    type V = EnumerationView;

    open spec fn view(&self) -> EnumerationView {
        EnumerationView {
            roots: root_views(self.roots@),
            total: match self.total {
                Some(total) => Some(total as nat),
                None => None,
            },
            budget_expired: self.budget_expired,
            unseen: text_of(self.unseen),
        }
    }
}

impl EnumerationView {
    /// Nothing found yet.
    pub open spec fn nothing() -> EnumerationView {
        EnumerationView { roots: Seq::empty(), total: None, budget_expired: false, unseen: None }
    }

    /// Whether a heap absent from the roots is absent from the process, rather than unseen.
    pub open spec fn saw_every_root(self) -> bool {
        !self.budget_expired && self.unseen is None
    }

    /// The same, with one more root at the end.
    pub open spec fn with_root(
        self,
        address: u64,
        judged: (HeapKind, Option<Seq<char>>),
    ) -> EnumerationView {
        EnumerationView { roots: self.roots.push(root_at(self.roots.len(), address, judged)), ..self }
    }

    /// The same, out of time.
    pub open spec fn expired(self) -> EnumerationView {
        EnumerationView { budget_expired: true, ..self }
    }

    /// The same, with a reason why roots may have been missed.
    pub open spec fn missing(self, why: Seq<char>) -> EnumerationView {
        EnumerationView { unseen: Some(why), ..self }
    }

    /// The same, with the number of roots known beforehand.
    pub open spec fn counted(self, total: nat) -> EnumerationView {
        EnumerationView { total: Some(total), ..self }
    }
}

impl RootEnumeration {
    /// Whether a heap absent from `roots` is absent from the process, rather than unseen.
    pub fn saw_every_root(&self) -> (saw: bool)
        ensures
            saw == self@.saw_every_root(),
    {
        !self.budget_expired && self.unseen.is_none()
    }

    fn nothing() -> (found: RootEnumeration)
        ensures
            found@ == EnumerationView::nothing(),
    {
        let found = RootEnumeration {
            roots: Vec::new(),
            total: None,
            budget_expired: false,
            unseen: None,
        };
        assert(found@ =~= EnumerationView::nothing());
        found
    }

    fn with_root(self, address: u64, judged: (HeapKind, Option<String>)) -> (found: RootEnumeration)
        ensures
            found@ == self@.with_root(address, (judged.0, text_of(judged.1))),
    {
        let mut found = self;
        let index: usize = found.roots.len();
        found.roots.push(root(index, address, judged));
        assert(found@ =~= self@.with_root(address, (judged.0, text_of(judged.1))));
        found
    }
}

/// What the engine says between two reads of the target.
#[derive(Debug, Clone)]
pub enum PollReply {
    /// Nothing stands against going on.
    Clear,
    /// The walk's budget has run out.
    Expired,
    /// Somebody asked for the walk to stop.
    Interrupted,
    /// The engine could not be asked.
    Failed(DbgEngError),
}

/// What the engine says between two reads: a request to stop outranks the deadline.
pub fn root_read_budget_expired(
    interrupted: Result<bool, DbgEngError>,
    deadline_passed: bool,
) -> (poll: PollReply)
    ensures
        interrupted matches Err(error) ==> poll == PollReply::Failed(error),
        interrupted matches Ok(true) ==> poll is Interrupted,
        interrupted matches Ok(false) && deadline_passed ==> poll is Expired,
        interrupted matches Ok(false) && !deadline_passed ==> poll is Clear,
{
    match interrupted {
        Err(error) => PollReply::Failed(error),
        Ok(true) => PollReply::Interrupted,
        Ok(false) => if deadline_passed {
            PollReply::Expired
        } else {
            PollReply::Clear
        },
    }
}

/// What discovery asks of the engine next.
#[derive(Debug, Clone, Copy, PartialEq, Eq, Structural)]
pub enum RootRequest {
    /// Whether to go on.
    Poll,
    /// `size` bytes at `address`, all of them or an error.
    Read { address: u64, size: u64 },
    /// Nothing: discovery is over.
    Nothing,
}

/// What the engine answers.
pub enum RootReply {
    Poll(PollReply),
    Memory(MemoryReply),
}

/// A [`RootReply`] with its bytes as a sequence.
pub enum RootReplyView {
    Poll(PollReply),
    Memory(MemoryReplyView),
}

impl View for RootReply {
    type V = RootReplyView;

    open spec fn view(&self) -> RootReplyView {
        match self {
            RootReply::Poll(poll) => RootReplyView::Poll(*poll),
            RootReply::Memory(memory) => RootReplyView::Memory(memory@),
        }
    }
}

impl RootRequest {
    /// Whether a reply answers this request.
    pub open spec fn answered_by(self, reply: RootReplyView) -> bool {
        match (self, reply) {
            (RootRequest::Poll, RootReplyView::Poll(_)) => true,
            (RootRequest::Read { size, .. }, RootReplyView::Memory(memory)) => memory.whole(
                size as nat,
            ),
            _ => false,
        }
    }
}

/// How far round `ntdll`'s heap list the walk has come.
pub struct Ring {
    /// The process heap's own entry, where the walk set out and has to come back to.
    pub start: u64,
    /// The entries read so far, in the list's order.
    pub visited: Vec<u64>,
    /// How many of them lie inside `ntdll`.
    pub heads: usize,
    /// The entry before this one.
    pub previous: Option<u64>,
    /// What the first entry calls the entry before it.
    pub first_blink: u64,
    /// The entry to read next.
    pub entry: u64,
}

/// A [`Ring`] with its entries as a sequence.
#[verifier::ext_equal]
pub struct RingView {
    pub start: u64,
    pub visited: Seq<u64>,
    pub heads: nat,
    pub previous: Option<u64>,
    pub first_blink: u64,
    pub entry: u64,
}

impl View for Ring {
    type V = RingView;

    open spec fn view(&self) -> RingView {
        RingView {
            start: self.start,
            visited: self.visited@,
            heads: self.heads as nat,
            previous: self.previous,
            first_blink: self.first_blink,
            entry: self.entry,
        }
    }
}

impl RingView {
    /// Whether no entry was read twice, and no more of them are heads than there are.
    pub open spec fn wf(self) -> bool {
        &&& self.visited.no_duplicates()
        &&& self.heads <= self.visited.len()
    }

    /// Nothing read yet.
    pub open spec fn setting_out(start: u64) -> RingView {
        RingView {
            start,
            visited: Seq::empty(),
            heads: 0,
            previous: None,
            first_blink: 0,
            entry: start,
        }
    }
}

/// Where discovery stands.
pub enum RootPhase {
    /// About to begin.
    Opening,
    /// Reading how many heaps the PEB names.
    Count,
    /// Reading where the PEB names them.
    Array { count: u64 },
    /// Reading the names.
    Heaps { count: u64, array: u64 },
    /// About to look for the heap list.
    ListPoll,
    /// Reading what the process heap is.
    ListKind,
    /// Reading where the process heap says its entry is.
    ListEntry { at: u64 },
    /// About to read an entry.
    EntryPoll(Ring),
    /// Reading an entry.
    EntryLinks(Ring),
    /// Reading what the entry's heap is.
    EntryKind { ring: Ring, flink: u64, heap: u64 },
    /// Reading which entry that heap names.
    EntryName { ring: Ring, flink: u64, heap: u64, judged: (HeapKind, Option<String>), at: u64 },
    /// About to classify a heap the PEB names and the list did not hold.
    NamedPoll { next: usize, listed: usize },
    /// Reading what it is.
    NamedKind { next: usize, listed: usize },
    /// Over.
    Done,
    /// Over, without an answer.
    Failed(HeapQueryError),
}

/// A [`RootPhase`] with its texts and entries as sequences.
pub enum PhaseView {
    Opening,
    Count,
    Array { count: u64 },
    Heaps { count: u64, array: u64 },
    ListPoll,
    ListKind,
    ListEntry { at: u64 },
    EntryPoll(RingView),
    EntryLinks(RingView),
    EntryKind { ring: RingView, flink: u64, heap: u64 },
    EntryName {
        ring: RingView,
        flink: u64,
        heap: u64,
        judged: (HeapKind, Option<Seq<char>>),
        at: u64,
    },
    NamedPoll { next: nat, listed: nat },
    NamedKind { next: nat, listed: nat },
    Done,
    Failed(QueryErrorView),
}

impl View for RootPhase {
    type V = PhaseView;

    open spec fn view(&self) -> PhaseView {
        match self {
            RootPhase::Opening => PhaseView::Opening,
            RootPhase::Count => PhaseView::Count,
            RootPhase::Array { count } => PhaseView::Array { count: *count },
            RootPhase::Heaps { count, array } => PhaseView::Heaps { count: *count, array: *array },
            RootPhase::ListPoll => PhaseView::ListPoll,
            RootPhase::ListKind => PhaseView::ListKind,
            RootPhase::ListEntry { at } => PhaseView::ListEntry { at: *at },
            RootPhase::EntryPoll(ring) => PhaseView::EntryPoll(ring@),
            RootPhase::EntryLinks(ring) => PhaseView::EntryLinks(ring@),
            RootPhase::EntryKind { ring, flink, heap } => PhaseView::EntryKind {
                ring: ring@,
                flink: *flink,
                heap: *heap,
            },
            RootPhase::EntryName { ring, flink, heap, judged, at } => PhaseView::EntryName {
                ring: ring@,
                flink: *flink,
                heap: *heap,
                judged: (judged.0, text_of(judged.1)),
                at: *at,
            },
            RootPhase::NamedPoll { next, listed } => PhaseView::NamedPoll {
                next: *next as nat,
                listed: *listed as nat,
            },
            RootPhase::NamedKind { next, listed } => PhaseView::NamedKind {
                next: *next as nat,
                listed: *listed as nat,
            },
            RootPhase::Done => PhaseView::Done,
            RootPhase::Failed(error) => PhaseView::Failed(error@),
        }
    }
}

/// Root discovery under way.
pub struct RootWalk {
    pub layout: RootLayout,
    pub peb: u64,
    /// Where `ntdll` is loaded.
    pub ntdll_start: u64,
    /// One past its last byte.
    pub ntdll_end: u64,
    /// The heaps the PEB names.
    pub named: Vec<u64>,
    pub found: RootEnumeration,
    pub phase: RootPhase,
}

/// A [`RootWalk`] with its parts as sequences.
#[verifier::ext_equal]
pub struct RootWalkView {
    pub layout: RootLayout,
    pub peb: u64,
    pub ntdll_start: u64,
    pub ntdll_end: u64,
    pub named: Seq<u64>,
    pub found: EnumerationView,
    pub phase: PhaseView,
}

impl View for RootWalk {
    type V = RootWalkView;

    open spec fn view(&self) -> RootWalkView {
        RootWalkView {
            layout: self.layout,
            peb: self.peb,
            ntdll_start: self.ntdll_start,
            ntdll_end: self.ntdll_end,
            named: self.named@,
            found: self.found@,
            phase: self.phase@,
        }
    }
}

/// The complaint about a list that cannot be followed past an entry.
pub open spec fn broken_text(entry: u64, why: Seq<char>) -> Seq<char> {
    "ntdll's heap list could not be followed past "@ + hex_text(entry as nat) + ": "@ + why
        + "; heaps after it are unknown, not absent"@
}

/// The complaint about a process heap that does not say where the list is.
pub open spec fn no_list_text(why: Seq<char>) -> Seq<char> {
    "the process heap could not say where ntdll's heap list is ("@ + why
        + "), so heaps the PEB does not name are unknown, not absent"@
}

/// The complaint about a list that comes back to an entry too soon.
pub open spec fn loops_text(start: u64) -> Seq<char> {
    "the list comes back to it without returning to "@ + hex_text(start as nat)
}

/// The complaint about an entry that cannot be read.
pub open spec fn unreadable_text(error: DbgEngError) -> Seq<char> {
    "the entry cannot be read: "@ + error.message()
}

/// The complaint about an entry that does not link back to the one before it.
pub open spec fn blink_text(blink: u64, previous: u64) -> Seq<char> {
    "it links back to "@ + hex_text(blink as nat) + " rather than to "@ + hex_text(previous as nat)
}

/// The complaint about an entry whose heap does not name it.
pub open spec fn stranger_text(heap: u64, why: Seq<char>) -> Seq<char> {
    "it stands for heap "@ + hex_text(heap as nat) + ", which "@ + why
}

/// The complaint about a first entry that does not link back to the last.
pub open spec fn first_blink_text(first_blink: u64, last: u64) -> Seq<char> {
    "the first entry links back to "@ + hex_text(first_blink as nat)
        + " rather than to the last, "@ + hex_text(last as nat)
}

/// The complaint about a ring with no head, or with more than one.
pub open spec fn heads_text(heads: nat) -> Seq<char> {
    "the heap list followed from the process heap has "@ + decimal_text(heads)
        + " entries inside ntdll where a list has exactly one head, so it is not the list this walker knows; heaps it did not reach are unknown, not absent"@
}

/// The heaps named in the bytes of the PEB's array.
pub open spec fn heaps_in(bytes: Seq<u8>) -> Seq<u64> {
    Seq::new((bytes.len() / 8) as nat, |i: int| le64(bytes, 8 * i))
}

/// Whether an address is among the first `listed` roots.
pub open spec fn is_listed(roots: Seq<HeapRootView>, listed: nat, address: u64) -> bool {
    exists|j: int| 0 <= j < listed && j < roots.len() && (#[trigger] roots[j]).address == address
}

/// The first position at or after `from` whose heap the list did not hold.
pub open spec fn next_unlisted(
    named: Seq<u64>,
    roots: Seq<HeapRootView>,
    listed: nat,
    from: nat,
) -> nat
    decreases named.len() - from,
{
    if from >= named.len() {
        named.len()
    } else if is_listed(roots, listed, named[from as int]) {
        next_unlisted(named, roots, listed, from + 1)
    } else {
        from
    }
}

impl RootWalkView {
    /// Whether an address lies inside `ntdll`.
    pub open spec fn in_ntdll(self, address: u64) -> bool {
        self.ntdll_start <= address < self.ntdll_end
    }

    /// The read that covers both signatures of a heap.
    pub open spec fn signature_read(self, heap: u64) -> RootRequest {
        match self.layout.probe_of(heap) {
            ProbeView::Read { address, size } => RootRequest::Read { address, size },
            ProbeView::Known { .. } => RootRequest::Nothing,
        }
    }

    /// What is asked of the engine next.
    pub open spec fn request(self) -> RootRequest {
        match self.phase {
            PhaseView::Opening | PhaseView::ListPoll | PhaseView::EntryPoll(_)
            | PhaseView::NamedPoll { .. } => RootRequest::Poll,
            PhaseView::Count => RootRequest::Read {
                address: (self.peb + self.layout.number_of_heaps) as u64,
                size: 4,
            },
            PhaseView::Array { .. } => RootRequest::Read {
                address: (self.peb + self.layout.process_heaps) as u64,
                size: 8,
            },
            PhaseView::Heaps { count, array } => RootRequest::Read {
                address: array,
                size: (8 * count) as u64,
            },
            PhaseView::ListKind => self.signature_read(self.named[0]),
            PhaseView::ListEntry { at } => RootRequest::Read { address: at, size: 8 },
            PhaseView::EntryLinks(ring) => RootRequest::Read { address: ring.entry, size: 0x18 },
            PhaseView::EntryKind { heap, .. } => self.signature_read(heap),
            PhaseView::EntryName { at, .. } => RootRequest::Read { address: at, size: 8 },
            PhaseView::NamedKind { next, .. } => self.signature_read(self.named[next as int]),
            PhaseView::Done | PhaseView::Failed(_) => RootRequest::Nothing,
        }
    }

    pub open spec fn at(self, phase: PhaseView) -> RootWalkView {
        RootWalkView { phase, ..self }
    }

    pub open spec fn failed(self, error: QueryErrorView) -> RootWalkView {
        self.at(PhaseView::Failed(error))
    }

    pub open spec fn having(self, found: EnumerationView) -> RootWalkView {
        RootWalkView { found, ..self }
    }

    /// What a poll does to a walk that would otherwise go on as `go`.
    pub open spec fn polled(self, poll: PollReply, go: RootWalkView) -> RootWalkView {
        match poll {
            PollReply::Failed(error) => self.failed(QueryErrorView::Engine(error)),
            PollReply::Interrupted => self.failed(QueryErrorView::Interrupted),
            PollReply::Expired => self.having(self.found.expired()).at(PhaseView::Done),
            PollReply::Clear => go,
        }
    }

    /// On to the heaps the PEB names from position `from`, past those on the list.
    pub open spec fn resumed(self, from: nat, listed: nat) -> RootWalkView {
        let next = next_unlisted(self.named, self.found.roots, listed, from);
        if next < self.named.len() {
            self.at(PhaseView::NamedPoll { next, listed })
        } else {
            self.at(PhaseView::Done)
        }
    }

    /// The list is behind: there was one to follow, or the PEB is the whole answer.
    pub open spec fn past_the_list(self, listed: bool) -> RootWalkView {
        let found = if listed {
            self.found
        } else {
            self.found.counted(self.named.len())
        };
        self.having(found).resumed(0, self.found.roots.len())
    }

    /// The list cannot be followed further.
    pub open spec fn unfollowed(self, why: Seq<char>) -> RootWalkView {
        self.having(self.found.missing(why)).past_the_list(true)
    }

    /// The PEB's names are known.
    pub open spec fn with_names(self, named: Seq<u64>) -> RootWalkView {
        let walk = RootWalkView { named, ..self };
        if named.len() == 0 || (self.layout.segment_entry is None && self.layout.nt_entry is None) {
            walk.past_the_list(false)
        } else {
            walk.at(PhaseView::ListPoll)
        }
    }

    /// The PEB's count is known.
    pub open spec fn with_count(self, count: u64) -> RootWalkView {
        if count > MAX_PROCESS_HEAPS {
            self.failed(
                QueryErrorView::InvalidPeb(
                    "NumberOfHeaps is "@ + decimal_text(count as nat) + ", maximum is "@
                        + decimal_text(MAX_PROCESS_HEAPS as nat),
                ),
            )
        } else {
            self.at(PhaseView::Array { count })
        }
    }

    /// Where the PEB names its heaps is known.
    pub open spec fn with_array(self, count: u64, array: u64) -> RootWalkView {
        if count != 0 && array == 0 {
            self.failed(
                QueryErrorView::InvalidPeb(
                    "ProcessHeaps is null while NumberOfHeaps is nonzero"@,
                ),
            )
        } else if count == 0 {
            self.with_names(Seq::empty())
        } else if !in_user_half(array) {
            self.failed(
                QueryErrorView::InvalidPeb(
                    "ProcessHeaps "@ + hex_text(array as nat)
                        + " is outside the user address range"@,
                ),
            )
        } else {
            self.at(PhaseView::Heaps { count, array })
        }
    }

    /// What the process heap is is known.
    pub open spec fn with_process_heap(self, kind: HeapKind) -> RootWalkView {
        match self.layout.naming_of(self.named[0], kind) {
            NamingView::Unknown(why) => self.unfollowed(no_list_text(why)),
            NamingView::Nowhere => self.past_the_list(false),
            NamingView::At(at) => self.at(PhaseView::ListEntry { at }),
        }
    }

    /// Which entry the process heap names is known.
    pub open spec fn with_start(self, named: Result<Option<u64>, Seq<char>>) -> RootWalkView {
        match named {
            Ok(Some(entry)) => self.at(PhaseView::EntryPoll(RingView::setting_out(entry))),
            Ok(None) => self.past_the_list(false),
            Err(why) => self.unfollowed(no_list_text(why)),
        }
    }

    /// An entry is about to be read: one already read means the list loops short.
    pub open spec fn entering(self, ring: RingView) -> RootWalkView {
        if ring.visited.contains(ring.entry) {
            self.unfollowed(broken_text(ring.entry, loops_text(ring.start)))
        } else {
            self.at(
                PhaseView::EntryLinks(
                    RingView { visited: ring.visited.push(ring.entry), ..ring },
                ),
            )
        }
    }

    /// An entry is behind; the walk goes on to the one it links to, or has come round.
    pub open spec fn leaving(self, ring: RingView, flink: u64) -> RootWalkView {
        if flink == ring.start {
            if ring.first_blink != ring.entry {
                self.unfollowed(
                    broken_text(ring.start, first_blink_text(ring.first_blink, ring.entry)),
                )
            } else if ring.heads != 1 {
                self.unfollowed(heads_text(ring.heads))
            } else {
                self.past_the_list(true)
            }
        } else {
            self.at(
                PhaseView::EntryPoll(
                    RingView { previous: Some(ring.entry), entry: flink, ..ring },
                ),
            )
        }
    }

    /// What an entry's heap is is known.
    pub open spec fn with_kind(
        self,
        ring: RingView,
        flink: u64,
        heap: u64,
        judged: (HeapKind, Option<Seq<char>>),
    ) -> RootWalkView {
        match self.layout.naming_of(heap, judged.0) {
            NamingView::Unknown(why) => self.unfollowed(
                broken_text(ring.entry, stranger_text(heap, why)),
            ),
            NamingView::Nowhere => self.unfollowed(
                broken_text(ring.entry, stranger_text(heap, "names no entry"@)),
            ),
            NamingView::At(at) => self.at(PhaseView::EntryName { ring, flink, heap, judged, at }),
        }
    }

    /// Which entry an entry's heap names is known.
    pub open spec fn with_name(
        self,
        ring: RingView,
        flink: u64,
        heap: u64,
        judged: (HeapKind, Option<Seq<char>>),
        named: Result<Option<u64>, Seq<char>>,
    ) -> RootWalkView {
        match named {
            Ok(Some(named)) => if named == ring.entry {
                self.having(self.found.with_root(heap, judged)).leaving(ring, flink)
            } else {
                self.unfollowed(
                    broken_text(
                        ring.entry,
                        stranger_text(heap, "names "@ + hex_text(named as nat) + " instead"@),
                    ),
                )
            },
            Ok(None) => self.unfollowed(
                broken_text(ring.entry, stranger_text(heap, "names no entry"@)),
            ),
            Err(why) => self.unfollowed(broken_text(ring.entry, stranger_text(heap, why))),
        }
    }

    /// What an entry holds is known.
    pub open spec fn with_links(self, ring: RingView, reply: MemoryReplyView) -> RootWalkView {
        match reply {
            MemoryReplyView::Failed(error) => self.unfollowed(
                broken_text(ring.entry, unreadable_text(error)),
            ),
            MemoryReplyView::Bytes(bytes) => {
                let flink = le64(bytes, 0);
                let blink = le64(bytes, 8);
                let heap = le64(bytes, 16);
                if ring.previous is Some && ring.previous->0 != blink {
                    self.unfollowed(broken_text(ring.entry, blink_text(blink, ring.previous->0)))
                } else {
                    let ring = if ring.previous is None {
                        RingView { first_blink: blink, ..ring }
                    } else {
                        ring
                    };
                    if self.in_ntdll(ring.entry) {
                        self.leaving(RingView { heads: ring.heads + 1, ..ring }, flink)
                    } else {
                        match self.layout.probe_of(heap) {
                            ProbeView::Known { kind, reason } => self.with_kind(
                                ring,
                                flink,
                                heap,
                                (kind, reason),
                            ),
                            ProbeView::Read { .. } => self.at(
                                PhaseView::EntryKind { ring, flink, heap },
                            ),
                        }
                    }
                }
            },
        }
    }

    /// A heap the PEB names is about to be classified.
    pub open spec fn naming(self, next: nat, listed: nat) -> RootWalkView {
        match self.layout.probe_of(self.named[next as int]) {
            ProbeView::Known { kind, reason } => self.with_named(next, listed, (kind, reason)),
            ProbeView::Read { .. } => self.at(PhaseView::NamedKind { next, listed }),
        }
    }

    /// What a heap the PEB names is is known.
    pub open spec fn with_named(
        self,
        next: nat,
        listed: nat,
        judged: (HeapKind, Option<Seq<char>>),
    ) -> RootWalkView {
        self.having(self.found.with_root(self.named[next as int], judged)).resumed(next + 1, listed)
    }

    /// Where discovery stands after a reply to its request.
    pub open spec fn after(self, reply: RootReplyView) -> RootWalkView {
        match reply {
            RootReplyView::Poll(poll) => match self.phase {
                PhaseView::Opening => self.polled(poll, self.at(PhaseView::Count)),
                PhaseView::ListPoll => self.polled(
                    poll,
                    match self.layout.probe_of(self.named[0]) {
                        ProbeView::Known { kind, .. } => self.with_process_heap(kind),
                        ProbeView::Read { .. } => self.at(PhaseView::ListKind),
                    },
                ),
                PhaseView::EntryPoll(ring) => self.polled(poll, self.entering(ring)),
                PhaseView::NamedPoll { next, listed } => self.polled(
                    poll,
                    self.naming(next, listed),
                ),
                _ => self,
            },
            RootReplyView::Memory(memory) => match self.phase {
                PhaseView::Count => match memory {
                    MemoryReplyView::Bytes(bytes) => self.with_count(le32(bytes, 0) as u64),
                    MemoryReplyView::Failed(error) => self.failed(QueryErrorView::Engine(error)),
                },
                PhaseView::Array { count } => match memory {
                    MemoryReplyView::Bytes(bytes) => self.with_array(count, le64(bytes, 0)),
                    MemoryReplyView::Failed(error) => self.failed(QueryErrorView::Engine(error)),
                },
                PhaseView::Heaps { .. } => match memory {
                    MemoryReplyView::Bytes(bytes) => self.with_names(heaps_in(bytes)),
                    MemoryReplyView::Failed(error) => self.failed(QueryErrorView::Engine(error)),
                },
                PhaseView::ListKind => self.with_process_heap(self.layout.judged_from(memory).0),
                PhaseView::ListEntry { .. } => self.with_start(
                    entry_named(self.named[0], memory),
                ),
                PhaseView::EntryLinks(ring) => self.with_links(ring, memory),
                PhaseView::EntryKind { ring, flink, heap } => self.with_kind(
                    ring,
                    flink,
                    heap,
                    self.layout.judged_from(memory),
                ),
                PhaseView::EntryName { ring, flink, heap, judged, .. } => self.with_name(
                    ring,
                    flink,
                    heap,
                    judged,
                    entry_named(heap, memory),
                ),
                PhaseView::NamedKind { next, listed } => self.with_named(
                    next,
                    listed,
                    self.layout.judged_from(memory),
                ),
                _ => self,
            },
        }
    }

    /// What holds of every walk under way.
    pub open spec fn wf(self) -> bool {
        &&& self.layout.readable()
        &&& self.peb + self.layout.number_of_heaps <= u64::MAX
        &&& self.peb + self.layout.process_heaps <= u64::MAX
        &&& match self.phase {
            PhaseView::Array { count } => count <= MAX_PROCESS_HEAPS,
            PhaseView::Heaps { count, array } => 0 < count <= MAX_PROCESS_HEAPS,
            PhaseView::ListPoll | PhaseView::ListEntry { .. } => self.named.len() > 0,
            PhaseView::ListKind => self.named.len() > 0 && self.layout.probe_of(
                self.named[0],
            ) is Read,
            PhaseView::EntryPoll(ring) => ring.wf(),
            PhaseView::EntryLinks(ring) => ring.wf() && ring.heads < ring.visited.len(),
            PhaseView::EntryKind { ring, heap, .. } => ring.wf() && self.layout.probe_of(
                heap,
            ) is Read,
            PhaseView::EntryName { ring, .. } => ring.wf(),
            PhaseView::NamedPoll { next, .. } => next < self.named.len(),
            PhaseView::NamedKind { next, .. } => next < self.named.len() && self.layout.probe_of(
                self.named[next as int],
            ) is Read,
            _ => true,
        }
    }
}

fn broken(entry: u64, why: String) -> (text: String)
    ensures
        text@ == broken_text(entry, why@),
{
    let mut text = joined("ntdll's heap list could not be followed past ", hex(entry).as_str());
    text.append(": ");
    text.append(why.as_str());
    text.append("; heaps after it are unknown, not absent");
    text
}

fn no_list(why: String) -> (text: String)
    ensures
        text@ == no_list_text(why@),
{
    let mut text = joined(
        "the process heap could not say where ntdll's heap list is (",
        why.as_str(),
    );
    text.append("), so heaps the PEB does not name are unknown, not absent");
    text
}

fn stranger(heap: u64, why: &str) -> (text: String)
    ensures
        text@ == stranger_text(heap, why@),
{
    let mut text = joined("it stands for heap ", hex(heap).as_str());
    text.append(", which ");
    text.append(why);
    text
}

fn blinks(blink: u64, previous: u64) -> (text: String)
    ensures
        text@ == blink_text(blink, previous),
{
    let mut text = joined("it links back to ", hex(blink).as_str());
    text.append(" rather than to ");
    text.append(hex(previous).as_str());
    text
}

fn first_blinks(first_blink: u64, last: u64) -> (text: String)
    ensures
        text@ == first_blink_text(first_blink, last),
{
    let mut text = joined("the first entry links back to ", hex(first_blink).as_str());
    text.append(" rather than to the last, ");
    text.append(hex(last).as_str());
    text
}

fn heads_found(heads: usize) -> (text: String)
    ensures
        text@ == heads_text(heads as nat),
{
    let mut text = joined(
        "the heap list followed from the process heap has ",
        decimal(heads as u64).as_str(),
    );
    text.append(
        " entries inside ntdll where a list has exactly one head, so it is not the list this walker knows; heaps it did not reach are unknown, not absent",
    );
    text
}

fn read_heaps(bytes: &[u8]) -> (heaps: Vec<u64>)
    ensures
        heaps@ == heaps_in(bytes@),
{
    let mut heaps: Vec<u64> = Vec::new();
    let length: usize = bytes.len();
    let count: usize = length / 8;
    let mut i: usize = 0;
    while i < count
        invariant
            i <= count,
            length == bytes@.len(),
            count == length / 8,
            heaps@ == heaps_in(bytes@).take(i as int),
        decreases count - i,
    {
        heaps.push(read_le64(bytes, 8 * i));
        i = i + 1;
        assert(heaps@ =~= heaps_in(bytes@).take(i as int));
    }
    assert(heaps_in(bytes@).take(count as int) =~= heaps_in(bytes@));
    heaps
}

fn holds(roots: &Vec<HeapRoot>, listed: usize, address: u64) -> (held: bool)
    ensures
        held == is_listed(root_views(roots@), listed as nat, address),
{
    let mut i: usize = 0;
    while i < listed && i < roots.len()
        invariant
            forall|j: int|
                0 <= j < i && j < roots@.len() ==> (#[trigger] roots@[j]).address != address,
        decreases roots.len() - i,
    {
        if roots[i].address == address {
            assert(root_views(roots@)[i as int].address == address);
            return true;
        }
        i = i + 1;
    }
    assert forall|j: int| 0 <= j < listed && j < root_views(roots@).len() implies (
    #[trigger] root_views(roots@)[j]).address != address by {
        assert(roots@[j].address != address);
    }
    false
}

fn visited_before(visited: &Vec<u64>, entry: u64) -> (seen: bool)
    ensures
        seen == visited@.contains(entry),
{
    let mut i: usize = 0;
    while i < visited.len()
        invariant
            i <= visited.len(),
            forall|j: int| 0 <= j < i ==> visited@[j] != entry,
        decreases visited.len() - i,
    {
        if visited[i] == entry {
            return true;
        }
        i = i + 1;
    }
    false
}

impl RootWalk {
    /// Sets out to find every heap of the process whose PEB lies at `peb`.
    pub fn new(layout: RootLayout, peb: u64, ntdll_start: u64, ntdll_end: u64) -> (walk: RootWalk)
        requires
            layout.readable(),
            peb + layout.number_of_heaps <= u64::MAX,
            peb + layout.process_heaps <= u64::MAX,
        ensures
            walk@ == (RootWalkView {
                layout,
                peb,
                ntdll_start,
                ntdll_end,
                named: Seq::empty(),
                found: EnumerationView::nothing(),
                phase: PhaseView::Opening,
            }),
            walk@.wf(),
    {
        RootWalk {
            layout,
            peb,
            ntdll_start,
            ntdll_end,
            named: Vec::new(),
            found: RootEnumeration::nothing(),
            phase: RootPhase::Opening,
        }
    }

    fn signatures(&self, heap: u64) -> (request: RootRequest)
        requires
            self.layout.readable(),
        ensures
            request == self@.signature_read(heap),
    {
        match self.layout.probe(heap) {
            Probe::Read { address, size } => RootRequest::Read { address, size },
            Probe::Known { .. } => RootRequest::Nothing,
        }
    }

    /// What to ask of the engine next.
    pub fn request(&self) -> (request: RootRequest)
        requires
            self@.wf(),
        ensures
            request == self@.request(),
    {
        match &self.phase {
            RootPhase::Opening
            | RootPhase::ListPoll
            | RootPhase::EntryPoll(_)
            | RootPhase::NamedPoll { .. } => RootRequest::Poll,
            RootPhase::Count => RootRequest::Read {
                address: self.peb + self.layout.number_of_heaps,
                size: 4,
            },
            RootPhase::Array { .. } => RootRequest::Read {
                address: self.peb + self.layout.process_heaps,
                size: 8,
            },
            RootPhase::Heaps { count, array } => RootRequest::Read {
                address: *array,
                size: 8 * *count,
            },
            RootPhase::ListKind => self.signatures(self.named[0]),
            RootPhase::ListEntry { at } => RootRequest::Read { address: *at, size: 8 },
            RootPhase::EntryLinks(ring) => RootRequest::Read { address: ring.entry, size: 0x18 },
            RootPhase::EntryKind { heap, .. } => self.signatures(*heap),
            RootPhase::EntryName { at, .. } => RootRequest::Read { address: *at, size: 8 },
            RootPhase::NamedKind { next, .. } => self.signatures(self.named[*next]),
            RootPhase::Done | RootPhase::Failed(_) => RootRequest::Nothing,
        }
    }

    fn at(self, phase: RootPhase) -> (walk: RootWalk)
        ensures
            walk@ == self@.at(phase@),
            walk.found == self.found,
            walk.named == self.named,
    {
        RootWalk { phase, ..self }
    }

    fn failed(self, error: HeapQueryError) -> (walk: RootWalk)
        ensures
            walk@ == self@.failed(error@),
    {
        self.at(RootPhase::Failed(error))
    }

    fn stopped(self, poll: PollReply) -> (walk: RootWalk)
        requires
            poll !is Clear,
        ensures
            walk@ == self@.polled(poll, self@),
    {
        match poll {
            PollReply::Failed(error) => self.failed(HeapQueryError::Engine(error)),
            PollReply::Interrupted => self.failed(HeapQueryError::Interrupted),
            PollReply::Expired | PollReply::Clear => {
                let found = RootEnumeration { budget_expired: true, ..self.found };
                let walk = RootWalk { found, phase: RootPhase::Done, ..self };
                assert(walk@.found =~= self@.found.expired());
                walk
            },
        }
    }

    fn resumed(self, from: usize, listed: usize) -> (walk: RootWalk)
        ensures
            walk@ == self@.resumed(from as nat, listed as nat),
            self@.wf() ==> walk@.wf(),
    {
        let mut next: usize = from;
        while next < self.named.len() && holds(&self.found.roots, listed, self.named[next])
            invariant
                from <= next,
                next_unlisted(self@.named, self@.found.roots, listed as nat, from as nat)
                    == next_unlisted(self@.named, self@.found.roots, listed as nat, next as nat),
            decreases self.named.len() - next,
        {
            next = next + 1;
        }
        if next < self.named.len() {
            self.at(RootPhase::NamedPoll { next, listed })
        } else {
            self.at(RootPhase::Done)
        }
    }

    fn past_the_list(self, listed: bool) -> (walk: RootWalk)
        ensures
            walk@ == self@.past_the_list(listed),
            self@.wf() ==> walk@.wf(),
    {
        let reached: usize = self.found.roots.len();
        let ghost before = self@;
        let total = if listed {
            self.found.total
        } else {
            Some(self.named.len())
        };
        let found = RootEnumeration { total, ..self.found };
        let walk = RootWalk { found, ..self };
        assert(walk@.found =~= if listed {
            before.found
        } else {
            before.found.counted(before.named.len())
        });
        walk.resumed(0, reached)
    }

    fn unfollowed(self, why: String) -> (walk: RootWalk)
        ensures
            walk@ == self@.unfollowed(why@),
            self@.wf() ==> walk@.wf(),
    {
        let ghost before = self@;
        let found = RootEnumeration { unseen: Some(why), ..self.found };
        let walk = RootWalk { found, ..self };
        assert(walk@.found =~= before.found.missing(why@));
        walk.past_the_list(true)
    }
}

impl RootWalk {
    fn with_names(self, named: Vec<u64>) -> (walk: RootWalk)
        requires
            self@.wf(),
        ensures
            walk@ == self@.with_names(named@),
            walk@.wf(),
    {
        let no_list: bool = named.len() == 0 || (self.layout.segment_entry.is_none()
            && self.layout.nt_entry.is_none());
        let walk = RootWalk { named, phase: RootPhase::Done, ..self };
        assert(walk@.past_the_list(false) =~= self@.with_names(named@) || !no_list);
        if no_list {
            walk.past_the_list(false)
        } else {
            walk.at(RootPhase::ListPoll)
        }
    }

    fn with_count(self, count: u64) -> (walk: RootWalk)
        requires
            self@.wf(),
        ensures
            walk@ == self@.with_count(count),
            walk@.wf(),
    {
        if count > MAX_PROCESS_HEAPS {
            let mut why = joined("NumberOfHeaps is ", decimal(count).as_str());
            why.append(", maximum is ");
            why.append(decimal(MAX_PROCESS_HEAPS).as_str());
            self.failed(HeapQueryError::InvalidPeb(why))
        } else {
            self.at(RootPhase::Array { count })
        }
    }

    fn with_array(self, count: u64, array: u64) -> (walk: RootWalk)
        requires
            self@.wf(),
            count <= MAX_PROCESS_HEAPS,
        ensures
            walk@ == self@.with_array(count, array),
            walk@.wf(),
    {
        if count != 0 && array == 0 {
            return self.failed(
                HeapQueryError::InvalidPeb(
                    String::from_str("ProcessHeaps is null while NumberOfHeaps is nonzero"),
                ),
            );
        }
        if count == 0 {
            return self.with_names(Vec::new());
        }
        if !user_pointer(array) {
            let mut why = joined("ProcessHeaps ", hex(array).as_str());
            why.append(" is outside the user address range");
            return self.failed(HeapQueryError::InvalidPeb(why));
        }
        self.at(RootPhase::Heaps { count, array })
    }

    fn with_process_heap(self, kind: HeapKind) -> (walk: RootWalk)
        requires
            self@.wf(),
            self@.named.len() > 0,
        ensures
            walk@ == self@.with_process_heap(kind),
            walk@.wf(),
    {
        match self.layout.naming(self.named[0], kind) {
            Naming::Unknown(why) => self.unfollowed(no_list(why)),
            Naming::Nowhere => self.past_the_list(false),
            Naming::At(at) => self.at(RootPhase::ListEntry { at }),
        }
    }

    fn with_start(self, named: Result<Option<u64>, String>) -> (walk: RootWalk)
        requires
            self@.wf(),
        ensures
            walk@ == self@.with_start(named_view(named)),
            walk@.wf(),
    {
        match named {
            Ok(Some(entry)) => {
                let ring = Ring {
                    start: entry,
                    visited: Vec::new(),
                    heads: 0,
                    previous: None,
                    first_blink: 0,
                    entry,
                };
                assert(ring@ =~= RingView::setting_out(entry));
                self.at(RootPhase::EntryPoll(ring))
            },
            Ok(None) => self.past_the_list(false),
            Err(why) => self.unfollowed(no_list(why)),
        }
    }

    fn entering(self, ring: Ring) -> (walk: RootWalk)
        requires
            self@.wf(),
            ring@.wf(),
        ensures
            walk@ == self@.entering(ring@),
            walk@.wf(),
    {
        if visited_before(&ring.visited, ring.entry) {
            let why = joined(
                "the list comes back to it without returning to ",
                hex(ring.start).as_str(),
            );
            return self.unfollowed(broken(ring.entry, why));
        }
        let ghost before = ring@;
        let mut ring = ring;
        let entry: u64 = ring.entry;
        ring.visited.push(entry);
        assert(ring@ =~= (RingView { visited: before.visited.push(before.entry), ..before }));
        self.at(RootPhase::EntryLinks(ring))
    }

    fn leaving(self, ring: Ring, flink: u64) -> (walk: RootWalk)
        requires
            self@.wf(),
            ring@.wf(),
        ensures
            walk@ == self@.leaving(ring@, flink),
            walk@.wf(),
    {
        if flink == ring.start {
            if ring.first_blink != ring.entry {
                return self.unfollowed(
                    broken(ring.start, first_blinks(ring.first_blink, ring.entry)),
                );
            }
            if ring.heads != 1 {
                return self.unfollowed(heads_found(ring.heads));
            }
            return self.past_the_list(true);
        }
        let ghost before = ring@;
        let mut ring = ring;
        ring.previous = Some(ring.entry);
        ring.entry = flink;
        assert(ring@ =~= (RingView { previous: Some(before.entry), entry: flink, ..before }));
        self.at(RootPhase::EntryPoll(ring))
    }

    fn with_kind(
        self,
        ring: Ring,
        flink: u64,
        heap: u64,
        judged: (HeapKind, Option<String>),
    ) -> (walk: RootWalk)
        requires
            self@.wf(),
            ring@.wf(),
        ensures
            walk@ == self@.with_kind(ring@, flink, heap, (judged.0, text_of(judged.1))),
            walk@.wf(),
    {
        match self.layout.naming(heap, judged.0) {
            Naming::Unknown(why) => self.unfollowed(
                broken(ring.entry, stranger(heap, why.as_str())),
            ),
            Naming::Nowhere => self.unfollowed(
                broken(ring.entry, stranger(heap, "names no entry")),
            ),
            Naming::At(at) => self.at(RootPhase::EntryName { ring, flink, heap, judged, at }),
        }
    }

    fn with_name(
        self,
        ring: Ring,
        flink: u64,
        heap: u64,
        judged: (HeapKind, Option<String>),
        named: Result<Option<u64>, String>,
    ) -> (walk: RootWalk)
        requires
            self@.wf(),
            ring@.wf(),
        ensures
            walk@ == self@.with_name(
                ring@,
                flink,
                heap,
                (judged.0, text_of(judged.1)),
                named_view(named),
            ),
            walk@.wf(),
    {
        match named {
            Ok(Some(named)) => {
                if named == ring.entry {
                    let found = self.found.with_root(heap, judged);
                    let walk = RootWalk { found, phase: RootPhase::Done, ..self };
                    walk.leaving(ring, flink)
                } else {
                    let mut why = joined("names ", hex(named).as_str());
                    why.append(" instead");
                    self.unfollowed(broken(ring.entry, stranger(heap, why.as_str())))
                }
            },
            Ok(None) => self.unfollowed(broken(ring.entry, stranger(heap, "names no entry"))),
            Err(why) => self.unfollowed(broken(ring.entry, stranger(heap, why.as_str()))),
        }
    }

    fn with_links(self, ring: Ring, reply: MemoryReply) -> (walk: RootWalk)
        requires
            self@.wf(),
            ring@.wf(),
            ring@.heads < ring@.visited.len(),
            reply@.whole(0x18),
        ensures
            walk@ == self@.with_links(ring@, reply@),
            walk@.wf(),
    {
        let bytes = match reply {
            MemoryReply::Bytes(bytes) => bytes,
            MemoryReply::Failed(error) => {
                let why = joined("the entry cannot be read: ", error.to_text().as_str());
                return self.unfollowed(broken(ring.entry, why));
            },
        };
        let flink: u64 = read_le64(bytes.as_slice(), 0);
        let blink: u64 = read_le64(bytes.as_slice(), 8);
        let heap: u64 = read_le64(bytes.as_slice(), 16);
        let ghost before = ring@;
        let mut ring = ring;
        match ring.previous {
            None => {
                ring.first_blink = blink;
            },
            Some(previous) => {
                if previous != blink {
                    return self.unfollowed(broken(ring.entry, blinks(blink, previous)));
                }
            },
        }
        assert(ring@ =~= if before.previous is None {
            RingView { first_blink: blink, ..before }
        } else {
            before
        });
        if self.ntdll_start <= ring.entry && ring.entry < self.ntdll_end {
            let ghost counted = ring@;
            let read: usize = ring.visited.len();
            assert(ring.heads < read);
            ring.heads = ring.heads + 1;
            assert(ring@ =~= (RingView { heads: counted.heads + 1, ..counted }));
            return self.leaving(ring, flink);
        }
        match self.layout.probe(heap) {
            Probe::Known { kind, reason } => self.with_kind(ring, flink, heap, (kind, reason)),
            Probe::Read { .. } => self.at(RootPhase::EntryKind { ring, flink, heap }),
        }
    }

    fn with_named(self, next: usize, listed: usize, judged: (HeapKind, Option<String>)) -> (walk:
        RootWalk)
        requires
            self@.wf(),
            next < self@.named.len(),
        ensures
            walk@ == self@.with_named(next as nat, listed as nat, (judged.0, text_of(judged.1))),
            walk@.wf(),
    {
        let count: usize = self.named.len();
        let address: u64 = self.named[next];
        assert(next < count);
        let found = self.found.with_root(address, judged);
        let walk = RootWalk { found, phase: RootPhase::Done, ..self };
        walk.resumed(next + 1, listed)
    }

    /// Where discovery stands after a poll.
    fn after_poll(self, poll: PollReply) -> (walk: RootWalk)
        requires
            self@.wf(),
            self@.request() is Poll,
        ensures
            walk@ == self@.after(RootReplyView::Poll(poll)),
            walk@.wf(),
    {
        match poll {
            PollReply::Clear => {},
            poll => return self.stopped(poll),
        }
        let ghost before = self@;
        let RootWalk { layout, peb, ntdll_start, ntdll_end, named, found, phase } = self;
        let walk = RootWalk {
            layout,
            peb,
            ntdll_start,
            ntdll_end,
            named,
            found,
            phase: RootPhase::Done,
        };
        assert(walk@ =~= before.at(PhaseView::Done));
        match phase {
            RootPhase::Opening => walk.at(RootPhase::Count),
            RootPhase::ListPoll => match walk.layout.probe(walk.named[0]) {
                Probe::Known { kind, .. } => walk.with_process_heap(kind),
                Probe::Read { .. } => walk.at(RootPhase::ListKind),
            },
            RootPhase::EntryPoll(ring) => walk.entering(ring),
            RootPhase::NamedPoll { next, listed } => match walk.layout.probe(walk.named[next]) {
                Probe::Known { kind, reason } => walk.with_named(next, listed, (kind, reason)),
                Probe::Read { .. } => walk.at(RootPhase::NamedKind { next, listed }),
            },
            phase => walk.at(phase),
        }
    }

    /// Where discovery stands after a read.
    fn after_read(self, reply: MemoryReply) -> (walk: RootWalk)
        requires
            self@.wf(),
            self@.request().answered_by(RootReplyView::Memory(reply@)),
        ensures
            walk@ == self@.after(RootReplyView::Memory(reply@)),
            walk@.wf(),
    {
        let ghost before = self@;
        let RootWalk { layout, peb, ntdll_start, ntdll_end, named, found, phase } = self;
        let walk = RootWalk {
            layout,
            peb,
            ntdll_start,
            ntdll_end,
            named,
            found,
            phase: RootPhase::Done,
        };
        assert(walk@ =~= before.at(PhaseView::Done));
        match phase {
            RootPhase::Count => match reply {
                MemoryReply::Bytes(bytes) => walk.with_count(
                    read_le32(bytes.as_slice(), 0) as u64,
                ),
                MemoryReply::Failed(error) => walk.failed(HeapQueryError::Engine(error)),
            },
            RootPhase::Array { count } => match reply {
                MemoryReply::Bytes(bytes) => walk.with_array(
                    count,
                    read_le64(bytes.as_slice(), 0),
                ),
                MemoryReply::Failed(error) => walk.failed(HeapQueryError::Engine(error)),
            },
            RootPhase::Heaps { .. } => match reply {
                MemoryReply::Bytes(bytes) => walk.with_names(read_heaps(bytes.as_slice())),
                MemoryReply::Failed(error) => walk.failed(HeapQueryError::Engine(error)),
            },
            RootPhase::ListKind => {
                let (kind, _) = walk.layout.judge(&reply);
                walk.with_process_heap(kind)
            },
            RootPhase::ListEntry { .. } => {
                let named = list_entry_of(walk.named[0], &reply);
                walk.with_start(named)
            },
            RootPhase::EntryLinks(ring) => walk.with_links(ring, reply),
            RootPhase::EntryKind { ring, flink, heap } => {
                let judged = walk.layout.judge(&reply);
                walk.with_kind(ring, flink, heap, judged)
            },
            RootPhase::EntryName { ring, flink, heap, judged, .. } => {
                let named = list_entry_of(heap, &reply);
                walk.with_name(ring, flink, heap, judged, named)
            },
            RootPhase::NamedKind { next, listed } => {
                let judged = walk.layout.judge(&reply);
                walk.with_named(next, listed, judged)
            },
            phase => walk.at(phase),
        }
    }

    /// Takes the reply to [`Self::request`] and goes on.
    pub fn step(self, reply: RootReply) -> (walk: RootWalk)
        requires
            self@.wf(),
            self@.request().answered_by(reply@),
        ensures
            walk@ == self@.after(reply@),
            walk@.wf(),
    {
        match reply {
            RootReply::Poll(poll) => self.after_poll(poll),
            RootReply::Memory(memory) => self.after_read(memory),
        }
    }

    /// The answer, once there is nothing left to ask.
    pub fn finish(self) -> (found: Result<RootEnumeration, HeapQueryError>)
        requires
            self@.wf(),
            self@.phase is Done || self@.phase is Failed,
        ensures
            self@.phase is Done ==> found is Ok && found->Ok_0@ == self@.found,
            self@.phase matches PhaseView::Failed(error) ==> found is Err && found->Err_0@ == error,
    {
        match self.phase {
            RootPhase::Failed(error) => Err(error),
            _ => Ok(self.found),
        }
    }
}

/// A discovery is told as it is, its roots in the order they were found in.
pub proof fn a_discovery_is_told_as_it_is(found: RootEnumeration, i: int)
    ensures
        found@.roots.len() == found.roots@.len(),
        0 <= i < found.roots@.len() ==> found@.roots[i] == found.roots@[i]@,
        found@.budget_expired == found.budget_expired,
        found@.total is None <==> found.total is None,
        found.total matches Some(total) ==> found@.total == Some(total as nat),
        found@.unseen is None <==> found.unseen is None,
        found.unseen matches Some(why) ==> found@.unseen == Some(why@),
        found@.saw_every_root() <==> !found.budget_expired && found.unseen is None,
{
}

/// A root is added behind the others, at its own index, and a discovery that runs out of time,
/// misses something or counts the roots says that alone.
pub proof fn a_finding_changes_only_its_own(
    found: EnumerationView,
    address: u64,
    judged: (HeapKind, Option<Seq<char>>),
    why: Seq<char>,
    total: nat,
)
    ensures
        ({
            let more = found.with_root(address, judged);
            let last = more.roots[found.roots.len() as int];
            &&& more.roots.drop_last() == found.roots
            &&& more.roots.len() == found.roots.len() + 1
            &&& last.index == found.roots.len()
            &&& last.address == address
            &&& last.kind == judged.0
            &&& last.reason == judged.1
            &&& last.supported <==> judged.0 is Segment
            &&& more.total == found.total
            &&& more.budget_expired == found.budget_expired
            &&& more.unseen == found.unseen
        }),
        found.expired().budget_expired,
        found.expired().roots == found.roots,
        found.expired().total == found.total,
        found.expired().unseen == found.unseen,
        found.missing(why).unseen == Some(why),
        found.missing(why).roots == found.roots,
        found.missing(why).total == found.total,
        found.missing(why).budget_expired == found.budget_expired,
        found.counted(total).total == Some(total),
        found.counted(total).roots == found.roots,
        found.counted(total).unseen == found.unseen,
        found.counted(total).budget_expired == found.budget_expired,
        EnumerationView::nothing().roots.len() == 0,
        EnumerationView::nothing().saw_every_root(),
        EnumerationView::nothing().total is None,
{
    assert(found.with_root(address, judged).roots.drop_last() =~= found.roots);
}

/// The names are the words of what was read, eight bytes each.
pub proof fn the_names_are_the_words_read(bytes: Seq<u8>, i: int)
    requires
        0 <= i < bytes.len() / 8,
    ensures
        heaps_in(bytes).len() == bytes.len() / 8,
        heaps_in(bytes)[i] as int % 0x1_0000_0000 == le32(bytes, 8 * i),
        heaps_in(bytes)[i] as int / 0x1_0000_0000 == le32(bytes, 8 * i + 4),
{
    crate::bytes::the_lowest_byte_comes_first(bytes, 8 * i);
}

/// The next name to classify is the first one the list did not hold.
pub proof fn listed_names_are_passed_over(
    named: Seq<u64>,
    roots: Seq<HeapRootView>,
    listed: nat,
    from: nat,
)
    requires
        from <= named.len(),
    ensures
        ({
            let next = next_unlisted(named, roots, listed, from);
            &&& from <= next <= named.len()
            &&& forall|i: int|
                from <= i < next ==> exists|j: int|
                    0 <= j < listed && j < roots.len() && (#[trigger] roots[j]).address
                        == #[trigger] named[i]
            &&& next < named.len() ==> forall|j: int|
                0 <= j < listed && j < roots.len() ==> (#[trigger] roots[j]).address
                    != named[next as int]
        }),
    decreases named.len() - from,
{
    if from < named.len() && is_listed(roots, listed, named[from as int]) {
        listed_names_are_passed_over(named, roots, listed, from + 1);
        let next = next_unlisted(named, roots, listed, from);
        assert forall|i: int| from <= i < next implies exists|j: int|
            0 <= j < listed && j < roots.len() && (#[trigger] roots[j]).address
                == #[trigger] named[i] by {
            if i == from {
                let j = choose|j: int|
                    0 <= j < listed && j < roots.len() && (#[trigger] roots[j]).address
                        == named[from as int];
                assert(roots[j].address == named[i]);
            }
        }
    }
}

/// What is read is what the discovery is at: the count and the place of the names in the PEB, the
/// names, and of every entry its links; a read is never of nothing, and each poll is one.
pub proof fn a_discovery_reads_what_it_is_at(walk: RootWalkView, address: u64, size: u64)
    requires
        walk.wf(),
    ensures
        walk.phase is Count ==> walk.request() == (RootRequest::Read {
            address: (walk.peb + walk.layout.number_of_heaps) as u64,
            size: 4,
        }),
        walk.phase is Array ==> walk.request() == (RootRequest::Read {
            address: (walk.peb + walk.layout.process_heaps) as u64,
            size: 8,
        }),
        walk.phase matches PhaseView::Heaps { count, array } ==> {
            &&& walk.request() matches RootRequest::Read { address, size }
            &&& address == array
            &&& size == 8 * count
        },
        walk.phase matches PhaseView::ListEntry { at } ==> walk.request() == (RootRequest::Read {
            address: at,
            size: 8,
        }),
        walk.phase matches PhaseView::EntryName { at, .. } ==> walk.request()
            == (RootRequest::Read { address: at, size: 8 }),
        walk.phase matches PhaseView::EntryLinks(ring) ==> walk.request() == (RootRequest::Read {
            address: ring.entry,
            size: 24,
        }),
        walk.phase is ListKind ==> {
            &&& walk.request() is Read
            &&& walk.layout.probe_of(walk.named[0]) == (ProbeView::Read {
                address: walk.request()->address,
                size: walk.request()->size,
            })
        },
        walk.phase matches PhaseView::EntryKind { heap, .. } ==> {
            &&& walk.request() is Read
            &&& walk.layout.probe_of(heap) == (ProbeView::Read {
                address: walk.request()->address,
                size: walk.request()->size,
            })
        },
        walk.phase matches PhaseView::NamedKind { next, .. } ==> {
            &&& walk.request() is Read
            &&& walk.layout.probe_of(walk.named[next as int]) == (ProbeView::Read {
                address: walk.request()->address,
                size: walk.request()->size,
            })
        },
        walk.request() is Poll <==> walk.phase is Opening || walk.phase is ListPoll || walk.phase
            is EntryPoll || walk.phase is NamedPoll,
        walk.request() is Nothing <==> walk.phase is Done || walk.phase is Failed,
{
}

/// A discovery goes on exactly where nothing stands against it: a request to stop and an engine
/// that cannot be asked end it without an answer, and a budget that has run out ends it with what
/// was found.
pub proof fn a_discovery_stops_when_it_is_told(walk: RootWalkView, poll: PollReply, go: RootWalkView)
    ensures
        poll is Clear ==> walk.polled(poll, go) == go,
        poll is Interrupted ==> walk.polled(poll, go).phase == PhaseView::Failed(
            QueryErrorView::Interrupted,
        ),
        poll matches PollReply::Failed(error) ==> walk.polled(poll, go).phase == PhaseView::Failed(
            QueryErrorView::Engine(error),
        ),
        poll is Expired ==> {
            &&& walk.polled(poll, go).phase is Done
            &&& walk.polled(poll, go).found.budget_expired
            &&& walk.polled(poll, go).found.roots == walk.found.roots
            &&& walk.polled(poll, go).found.unseen == walk.found.unseen
        },
{
}

/// The PEB is believed as far as it makes sense: no more heaps than a process can have, an array
/// of them where there is any, and one in the user half of memory; then all of its names are
/// taken.
pub proof fn a_peb_is_believed_as_far_as_it_makes_sense(
    walk: RootWalkView,
    bytes: Seq<u8>,
    count: u64,
    array: u64,
)
    ensures
        walk.phase is Count ==> {
            let after = walk.after(RootReplyView::Memory(MemoryReplyView::Bytes(bytes)));
            &&& le32(bytes, 0) > 4096 ==> after.phase is Failed && after.phase->Failed_0
                is InvalidPeb
            &&& le32(bytes, 0) <= 4096 ==> after.phase == (PhaseView::Array {
                count: le32(bytes, 0) as u64,
            })
        },
        walk.phase == (PhaseView::Array { count }) ==> {
            let after = walk.after(RootReplyView::Memory(MemoryReplyView::Bytes(bytes)));
            let at = le64(bytes, 0);
            &&& count > 0 && !in_user_half(at) ==> after.phase is Failed && after.phase->Failed_0
                is InvalidPeb
            &&& count > 0 && in_user_half(at) ==> after.phase == (PhaseView::Heaps {
                count,
                array: at,
            })
            &&& count == 0 ==> after.phase is Done && after.named.len() == 0
                && after.found.total == Some(0nat) && after.found.roots == walk.found.roots
        },
        walk.phase == (PhaseView::Heaps { count, array }) ==> {
            let after = walk.after(RootReplyView::Memory(MemoryReplyView::Bytes(bytes)));
            &&& after.named == heaps_in(bytes)
            &&& !(after.phase is Failed)
            &&& after.phase is ListPoll <==> heaps_in(bytes).len() > 0 && (
            walk.layout.segment_entry is Some || walk.layout.nt_entry is Some)
        },
{
    assert(Seq::<u64>::empty().len() == 0);
}

/// A read that fails before the names are known ends the discovery with the engine's own error.
pub proof fn a_peb_that_cannot_be_read_is_an_error(walk: RootWalkView, error: DbgEngError)
    requires
        walk.phase is Count || walk.phase is Array || walk.phase is Heaps,
    ensures
        walk.after(RootReplyView::Memory(MemoryReplyView::Failed(error))).phase
            == PhaseView::Failed(QueryErrorView::Engine(error)),
{
}

/// A walk that cannot follow the list any further says so and goes on with the names, without
/// taking their number for that of the roots; one for which there is no list takes it.
pub proof fn an_unfollowed_list_is_told(walk: RootWalkView, why: Seq<char>)
    ensures
        walk.unfollowed(why).found.unseen == Some(why),
        walk.unfollowed(why).found.roots == walk.found.roots,
        walk.unfollowed(why).found.total == walk.found.total,
        !walk.unfollowed(why).found.saw_every_root(),
        walk.past_the_list(false).found.total == Some(walk.named.len()),
        walk.past_the_list(false).found.unseen == walk.found.unseen,
        walk.past_the_list(true).found == walk.found,
{
}

/// A broken list is told with the entry it is broken at and with why, each number as it was read.
pub proof fn a_broken_list_is_told_where(
    entry: u64,
    why: Seq<char>,
    blink: u64,
    previous: u64,
    heads: nat,
    error: DbgEngError,
)
    ensures
        ("ntdll's heap list could not be followed past "@ + hex_text(entry as nat) + ": "@
            + why).is_prefix_of(broken_text(entry, why)),
        ("the process heap could not say where ntdll's heap list is ("@ + why).is_prefix_of(
            no_list_text(why),
        ),
        hex_text(entry as nat).is_suffix_of(loops_text(entry)),
        error.message().is_suffix_of(unreadable_text(error)),
        ("it links back to "@ + hex_text(blink as nat)).is_prefix_of(blink_text(blink, previous)),
        hex_text(previous as nat).is_suffix_of(blink_text(blink, previous)),
        ("it stands for heap "@ + hex_text(entry as nat)).is_prefix_of(stranger_text(entry, why)),
        why.is_suffix_of(stranger_text(entry, why)),
        ("the first entry links back to "@ + hex_text(blink as nat)).is_prefix_of(
            first_blink_text(blink, previous),
        ),
        hex_text(previous as nat).is_suffix_of(first_blink_text(blink, previous)),
        ("the heap list followed from the process heap has "@ + decimal_text(heads)).is_prefix_of(
            heads_text(heads),
        ),
{
    let head = "ntdll's heap list could not be followed past "@ + hex_text(entry as nat) + ": "@
        + why;
    assert(broken_text(entry, why).take(head.len() as int) =~= head);
    let head = "the process heap could not say where ntdll's heap list is ("@ + why;
    assert(no_list_text(why).take(head.len() as int) =~= head);
    let tail = hex_text(entry as nat);
    assert(loops_text(entry).skip(loops_text(entry).len() - tail.len()) =~= tail);
    let tail = error.message();
    assert(unreadable_text(error).skip(unreadable_text(error).len() - tail.len()) =~= tail);
    let head = "it links back to "@ + hex_text(blink as nat);
    assert(blink_text(blink, previous).take(head.len() as int) =~= head);
    let tail = hex_text(previous as nat);
    assert(blink_text(blink, previous).skip(blink_text(blink, previous).len() - tail.len())
        =~= tail);
    let head = "it stands for heap "@ + hex_text(entry as nat);
    assert(stranger_text(entry, why).take(head.len() as int) =~= head);
    assert(stranger_text(entry, why).skip(stranger_text(entry, why).len() - why.len()) =~= why);
    let head = "the first entry links back to "@ + hex_text(blink as nat);
    assert(first_blink_text(blink, previous).take(head.len() as int) =~= head);
    let said = first_blink_text(blink, previous);
    assert(said.skip(said.len() - tail.len()) =~= tail);
    let head = "the heap list followed from the process heap has "@ + decimal_text(heads);
    assert(heads_text(heads).take(head.len() as int) =~= head);
}

/// An address lies in `ntdll` from its start on and before its end, and what a discovery is at is
/// told as it is.
pub proof fn ntdll_has_its_bounds(walk: RootWalk, ring: Ring, address: u64)
    ensures
        walk@.in_ntdll(address) <==> walk.ntdll_start <= address && address < walk.ntdll_end,
        walk@.layout == walk.layout,
        walk@.peb == walk.peb,
        walk@.named == walk.named@,
        walk@.found == walk.found@,
        ring@.start == ring.start,
        ring@.visited == ring.visited@,
        ring@.heads == ring.heads,
        ring@.previous == ring.previous,
        ring@.first_blink == ring.first_blink,
        ring@.entry == ring.entry,
        walk.phase is Done <==> walk@.phase is Done,
        walk.phase matches RootPhase::Failed(error) ==> walk@.phase == PhaseView::Failed(error@),
        walk.phase is Failed <==> walk@.phase is Failed,
{
}

/// The list is set out on from the entry the process heap names, with nothing read; a process heap
/// that names none has no list, and one that cannot say leaves it unseen.
pub proof fn the_list_is_found_from_the_process_heap(
    walk: RootWalkView,
    kind: HeapKind,
    entry: u64,
    why: Seq<char>,
)
    ensures
        walk.with_start(Ok(Some(entry))).phase matches PhaseView::EntryPoll(ring) && ring.start
            == entry && ring.entry == entry && ring.visited.len() == 0 && ring.heads == 0
            && ring.previous is None,
        walk.with_start(Ok(Some(entry))).found == walk.found,
        walk.with_start(Ok(None)).found.total == Some(walk.named.len()),
        walk.with_start(Ok(None)).found.unseen == walk.found.unseen,
        walk.with_start(Err(why)).found.unseen is Some,
        walk.layout.naming_of(walk.named[0], kind) matches NamingView::At(at)
            ==> walk.with_process_heap(kind).phase == (PhaseView::ListEntry { at })
            && walk.with_process_heap(kind).found == walk.found,
        walk.layout.naming_of(walk.named[0], kind) is Nowhere ==> walk.with_process_heap(
            kind,
        ).found.total == Some(walk.named.len()),
        walk.layout.naming_of(walk.named[0], kind) is Unknown ==> walk.with_process_heap(
            kind,
        ).found.unseen is Some,
{
}

/// An entry that was read before ends the list unseen; any other is read next, and remembered.
pub proof fn no_entry_is_read_twice(walk: RootWalkView, ring: RingView)
    ensures
        ring.visited.contains(ring.entry) ==> walk.entering(ring).found.unseen is Some,
        !ring.visited.contains(ring.entry) ==> {
            &&& walk.entering(ring).found == walk.found
            &&& walk.entering(ring).phase matches PhaseView::EntryLinks(next)
            &&& next.visited == ring.visited.push(ring.entry)
            &&& next.entry == ring.entry
            &&& next.start == ring.start
            &&& next.heads == ring.heads
            &&& next.previous == ring.previous
            &&& next.first_blink == ring.first_blink
        },
{
}

/// An entry is left for the one it links to; and where that is where the list was set out on, the
/// list is whole exactly where its first entry links back to this one and one of its entries lay
/// inside `ntdll`.
pub proof fn a_list_is_followed_until_it_closes(walk: RootWalkView, ring: RingView, flink: u64)
    ensures
        flink != ring.start ==> {
            &&& walk.leaving(ring, flink).found == walk.found
            &&& walk.leaving(ring, flink).phase matches PhaseView::EntryPoll(next)
            &&& next.entry == flink
            &&& next.previous == Some(ring.entry)
            &&& next.start == ring.start
            &&& next.visited == ring.visited
            &&& next.heads == ring.heads
            &&& next.first_blink == ring.first_blink
        },
        flink == ring.start && ring.first_blink == ring.entry && ring.heads == 1 ==> walk.leaving(
            ring,
            flink,
        ).found == walk.found,
        flink == ring.start && !(ring.first_blink == ring.entry && ring.heads == 1)
            ==> walk.leaving(ring, flink).found.unseen is Some,
{
}

/// An entry holds where it links back to the one before it. One inside `ntdll` is a head and no
/// heap's; any other is followed where its heap names it, and is then that heap's root.
pub proof fn an_entry_holds_where_it_is_linked_and_named(
    walk: RootWalkView,
    ring: RingView,
    bytes: Seq<u8>,
    flink: u64,
    heap: u64,
    judged: (HeapKind, Option<Seq<char>>),
    named: u64,
    error: DbgEngError,
)
    requires
        walk.found.unseen is None,
    ensures
        walk.with_links(ring, MemoryReplyView::Failed(error)).found.unseen is Some,
        ({
            let after = walk.with_links(ring, MemoryReplyView::Bytes(bytes));
            let linked = ring.previous is None || ring.previous == Some(le64(bytes, 8));
            &&& !linked ==> after.found.unseen is Some
            &&& linked && !walk.in_ntdll(ring.entry) && walk.layout.probe_of(le64(bytes, 16))
                is Read ==> {
                &&& after.found == walk.found
                &&& after.phase is EntryKind
                &&& after.phase->EntryKind_flink == le64(bytes, 0)
                &&& after.phase->EntryKind_heap == le64(bytes, 16)
                &&& after.phase->EntryKind_ring.entry == ring.entry
                &&& after.phase->EntryKind_ring.visited == ring.visited
                &&& after.phase->EntryKind_ring.heads == ring.heads
                &&& ring.previous is None ==> after.phase->EntryKind_ring.first_blink == le64(
                    bytes,
                    8,
                )
            }
            &&& linked && walk.in_ntdll(ring.entry) && le64(bytes, 0) != ring.start ==> {
                &&& after.found == walk.found
                &&& after.phase matches PhaseView::EntryPoll(next)
                &&& next.heads == ring.heads + 1
                &&& next.entry == le64(bytes, 0)
            }
        }),
        walk.layout.naming_of(heap, judged.0) matches NamingView::At(at) ==> walk.with_kind(
            ring,
            flink,
            heap,
            judged,
        ).phase == (PhaseView::EntryName { ring, flink, heap, judged, at }) && walk.with_kind(
            ring,
            flink,
            heap,
            judged,
        ).found == walk.found,
        !(walk.layout.naming_of(heap, judged.0) is At) ==> walk.with_kind(
            ring,
            flink,
            heap,
            judged,
        ).found.unseen is Some,
        named != ring.entry ==> walk.with_name(
            ring,
            flink,
            heap,
            judged,
            Ok(Some(named)),
        ).found.unseen is Some,
        walk.with_name(ring, flink, heap, judged, Ok(None)).found.unseen is Some,
        flink != ring.start ==> walk.with_name(
            ring,
            flink,
            heap,
            judged,
            Ok(Some(ring.entry)),
        ).found == walk.found.with_root(heap, judged),
{
}

/// A heap the PEB names and the list did not hold is classified like any other, and is then a root
/// behind the others.
pub proof fn a_named_heap_is_a_root(
    walk: RootWalkView,
    next: nat,
    listed: nat,
    judged: (HeapKind, Option<Seq<char>>),
)
    requires
        next < walk.named.len(),
    ensures
        walk.with_named(next, listed, judged).found == walk.found.with_root(
            walk.named[next as int],
            judged,
        ),
        walk.layout.probe_of(walk.named[next as int]) is Read ==> walk.naming(next, listed).phase
            == (PhaseView::NamedKind { next, listed }) && walk.naming(next, listed).found
            == walk.found,
        walk.layout.probe_of(walk.named[next as int]) matches ProbeView::Known { kind, reason }
            ==> walk.naming(next, listed).found == walk.found.with_root(
            walk.named[next as int],
            (kind, reason),
        ),
{
}

/// A poll is answered by a poll, and a read by all of its bytes or by none.
pub proof fn a_request_is_answered_in_kind(
    request: RootRequest,
    poll: PollReply,
    bytes: Seq<u8>,
    error: DbgEngError,
)
    ensures
        request is Poll ==> request.answered_by(RootReplyView::Poll(poll)),
        request is Read ==> request.answered_by(
            RootReplyView::Memory(MemoryReplyView::Failed(error)),
        ),
        request is Read ==> (request.answered_by(
            RootReplyView::Memory(MemoryReplyView::Bytes(bytes)),
        ) <==> bytes.len() == request->size),
        !(request is Poll) ==> !request.answered_by(RootReplyView::Poll(poll)),
        request is Nothing ==> !request.answered_by(
            RootReplyView::Memory(MemoryReplyView::Bytes(bytes)),
        ),
{
}

} // verus!
