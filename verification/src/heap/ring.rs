//! What a finished root discovery has established about the target's memory.
use vstd::prelude::*;

use crate::bytes::le64;
use super::enumerate::{
    is_listed, next_unlisted, EnumerationView, PhaseView, RingView, RootReplyView, RootRequest,
    RootWalkView,
};
use super::roots::{entry_named, root_at, MemoryReplyView, NamingView, ProbeView, RootLayout};
use super::types::{HeapKind, HeapRootView};

verus! {

/// The memory of a stopped target: what a read of so many bytes at an address answers.
pub type TargetMemory = spec_fn(u64, nat) -> MemoryReplyView;

/// Whether a reply is what this memory, or any poll at all, gives to a request.
pub open spec fn answers(mem: TargetMemory, request: RootRequest, reply: RootReplyView) -> bool {
    match request {
        RootRequest::Poll => reply is Poll,
        RootRequest::Read { address, size } => reply == RootReplyView::Memory(
            mem(address, size as nat),
        ),
        RootRequest::Nothing => false,
    }
}

/// What the heap at an address is, by the target's memory.
pub open spec fn judgement(layout: RootLayout, mem: TargetMemory, heap: u64) -> (
    HeapKind,
    Option<Seq<char>>,
) {
    match layout.probe_of(heap) {
        ProbeView::Known { kind, reason } => (kind, reason),
        ProbeView::Read { address, size } => layout.judged_from(mem(address, size as nat)),
    }
}

/// The list entry the heap at an address names, where it names one.
pub open spec fn entry_of(layout: RootLayout, mem: TargetMemory, heap: u64) -> Option<u64> {
    match layout.naming_of(heap, judgement(layout, mem, heap).0) {
        NamingView::At(at) => match entry_named(heap, mem(at, 8)) {
            Ok(entry) => entry,
            Err(_) => None,
        },
        _ => None,
    }
}

/// The three words of a list entry.
pub open spec fn word(mem: TargetMemory, entry: u64, index: int) -> u64 {
    le64(mem(entry, 0x18)->Bytes_0, 8 * index)
}

/// Whether a list entry can be read.
pub open spec fn readable_entry(mem: TargetMemory, entry: u64) -> bool {
    mem(entry, 0x18) is Bytes
}

pub open spec fn flink(mem: TargetMemory, entry: u64) -> u64 {
    word(mem, entry, 0)
}

pub open spec fn blink(mem: TargetMemory, entry: u64) -> u64 {
    word(mem, entry, 1)
}

pub open spec fn heap_of(mem: TargetMemory, entry: u64) -> u64 {
    word(mem, entry, 2)
}

/// What a discovery is told beforehand: the offsets to read at, and where `ntdll` lies.
pub struct Place {
    pub layout: RootLayout,
    pub ntdll_start: u64,
    pub ntdll_end: u64,
}

impl Place {
    /// Whether an address lies inside `ntdll`.
    pub open spec fn in_ntdll(self, address: u64) -> bool {
        self.ntdll_start <= address < self.ntdll_end
    }
}

impl RootWalkView {
    /// What this discovery was told beforehand.
    pub open spec fn place(self) -> Place {
        Place {
            layout: self.layout,
            ntdll_start: self.ntdll_start,
            ntdll_end: self.ntdll_end,
        }
    }
}

/// The heaps the entries of a list stand for, as roots in the list's order.
pub open spec fn list_roots(place: Place, mem: TargetMemory, entries: Seq<u64>) -> Seq<HeapRootView>
    decreases entries.len(),
{
    if entries.len() == 0 {
        Seq::empty()
    } else {
        let before = list_roots(place, mem, entries.drop_last());
        let heap = heap_of(mem, entries.last());
        if place.in_ntdll(entries.last()) {
            before
        } else {
            before.push(root_at(before.len(), heap, judgement(place.layout, mem, heap)))
        }
    }
}

/// How many entries of a list lie inside `ntdll`.
pub open spec fn list_heads(place: Place, entries: Seq<u64>) -> nat
    decreases entries.len(),
{
    if entries.len() == 0 {
        0
    } else {
        list_heads(place, entries.drop_last()) + if place.in_ntdll(entries.last()) {
            1nat
        } else {
            0nat
        }
    }
}

/// Whether an entry is `ntdll`'s own, or stands for a heap that names it back.
pub open spec fn vouched(place: Place, mem: TargetMemory, entry: u64) -> bool {
    place.in_ntdll(entry) || entry_of(place.layout, mem, heap_of(mem, entry)) == Some(entry)
}

/// Whether entries, in order, are a stretch of a doubly linked list that vouches for itself.
pub open spec fn stretch(place: Place, mem: TargetMemory, entries: Seq<u64>) -> bool {
    &&& entries.no_duplicates()
    &&& forall|i: int| 0 <= i < entries.len() ==> readable_entry(mem, #[trigger] entries[i])
    &&& forall|i: int| 0 <= i < entries.len() ==> vouched(place, mem, #[trigger] entries[i])
    &&& forall|i: int, j: int|
        0 <= i && j == i + 1 && j < entries.len() ==> {
            &&& flink(mem, #[trigger] entries[i]) == #[trigger] entries[j]
            &&& blink(mem, entries[j]) == entries[i]
        }
}

/// Whether entries are a whole circular list: a stretch that closes on itself, with one head.
pub open spec fn whole_list(place: Place, mem: TargetMemory, entries: Seq<u64>) -> bool {
    &&& entries.len() > 0
    &&& stretch(place, mem, entries)
    &&& flink(mem, entries.last()) == entries[0]
    &&& blink(mem, entries[0]) == entries.last()
    &&& list_heads(place, entries) == 1
}

/// Whether the first `listed` roots are the heaps of the whole list the process heap is on.
pub open spec fn followed(
    place: Place,
    mem: TargetMemory,
    process_heap: u64,
    roots: Seq<HeapRootView>,
    listed: nat,
) -> bool {
    exists|entries: Seq<u64>|
        #![trigger whole_list(place, mem, entries)]
        {
            &&& whole_list(place, mem, entries)
            &&& entry_of(place.layout, mem, process_heap) == Some(entries[0])
            &&& roots.take(listed as int) == list_roots(place, mem, entries)
        }
}

/// Whether every root was judged as the memory says, at its own position.
pub open spec fn well_judged(layout: RootLayout, mem: TargetMemory, roots: Seq<HeapRootView>) -> bool {
    forall|j: int|
        0 <= j < roots.len() ==> #[trigger] roots[j] == root_at(
            j as nat,
            roots[j].address,
            judgement(layout, mem, roots[j].address),
        )
}

/// What the first part of discovery, the list, has established once it is behind.
pub open spec fn list_behind(walk: RootWalkView, mem: TargetMemory, listed: nat) -> bool {
    &&& listed <= walk.found.roots.len()
    &&& walk.found.total is Some ==> {
        &&& walk.found.total == Some(walk.named.len())
        &&& listed == 0
        &&& walk.found.unseen is None
        &&& walk.named.len() > 0 ==> entry_of(walk.layout, mem, walk.named[0]) is None
    }
    &&& walk.found.total is None ==> {
        &&& walk.named.len() > 0
        &&& walk.found.unseen is None ==> followed(
            walk.place(),
            mem,
            walk.named[0],
            walk.found.roots,
            listed,
        )
    }
}

/// Whether the first `next` heaps the PEB names are roots, and the roots past the list are
/// heaps the PEB names.
pub open spec fn named_so_far(walk: RootWalkView, next: nat, listed: nat) -> bool {
    &&& next <= walk.named.len()
    &&& forall|i: int|
        0 <= i < next ==> is_listed(
            walk.found.roots,
            walk.found.roots.len(),
            #[trigger] walk.named[i],
        )
    &&& forall|j: int|
        listed <= j < walk.found.roots.len() ==> walk.named.contains(
            (#[trigger] walk.found.roots[j]).address,
        )
    &&& listed == 0 ==> {
        &&& walk.found.roots.len() == next
        &&& forall|i: int| 0 <= i < next ==> (#[trigger] walk.found.roots[i]).address == walk.named[i]
    }
}

/// What the walk round the list has established, with `done` of the ring's entries behind.
pub open spec fn ring_so_far(walk: RootWalkView, mem: TargetMemory, ring: RingView, done: nat) -> bool {
    let entries = ring.visited.take(done as int);
    &&& done <= ring.visited.len()
    &&& walk.named.len() > 0
    &&& entry_of(walk.layout, mem, walk.named[0]) == Some(ring.start)
    &&& walk.found.total is None
    &&& walk.found.unseen is None
    &&& !walk.found.budget_expired
    &&& stretch(walk.place(), mem, entries)
    &&& walk.found.roots == list_roots(walk.place(), mem, entries)
    &&& ring.heads == list_heads(walk.place(), entries)
    &&& done == 0 ==> ring.previous is None && ring.entry == ring.start
    &&& done > 0 ==> {
        &&& entries[0] == ring.start
        &&& ring.previous == Some(entries.last())
        &&& ring.first_blink == blink(mem, ring.start)
        &&& flink(mem, entries.last()) == ring.entry
        &&& ring.entry != ring.start
    }
}

/// Whether the entry being looked at is the last visited, and was not visited before.
pub open spec fn entered(ring: RingView) -> bool {
    &&& ring.visited.len() > 0
    &&& ring.visited.last() == ring.entry
    &&& !ring.visited.drop_last().contains(ring.entry)
}

/// What holds of an entry whose links have been read and found sound.
pub open spec fn linked(mem: TargetMemory, ring: RingView, next: u64, heap: u64) -> bool {
    &&& entered(ring)
    &&& readable_entry(mem, ring.entry)
    &&& flink(mem, ring.entry) == next
    &&& heap_of(mem, ring.entry) == heap
    &&& ring.previous matches Some(previous) ==> blink(mem, ring.entry) == previous
    &&& ring.previous is None ==> ring.first_blink == blink(mem, ring.entry)
}

/// What holds of every discovery answered from one memory.
pub open spec fn sound(walk: RootWalkView, mem: TargetMemory) -> bool {
    &&& well_judged(walk.layout, mem, walk.found.roots)
    &&& match walk.phase {
        PhaseView::Opening | PhaseView::Count | PhaseView::Array { .. }
        | PhaseView::Heaps { .. } => walk.found == EnumerationView::nothing(),
        PhaseView::ListPoll | PhaseView::ListKind => {
            &&& walk.found == EnumerationView::nothing()
            &&& walk.named.len() > 0
        },
        PhaseView::ListEntry { at } => {
            &&& walk.found == EnumerationView::nothing()
            &&& walk.named.len() > 0
            &&& walk.layout.naming_of(
                walk.named[0],
                judgement(walk.layout, mem, walk.named[0]).0,
            ) == NamingView::At(at)
        },
        PhaseView::EntryPoll(ring) => ring_so_far(walk, mem, ring, ring.visited.len()),
        PhaseView::EntryLinks(ring) => {
            &&& entered(ring)
            &&& ring_so_far(walk, mem, ring, (ring.visited.len() - 1) as nat)
        },
        PhaseView::EntryKind { ring, flink, heap } => {
            &&& linked(mem, ring, flink, heap)
            &&& ring_so_far(walk, mem, ring, (ring.visited.len() - 1) as nat)
            &&& !walk.in_ntdll(ring.entry)
        },
        PhaseView::EntryName { ring, flink, heap, judged, at } => {
            &&& linked(mem, ring, flink, heap)
            &&& ring_so_far(walk, mem, ring, (ring.visited.len() - 1) as nat)
            &&& !walk.in_ntdll(ring.entry)
            &&& judged == judgement(walk.layout, mem, heap)
            &&& walk.layout.naming_of(heap, judged.0) == NamingView::At(at)
        },
        PhaseView::NamedPoll { next, listed } | PhaseView::NamedKind { next, listed } => {
            &&& list_behind(walk, mem, listed)
            &&& named_so_far(walk, next, listed)
            &&& next < walk.named.len()
            &&& !walk.found.budget_expired
        },
        PhaseView::Done => !walk.found.budget_expired ==> finished(walk, mem),
        PhaseView::Failed(_) => true,
    }
}

/// What a discovery that did not run out of time has established.
pub open spec fn finished(walk: RootWalkView, mem: TargetMemory) -> bool {
    exists|listed: nat|
        #![trigger list_behind(walk, mem, listed)]
        list_behind(walk, mem, listed) && named_so_far(walk, walk.named.len(), listed)
}

proof fn lemma_skips(walk: RootWalkView, from: nat, listed: nat)
    requires
        from <= walk.named.len(),
        listed <= walk.found.roots.len(),
        named_so_far(walk, from, listed),
    ensures
        ({
            let next = next_unlisted(walk.named, walk.found.roots, listed, from);
            &&& from <= next <= walk.named.len()
            &&& named_so_far(walk, next, listed)
        }),
    decreases walk.named.len() - from,
{
    if from < walk.named.len() && is_listed(walk.found.roots, listed, walk.named[from as int]) {
        let j = choose|j: int|
            0 <= j < listed && j < walk.found.roots.len() && (
            #[trigger] walk.found.roots[j]).address == walk.named[from as int];
        assert(is_listed(walk.found.roots, walk.found.roots.len(), walk.named[from as int]));
        lemma_skips(walk, from + 1, listed);
    }
}

proof fn lemma_resumed(walk: RootWalkView, mem: TargetMemory, from: nat, listed: nat)
    requires
        well_judged(walk.layout, mem, walk.found.roots),
        list_behind(walk, mem, listed),
        named_so_far(walk, from, listed),
        !walk.found.budget_expired,
    ensures
        sound(walk.resumed(from, listed), mem),
{
    lemma_skips(walk, from, listed);
    let after = walk.resumed(from, listed);
    assert(after.place() == walk.place());
    assert(list_behind(after, mem, listed));
    let next = next_unlisted(walk.named, walk.found.roots, listed, from);
    assert(named_so_far(after, next, listed));
}

proof fn lemma_no_list(walk: RootWalkView, mem: TargetMemory)
    requires
        walk.found == EnumerationView::nothing(),
        walk.named.len() > 0 ==> entry_of(walk.layout, mem, walk.named[0]) is None,
    ensures
        sound(walk.past_the_list(false), mem),
{
    let counted = walk.having(walk.found.counted(walk.named.len()));
    assert(list_behind(counted, mem, 0));
    assert(named_so_far(counted, 0, 0));
    lemma_resumed(counted, mem, 0, 0);
}

proof fn lemma_past_the_list(walk: RootWalkView, mem: TargetMemory)
    requires
        well_judged(walk.layout, mem, walk.found.roots),
        !walk.found.budget_expired,
        walk.found.total is None,
        walk.named.len() > 0,
        walk.found.unseen is None ==> followed(
            walk.place(),
            mem,
            walk.named[0],
            walk.found.roots,
            walk.found.roots.len(),
        ),
    ensures
        sound(walk.past_the_list(true), mem),
{
    let same = walk.having(walk.found);
    assert(same == walk);
    let listed = walk.found.roots.len();
    assert(list_behind(walk, mem, listed));
    assert(named_so_far(walk, 0, listed));
    lemma_resumed(walk, mem, 0, listed);
}

proof fn lemma_unfollowed(walk: RootWalkView, mem: TargetMemory, why: Seq<char>)
    requires
        well_judged(walk.layout, mem, walk.found.roots),
        !walk.found.budget_expired,
        walk.found.total is None,
        walk.named.len() > 0,
    ensures
        sound(walk.unfollowed(why), mem),
{
    lemma_past_the_list(walk.having(walk.found.missing(why)), mem);
}

proof fn lemma_entering(walk: RootWalkView, mem: TargetMemory, ring: RingView)
    requires
        well_judged(walk.layout, mem, walk.found.roots),
        ring_so_far(walk, mem, ring, ring.visited.len()),
    ensures
        sound(walk.entering(ring), mem),
{
    if ring.visited.contains(ring.entry) {
        lemma_unfollowed(
            walk,
            mem,
            super::enumerate::broken_text(
                ring.entry,
                super::enumerate::loops_text(ring.start),
            ),
        );
    } else {
        let next = RingView { visited: ring.visited.push(ring.entry), ..ring };
        assert(next.visited.take(ring.visited.len() as int) =~= ring.visited.take(
            ring.visited.len() as int,
        ));
        assert(next.visited.drop_last() =~= ring.visited);
        let after = walk.entering(ring);
        assert(after.place() == walk.place());
        assert(ring_so_far(after, mem, next, ring.visited.len()));
    }
}

/// Whether a ring's entries are a stretch that ends with the entry being left.
pub open spec fn entry_done(walk: RootWalkView, mem: TargetMemory, ring: RingView) -> bool {
    &&& ring.visited.len() > 0
    &&& ring.visited[0] == ring.start
    &&& ring.visited.last() == ring.entry
    &&& walk.named.len() > 0
    &&& entry_of(walk.layout, mem, walk.named[0]) == Some(ring.start)
    &&& walk.found.total is None
    &&& walk.found.unseen is None
    &&& !walk.found.budget_expired
    &&& stretch(walk.place(), mem, ring.visited)
    &&& walk.found.roots == list_roots(walk.place(), mem, ring.visited)
    &&& ring.heads == list_heads(walk.place(), ring.visited)
    &&& ring.first_blink == blink(mem, ring.start)
}

proof fn lemma_leaving(walk: RootWalkView, mem: TargetMemory, ring: RingView, next: u64)
    requires
        well_judged(walk.layout, mem, walk.found.roots),
        entry_done(walk, mem, ring),
        flink(mem, ring.entry) == next,
    ensures
        sound(walk.leaving(ring, next), mem),
{
    if next == ring.start {
        if ring.first_blink != ring.entry {
            lemma_unfollowed(
                walk,
                mem,
                super::enumerate::broken_text(
                    ring.start,
                    super::enumerate::first_blink_text(ring.first_blink, ring.entry),
                ),
            );
        } else if ring.heads != 1 {
            lemma_unfollowed(walk, mem, super::enumerate::heads_text(ring.heads));
        } else {
            assert(whole_list(walk.place(), mem, ring.visited));
            assert(walk.found.roots.take(walk.found.roots.len() as int) =~= walk.found.roots);
            assert(followed(
                walk.place(),
                mem,
                walk.named[0],
                walk.found.roots,
                walk.found.roots.len(),
            ));
            lemma_past_the_list(walk, mem);
        }
    } else {
        let on = RingView { previous: Some(ring.entry), entry: next, ..ring };
        let after = walk.leaving(ring, next);
        assert(on.visited.take(on.visited.len() as int) =~= ring.visited);
        assert(after.place() == walk.place());
        assert(ring_so_far(after, mem, on, on.visited.len()));
    }
}

proof fn lemma_extends(walk: RootWalkView, mem: TargetMemory, ring: RingView, next: u64, heap: u64)
    requires
        ring_so_far(walk, mem, ring, (ring.visited.len() - 1) as nat),
        linked(mem, ring, next, heap),
        vouched(walk.place(), mem, ring.entry),
    ensures
        stretch(walk.place(), mem, ring.visited),
        ring.visited.drop_last() =~= ring.visited.take(ring.visited.len() - 1),
        ring.visited[0] == ring.start,
        ring.first_blink == blink(mem, ring.start),
{
    let before = ring.visited.take(ring.visited.len() - 1);
    assert(ring.visited.drop_last() =~= before);
    assert(ring.visited =~= before.push(ring.entry));
    assert(!before.contains(ring.entry));
    assert forall|i: int, j: int|
        0 <= i < ring.visited.len() && 0 <= j < ring.visited.len() && i
            != j implies ring.visited[i] != ring.visited[j] by {
        if i < before.len() && j < before.len() {
            assert(before[i] != before[j]);
        } else if i < before.len() {
            assert(before[i] == ring.visited[i]);
        } else {
            assert(before[j] == ring.visited[j]);
        }
    }
    assert forall|i: int| 0 <= i < ring.visited.len() implies readable_entry(
        mem,
        #[trigger] ring.visited[i],
    ) by {
        if i < before.len() {
            assert(before[i] == ring.visited[i]);
        }
    }
    assert forall|i: int| 0 <= i < ring.visited.len() implies vouched(
        walk.place(),
        mem,
        #[trigger] ring.visited[i],
    ) by {
        if i < before.len() {
            assert(before[i] == ring.visited[i]);
        }
    }
    assert forall|i: int, j: int| 0 <= i && j == i + 1 && j < ring.visited.len() implies {
        &&& flink(mem, #[trigger] ring.visited[i]) == #[trigger] ring.visited[j]
        &&& blink(mem, ring.visited[j]) == ring.visited[i]
    } by {
        assert(before[i] == ring.visited[i]);
        if j < before.len() {
            assert(before[j] == ring.visited[j]);
        } else {
            assert(before.last() == before[i]);
        }
    }
    if before.len() > 0 {
        assert(before[0] == ring.visited[0]);
    }
}

proof fn lemma_with_kind(
    walk: RootWalkView,
    mem: TargetMemory,
    ring: RingView,
    next: u64,
    heap: u64,
)
    requires
        well_judged(walk.layout, mem, walk.found.roots),
        ring_so_far(walk, mem, ring, (ring.visited.len() - 1) as nat),
        linked(mem, ring, next, heap),
        !walk.in_ntdll(ring.entry),
    ensures
        sound(walk.with_kind(ring, next, heap, judgement(walk.layout, mem, heap)), mem),
{
    let judged = judgement(walk.layout, mem, heap);
    match walk.layout.naming_of(heap, judged.0) {
        NamingView::Unknown(why) => {
            lemma_unfollowed(
                walk,
                mem,
                super::enumerate::broken_text(
                    ring.entry,
                    super::enumerate::stranger_text(heap, why),
                ),
            );
        },
        NamingView::Nowhere => {
            lemma_unfollowed(
                walk,
                mem,
                super::enumerate::broken_text(
                    ring.entry,
                    super::enumerate::stranger_text(heap, "names no entry"@),
                ),
            );
        },
        NamingView::At(at) => {
            let after = walk.with_kind(ring, next, heap, judged);
            assert(after.place() == walk.place());
            assert(ring_so_far(after, mem, ring, (ring.visited.len() - 1) as nat));
        },
    }
}

proof fn lemma_with_name(
    walk: RootWalkView,
    mem: TargetMemory,
    ring: RingView,
    next: u64,
    heap: u64,
    at: u64,
)
    requires
        well_judged(walk.layout, mem, walk.found.roots),
        ring_so_far(walk, mem, ring, (ring.visited.len() - 1) as nat),
        linked(mem, ring, next, heap),
        !walk.in_ntdll(ring.entry),
        walk.layout.naming_of(heap, judgement(walk.layout, mem, heap).0) == NamingView::At(at),
    ensures
        sound(
            walk.with_name(
                ring,
                next,
                heap,
                judgement(walk.layout, mem, heap),
                entry_named(heap, mem(at, 8)),
            ),
            mem,
        ),
{
    let judged = judgement(walk.layout, mem, heap);
    let named = entry_named(heap, mem(at, 8));
    if named == Ok::<Option<u64>, Seq<char>>(Some(ring.entry)) {
        assert(entry_of(walk.layout, mem, heap) == Some(ring.entry));
        assert(vouched(walk.place(), mem, ring.entry));
        lemma_extends(walk, mem, ring, next, heap);
        let grown = walk.having(walk.found.with_root(heap, judged));
        assert(grown.place() == walk.place());
        let before = ring.visited.take(ring.visited.len() - 1);
        assert(ring.visited.drop_last() =~= before);
        assert(grown.found.roots =~= list_roots(walk.place(), mem, ring.visited));
        assert(well_judged(grown.layout, mem, grown.found.roots));
        assert(entry_done(grown, mem, ring));
        lemma_leaving(grown, mem, ring, next);
    } else {
        let why = match named {
            Ok(Some(other)) => "names "@ + crate::text::hex_text(other as nat) + " instead"@,
            Ok(None) => "names no entry"@,
            Err(why) => why,
        };
        lemma_unfollowed(
            walk,
            mem,
            super::enumerate::broken_text(ring.entry, super::enumerate::stranger_text(heap, why)),
        );
    }
}

proof fn lemma_with_links(walk: RootWalkView, mem: TargetMemory, ring: RingView)
    requires
        well_judged(walk.layout, mem, walk.found.roots),
        entered(ring),
        ring_so_far(walk, mem, ring, (ring.visited.len() - 1) as nat),
    ensures
        sound(walk.with_links(ring, mem(ring.entry, 0x18)), mem),
{
    let reply = mem(ring.entry, 0x18);
    match reply {
        MemoryReplyView::Failed(error) => {
            lemma_unfollowed(
                walk,
                mem,
                super::enumerate::broken_text(
                    ring.entry,
                    super::enumerate::unreadable_text(error),
                ),
            );
        },
        MemoryReplyView::Bytes(bytes) => {
            let next = le64(bytes, 0);
            let back = le64(bytes, 8);
            let heap = le64(bytes, 16);
            assert(next == flink(mem, ring.entry));
            assert(back == blink(mem, ring.entry));
            assert(heap == heap_of(mem, ring.entry));
            if ring.previous is Some && ring.previous->0 != back {
                lemma_unfollowed(
                    walk,
                    mem,
                    super::enumerate::broken_text(
                        ring.entry,
                        super::enumerate::blink_text(back, ring.previous->0),
                    ),
                );
            } else {
                let noted = if ring.previous is None {
                    RingView { first_blink: back, ..ring }
                } else {
                    ring
                };
                assert(ring_so_far(walk, mem, noted, (noted.visited.len() - 1) as nat));
                assert(linked(mem, noted, next, heap));
                if walk.in_ntdll(ring.entry) {
                    assert(vouched(walk.place(), mem, noted.entry));
                    lemma_extends(walk, mem, noted, next, heap);
                    let counted = RingView { heads: noted.heads + 1, ..noted };
                    let before = noted.visited.take(noted.visited.len() - 1);
                    assert(noted.visited.drop_last() =~= before);
                    assert(walk.found.roots =~= list_roots(walk.place(), mem, counted.visited));
                    assert(entry_done(walk, mem, counted));
                    lemma_leaving(walk, mem, counted, next);
                } else {
                    match walk.layout.probe_of(heap) {
                        ProbeView::Known { kind, reason } => {
                            lemma_with_kind(walk, mem, noted, next, heap);
                        },
                        ProbeView::Read { .. } => {
                            let after = walk.at(
                                PhaseView::EntryKind { ring: noted, flink: next, heap },
                            );
                            assert(after.place() == walk.place());
                            assert(ring_so_far(
                                after,
                                mem,
                                noted,
                                (noted.visited.len() - 1) as nat,
                            ));
                        },
                    }
                }
            }
        },
    }
}

proof fn lemma_with_named(walk: RootWalkView, mem: TargetMemory, next: nat, listed: nat)
    requires
        well_judged(walk.layout, mem, walk.found.roots),
        list_behind(walk, mem, listed),
        named_so_far(walk, next, listed),
        next < walk.named.len(),
        !walk.found.budget_expired,
    ensures
        sound(
            walk.with_named(
                next,
                listed,
                judgement(walk.layout, mem, walk.named[next as int]),
            ),
            mem,
        ),
{
    let address = walk.named[next as int];
    let judged = judgement(walk.layout, mem, address);
    let grown = walk.having(walk.found.with_root(address, judged));
    let roots = walk.found.roots;
    assert(grown.place() == walk.place());
    assert(well_judged(grown.layout, mem, grown.found.roots));
    assert(grown.found.roots.take(listed as int) =~= roots.take(listed as int));
    if walk.found.total is None && walk.found.unseen is None {
        assert(followed(walk.place(), mem, walk.named[0], roots, listed));
        let entries = choose|entries: Seq<u64>|
            #![trigger whole_list(walk.place(), mem, entries)]
            {
                &&& whole_list(walk.place(), mem, entries)
                &&& entry_of(walk.layout, mem, walk.named[0]) == Some(entries[0])
                &&& roots.take(listed as int) == list_roots(walk.place(), mem, entries)
            };
        assert(whole_list(grown.place(), mem, entries));
        assert(followed(grown.place(), mem, grown.named[0], grown.found.roots, listed));
    }
    assert(list_behind(grown, mem, listed));
    assert forall|i: int| 0 <= i < next + 1 implies is_listed(
        grown.found.roots,
        grown.found.roots.len(),
        #[trigger] grown.named[i],
    ) by {
        if i < next {
            assert(is_listed(roots, roots.len(), walk.named[i]));
            let j = choose|j: int|
                0 <= j < roots.len() && j < roots.len() && (#[trigger] roots[j]).address
                    == walk.named[i];
            assert(grown.found.roots[j].address == grown.named[i]);
        } else {
            assert(grown.found.roots[roots.len() as int].address == grown.named[i]);
        }
    }
    assert forall|j: int| listed <= j < grown.found.roots.len() implies grown.named.contains(
        (#[trigger] grown.found.roots[j]).address,
    ) by {
        if j < roots.len() {
            assert(grown.found.roots[j] == roots[j]);
        } else {
            assert(grown.named[next as int] == address);
        }
    }
    assert(named_so_far(grown, next + 1, listed));
    lemma_resumed(grown, mem, next + 1, listed);
}

/// A discovery that has not begun has established nothing, soundly.
pub proof fn discovery_begins_sound(walk: RootWalkView, mem: TargetMemory)
    requires
        walk.phase is Opening,
        walk.found == EnumerationView::nothing(),
    ensures
        sound(walk, mem),
{
}

/// Whatever the polls say, a discovery whose reads are all answered from one memory stays sound.
pub proof fn discovery_stays_sound(walk: RootWalkView, mem: TargetMemory, reply: RootReplyView)
    requires
        walk.wf(),
        sound(walk, mem),
        answers(mem, walk.request(), reply),
        walk.request().answered_by(reply),
    ensures
        sound(walk.after(reply), mem),
{
    match walk.phase {
        PhaseView::Opening | PhaseView::Count | PhaseView::Array { .. } => {
            if walk.phase is Array {
                let counted = RootWalkView { named: Seq::empty(), ..walk };
                lemma_no_list(counted, mem);
            }
        },
        PhaseView::Heaps { .. } => {
            if reply->Memory_0 is Bytes {
                let named = super::enumerate::heaps_in(reply->Memory_0->Bytes_0);
                let told = RootWalkView { named, ..walk };
                if named.len() == 0 || (walk.layout.segment_entry is None
                    && walk.layout.nt_entry is None) {
                    lemma_no_list(told, mem);
                }
            }
        },
        PhaseView::ListPoll => {
            if reply->Poll_0 is Clear {
                match walk.layout.probe_of(walk.named[0]) {
                    ProbeView::Known { kind, .. } => {
                        lemma_process_heap(walk, mem);
                    },
                    ProbeView::Read { .. } => {},
                }
            }
        },
        PhaseView::ListKind => {
            lemma_process_heap(walk, mem);
        },
        PhaseView::ListEntry { at } => {
            let named = entry_named(walk.named[0], mem(at, 8));
            match named {
                Ok(Some(entry)) => {
                    let after = walk.after(reply);
                    let ring = RingView::setting_out(entry);
                    assert(ring.visited.take(0) =~= Seq::empty());
                    assert(after.place() == walk.place());
                    assert(ring_so_far(after, mem, ring, 0));
                },
                Ok(None) => {
                    lemma_no_list(walk, mem);
                },
                Err(why) => {
                    lemma_unfollowed(walk, mem, super::enumerate::no_list_text(why));
                },
            }
        },
        PhaseView::EntryPoll(ring) => {
            lemma_entering(walk, mem, ring);
        },
        PhaseView::EntryLinks(ring) => {
            lemma_with_links(walk, mem, ring);
        },
        PhaseView::EntryKind { ring, flink, heap } => {
            lemma_with_kind(walk, mem, ring, flink, heap);
        },
        PhaseView::EntryName { ring, flink, heap, judged, at } => {
            lemma_with_name(walk, mem, ring, flink, heap, at);
        },
        PhaseView::NamedPoll { next, listed } => {
            lemma_with_named(walk, mem, next, listed);
        },
        PhaseView::NamedKind { next, listed } => {
            lemma_with_named(walk, mem, next, listed);
        },
        PhaseView::Done | PhaseView::Failed(_) => {},
    }
}

proof fn lemma_process_heap(walk: RootWalkView, mem: TargetMemory)
    requires
        walk.found == EnumerationView::nothing(),
        walk.named.len() > 0,
    ensures
        sound(walk.with_process_heap(judgement(walk.layout, mem, walk.named[0]).0), mem),
{
    let kind = judgement(walk.layout, mem, walk.named[0]).0;
    match walk.layout.naming_of(walk.named[0], kind) {
        NamingView::Unknown(why) => {
            lemma_unfollowed(walk, mem, super::enumerate::no_list_text(why));
        },
        NamingView::Nowhere => {
            lemma_no_list(walk, mem);
        },
        NamingView::At(at) => {},
    }
}

/// Whether or not the list could be followed, a discovery that did not run out of time has found
/// every heap the PEB names: each is a root, and each root is judged as the memory says and stands
/// at its own index. Where the list could not be followed the PEB's count is not taken for the
/// number of roots.
pub proof fn every_named_heap_is_a_root(walk: RootWalkView, mem: TargetMemory)
    requires
        sound(walk, mem),
        walk.phase is Done,
        !walk.found.budget_expired,
    ensures
        well_judged(walk.layout, mem, walk.found.roots),
        forall|i: int|
            0 <= i < walk.named.len() ==> is_listed(
                walk.found.roots,
                walk.found.roots.len(),
                #[trigger] walk.named[i],
            ),
        walk.found.unseen is Some ==> walk.found.total is None,
{
    let listed = choose|listed: nat|
        #![trigger list_behind(walk, mem, listed)]
        list_behind(walk, mem, listed) && named_so_far(walk, walk.named.len(), listed);
    assert(named_so_far(walk, walk.named.len(), listed));
}

/// A discovery that ends having seen every root has found every heap of the process: each heap
/// the PEB names is a root, each root is judged as the memory says and stands at its own index,
/// and either the process heap names no list and the PEB's heaps are the roots in its order, or
/// the roots begin with the heaps of one whole circular list, every entry of which links both
/// ways, is vouched for by its heap, and of which exactly one lies inside `ntdll`.
pub proof fn every_heap_is_a_root(walk: RootWalkView, mem: TargetMemory)
    requires
        sound(walk, mem),
        walk.phase is Done,
        walk.found.saw_every_root(),
    ensures
        well_judged(walk.layout, mem, walk.found.roots),
        forall|i: int|
            0 <= i < walk.named.len() ==> is_listed(
                walk.found.roots,
                walk.found.roots.len(),
                #[trigger] walk.named[i],
            ),
        walk.found.total is Some ==> {
            &&& walk.found.total == Some(walk.named.len())
            &&& walk.named.len() > 0 ==> entry_of(walk.layout, mem, walk.named[0]) is None
            &&& walk.found.roots.len() == walk.named.len()
            &&& forall|i: int|
                0 <= i < walk.named.len() ==> (#[trigger] walk.found.roots[i]).address
                    == walk.named[i]
        },
        walk.found.total is None ==> exists|entries: Seq<u64>|
            #![trigger whole_list(walk.place(), mem, entries)]
            {
                &&& whole_list(walk.place(), mem, entries)
                &&& entry_of(walk.layout, mem, walk.named[0]) == Some(entries[0])
                &&& list_roots(walk.place(), mem, entries).is_prefix_of(walk.found.roots)
                &&& forall|j: int|
                    list_roots(walk.place(), mem, entries).len() <= j < walk.found.roots.len()
                        ==> walk.named.contains((#[trigger] walk.found.roots[j]).address)
            },
{
    let listed = choose|listed: nat|
        #![trigger list_behind(walk, mem, listed)]
        list_behind(walk, mem, listed) && named_so_far(walk, walk.named.len(), listed);
    if walk.found.total is None {
        let entries = choose|entries: Seq<u64>|
            #![trigger whole_list(walk.place(), mem, entries)]
            {
                &&& whole_list(walk.place(), mem, entries)
                &&& entry_of(walk.layout, mem, walk.named[0]) == Some(entries[0])
                &&& walk.found.roots.take(listed as int) == list_roots(walk.place(), mem, entries)
            };
        assert(whole_list(walk.place(), mem, entries));
        assert(list_roots(walk.place(), mem, entries).len() == listed);
        assert(list_roots(walk.place(), mem, entries).is_prefix_of(walk.found.roots));
    }
}

} // verus!
