//! Why a root discovery ends: every answer brings it nearer to its end, whatever the answer says.
use vstd::prelude::*;
use vstd::set_lib::{lemma_int_range, lemma_len_subset, set_int_range};

use super::enumerate::{
    heaps_in, is_listed, next_unlisted, PhaseView, RingView, RootReplyView, RootWalkView,
};
use super::roots::{ProbeView, MAX_PROCESS_HEAPS};
use super::types::HeapRootView;

verus! {

/// How many addresses there are.
pub open spec fn addresses() -> int {
    0x1_0000_0000_0000_0000
}

/// How many addresses the walk round the list has not read an entry at.
pub open spec fn unread(ring: RingView) -> int {
    addresses() - ring.visited.len()
}

/// The most questions a walk round the list asks, with those about the heaps the PEB names after
/// it.
pub open spec fn round_the_list(named: int) -> int {
    2 * named + 2 + 4 * addresses()
}

impl RootWalkView {
    /// How many questions may still be asked.
    pub open spec fn unasked(self) -> int {
        let named = self.named.len() as int;
        let before_the_names = round_the_list(MAX_PROCESS_HEAPS as int) + 4;
        match self.phase {
            PhaseView::Opening => before_the_names + 3,
            PhaseView::Count => before_the_names + 2,
            PhaseView::Array { .. } => before_the_names + 1,
            PhaseView::Heaps { .. } => before_the_names,
            PhaseView::ListPoll => round_the_list(named) + 3,
            PhaseView::ListKind => round_the_list(named) + 2,
            PhaseView::ListEntry { .. } => round_the_list(named) + 1,
            PhaseView::EntryPoll(ring) => 2 * named + 2 + 4 * unread(ring),
            PhaseView::EntryLinks(ring) => 2 * named + 2 + 4 * unread(ring) + 3,
            PhaseView::EntryKind { ring, .. } => 2 * named + 2 + 4 * unread(ring) + 2,
            PhaseView::EntryName { ring, .. } => 2 * named + 2 + 4 * unread(ring) + 1,
            PhaseView::NamedPoll { next, .. } => 2 * (named - next) + 1,
            PhaseView::NamedKind { next, .. } => 2 * (named - next),
            PhaseView::Done | PhaseView::Failed(_) => 0,
        }
    }
}

proof fn lemma_unread(ring: RingView)
    requires
        ring.visited.no_duplicates(),
    ensures
        unread(ring) >= 0,
{
    let numbers = ring.visited.map_values(|address: u64| address as int);
    assert forall|i: int, j: int|
        0 <= i < numbers.len() && 0 <= j < numbers.len() && i != j implies numbers[i]
        != numbers[j] by {
        assert(ring.visited[i] != ring.visited[j]);
    }
    numbers.unique_seq_to_set();
    lemma_int_range(0, addresses());
    assert(numbers.to_set().subset_of(set_int_range(0, addresses()))) by {
        assert forall|number: int| numbers.to_set().contains(number) implies set_int_range(
            0,
            addresses(),
        ).contains(number) by {
            let i = choose|i: int| 0 <= i < numbers.len() && numbers[i] == number;
            assert(number == ring.visited[i] as int);
        }
    }
    lemma_len_subset(numbers.to_set(), set_int_range(0, addresses()));
}

proof fn lemma_next_unlisted(
    named: Seq<u64>,
    roots: Seq<HeapRootView>,
    listed: nat,
    from: nat,
)
    requires
        from <= named.len(),
    ensures
        from <= next_unlisted(named, roots, listed, from) <= named.len(),
    decreases named.len() - from,
{
    if from < named.len() && is_listed(roots, listed, named[from as int]) {
        lemma_next_unlisted(named, roots, listed, from + 1);
    }
}

proof fn lemma_resumed(walk: RootWalkView, from: nat, listed: nat)
    requires
        from <= walk.named.len(),
    ensures
        0 <= walk.resumed(from, listed).unasked() <= 2 * (walk.named.len() - from) + 1,
        from == walk.named.len() ==> walk.resumed(from, listed).unasked() == 0,
{
    lemma_next_unlisted(walk.named, walk.found.roots, listed, from);
}

proof fn lemma_past_the_list(walk: RootWalkView, listed: bool)
    ensures
        0 <= walk.past_the_list(listed).unasked() <= 2 * walk.named.len() + 1,
{
    let found = if listed {
        walk.found
    } else {
        walk.found.counted(walk.named.len())
    };
    lemma_resumed(walk.having(found), 0, walk.found.roots.len());
}

proof fn lemma_unfollowed(walk: RootWalkView)
    ensures
        forall|why: Seq<char>|
            0 <= #[trigger] walk.unfollowed(why).unasked() <= 2 * walk.named.len() + 1,
{
    assert forall|why: Seq<char>|
        0 <= #[trigger] walk.unfollowed(why).unasked() <= 2 * walk.named.len() + 1 by {
        lemma_past_the_list(walk.having(walk.found.missing(why)), true);
    }
}

proof fn lemma_leaving(walk: RootWalkView, ring: RingView, flink: u64)
    requires
        ring.visited.no_duplicates(),
    ensures
        0 <= walk.leaving(ring, flink).unasked() <= 2 * walk.named.len() + 2 + 4 * unread(ring),
{
    lemma_unread(ring);
    lemma_unfollowed(walk);
    lemma_past_the_list(walk, true);
}

/// Every answer lowers how many questions may still be asked, and none are asked of a discovery
/// that is over: discovery ends, also on a list that never comes round.
pub proof fn a_discovery_ends(walk: RootWalkView, reply: RootReplyView)
    requires
        walk.wf(),
        walk.request().answered_by(reply),
    ensures
        0 <= walk.after(reply).unasked() < walk.unasked(),
{
    lemma_unfollowed(walk);
    lemma_past_the_list(walk, false);
    match walk.phase {
        PhaseView::Array { .. } => {
            lemma_past_the_list(RootWalkView { named: Seq::empty(), ..walk }, false);
        },
        PhaseView::Heaps { .. } => {
            if reply->Memory_0 is Bytes {
                let named = heaps_in(reply->Memory_0->Bytes_0);
                assert(named.len() <= MAX_PROCESS_HEAPS);
                lemma_past_the_list(RootWalkView { named, ..walk }, false);
            }
        },
        PhaseView::EntryPoll(ring) => {
            lemma_unread(ring);
            let next = RingView { visited: ring.visited.push(ring.entry), ..ring };
            if !ring.visited.contains(ring.entry) {
                lemma_unread(next);
            }
        },
        PhaseView::EntryLinks(ring) => {
            lemma_unread(ring);
            if reply->Memory_0 is Bytes {
                let bytes = reply->Memory_0->Bytes_0;
                let noted = if ring.previous is None {
                    RingView { first_blink: crate::bytes::le64(bytes, 8), ..ring }
                } else {
                    ring
                };
                lemma_leaving(
                    walk,
                    RingView { heads: noted.heads + 1, ..noted },
                    crate::bytes::le64(bytes, 0),
                );
            }
        },
        PhaseView::EntryKind { ring, .. } => {
            lemma_unread(ring);
        },
        PhaseView::EntryName { ring, flink, heap, judged, .. } => {
            lemma_unread(ring);
            lemma_leaving(walk.having(walk.found.with_root(heap, judged)), ring, flink);
        },
        PhaseView::NamedPoll { next, listed } => {
            if let ProbeView::Known { kind, reason } = walk.layout.probe_of(
                walk.named[next as int],
            ) {
                let grown = walk.found.with_root(walk.named[next as int], (kind, reason));
                lemma_resumed(walk.having(grown), next + 1, listed);
            }
        },
        PhaseView::NamedKind { next, listed } => {
            let judged = walk.layout.judged_from(reply->Memory_0);
            let grown = walk.found.with_root(walk.named[next as int], judged);
            lemma_resumed(walk.having(grown), next + 1, listed);
        },
        _ => {},
    }
}

} // verus!
