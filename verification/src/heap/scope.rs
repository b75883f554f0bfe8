//! Which heaps a walk covers.
use vstd::prelude::*;

use super::types::{HeapKind, HeapQueryError, HeapRoot, HeapScope, QueryErrorView};

verus! {

/// The addresses of the roots of one kind, in order.
pub open spec fn heaps_of(roots: Seq<HeapRoot>, kind: HeapKind) -> Seq<u64>
    decreases roots.len(),
{
    if roots.len() == 0 {
        Seq::empty()
    } else if roots.last().kind == kind {
        heaps_of(roots.drop_last(), kind).push(roots.last().address)
    } else {
        heaps_of(roots.drop_last(), kind)
    }
}

/// A [`HeapScope`] with its heaps as sequences.
#[verifier::ext_equal]
pub struct ScopeView {
    pub segment_heaps_walked: Seq<u64>,
    pub nt_heaps_skipped: Seq<u64>,
    pub unknown_heaps_skipped: Seq<u64>,
    pub unreadable_heaps_skipped: Seq<u64>,
}

impl View for HeapScope {
    type V = ScopeView;

    open spec fn view(&self) -> ScopeView {
        ScopeView {
            segment_heaps_walked: self.segment_heaps_walked@,
            nt_heaps_skipped: self.nt_heaps_skipped@,
            unknown_heaps_skipped: self.unknown_heaps_skipped@,
            unreadable_heaps_skipped: self.unreadable_heaps_skipped@,
        }
    }
}

/// Every root, under what became of it.
pub open spec fn scope_view(roots: Seq<HeapRoot>) -> ScopeView {
    ScopeView {
        segment_heaps_walked: heaps_of(roots, HeapKind::Segment),
        nt_heaps_skipped: heaps_of(roots, HeapKind::Nt),
        unknown_heaps_skipped: heaps_of(roots, HeapKind::Unknown),
        unreadable_heaps_skipped: heaps_of(roots, HeapKind::Unreadable),
    }
}

impl Default for HeapScope {
    fn default() -> (scope: HeapScope)
        ensures
            scope@ == scope_view(Seq::empty()),
    {
        HeapScope {
            segment_heaps_walked: Vec::new(),
            nt_heaps_skipped: Vec::new(),
            unknown_heaps_skipped: Vec::new(),
            unreadable_heaps_skipped: Vec::new(),
        }
    }
}

/// Copies addresses.
pub fn copy_addresses(addresses: &Vec<u64>) -> (copy: Vec<u64>)
    ensures
        copy@ == addresses@,
{
    let mut copy: Vec<u64> = Vec::new();
    let mut i: usize = 0;
    while i < addresses.len()
        invariant
            i <= addresses.len(),
            copy@ == addresses@.take(i as int),
        decreases addresses.len() - i,
    {
        copy.push(addresses[i]);
        i = i + 1;
        assert(copy@ =~= addresses@.take(i as int));
    }
    assert(addresses@.take(i as int) =~= addresses@);
    copy
}

impl HeapScope {
    /// The same scope again.
    pub fn duplicate(&self) -> (scope: HeapScope)
        ensures
            scope@ == self@,
    {
        HeapScope {
            segment_heaps_walked: copy_addresses(&self.segment_heaps_walked),
            nt_heaps_skipped: copy_addresses(&self.nt_heaps_skipped),
            unknown_heaps_skipped: copy_addresses(&self.unknown_heaps_skipped),
            unreadable_heaps_skipped: copy_addresses(&self.unreadable_heaps_skipped),
        }
    }
}

/// Every root, under what becomes of it: a Segment Heap is walked, the others are skipped.
pub fn scope_of(roots: &[HeapRoot]) -> (scope: HeapScope)
    ensures
        scope@ == scope_view(roots@),
{
    let mut scope = HeapScope::default();
    let mut i: usize = 0;
    assert(roots@.take(0) =~= Seq::empty());
    while i < roots.len()
        invariant
            i <= roots.len(),
            scope@ == scope_view(roots@.take(i as int)),
        decreases roots.len() - i,
    {
        let address: u64 = roots[i].address;
        assert(roots@.take(i + 1).drop_last() =~= roots@.take(i as int));
        match roots[i].kind {
            HeapKind::Segment => scope.segment_heaps_walked.push(address),
            HeapKind::Nt => scope.nt_heaps_skipped.push(address),
            HeapKind::Unknown => scope.unknown_heaps_skipped.push(address),
            HeapKind::Unreadable => scope.unreadable_heaps_skipped.push(address),
        }
        i = i + 1;
        assert(scope@ =~= scope_view(roots@.take(i as int)));
    }
    assert(roots@.take(i as int) =~= roots@);
    scope
}

/// The position of the first root at an address.
pub open spec fn first_at(roots: Seq<HeapRoot>, heap: u64, position: int) -> bool {
    &&& 0 <= position < roots.len()
    &&& roots[position].address == heap
    &&& forall|i: int| 0 <= i < position ==> (#[trigger] roots[i]).address != heap
}

/// Whether no root stands at an address.
pub open spec fn none_at(roots: Seq<HeapRoot>, heap: u64) -> bool {
    forall|i: int| 0 <= i < roots.len() ==> (#[trigger] roots[i]).address != heap
}

/// Whether a heap selected for a walk has to be refused: it is known not to be a Segment Heap,
/// or known not to be there.
pub open spec fn refused(roots: Seq<HeapRoot>, heap: u64, enumeration_complete: bool) -> bool {
    ||| exists|position: int|
        first_at(roots, heap, position) && (#[trigger] roots[position]).kind != HeapKind::Segment
    ||| none_at(roots, heap) && enumeration_complete
}

/// The addresses equal to one, in order.
pub open spec fn only(addresses: Seq<u64>, heap: u64) -> Seq<u64>
    decreases addresses.len(),
{
    if addresses.len() == 0 {
        Seq::empty()
    } else if addresses.last() == heap {
        only(addresses.drop_last(), heap).push(heap)
    } else {
        only(addresses.drop_last(), heap)
    }
}

fn retained(addresses: &Vec<u64>, heap: u64) -> (kept: Vec<u64>)
    ensures
        kept@ == only(addresses@, heap),
{
    let mut kept: Vec<u64> = Vec::new();
    let mut i: usize = 0;
    assert(addresses@.take(0) =~= Seq::empty());
    while i < addresses.len()
        invariant
            i <= addresses.len(),
            kept@ == only(addresses@.take(i as int), heap),
        decreases addresses.len() - i,
    {
        assert(addresses@.take(i + 1).drop_last() =~= addresses@.take(i as int));
        if addresses[i] == heap {
            kept.push(heap);
        }
        i = i + 1;
    }
    assert(addresses@.take(i as int) =~= addresses@);
    kept
}

/// The scope of a walk over every root, or over the one that was selected.
///
/// A selected heap that is known not to be a Segment Heap root is refused, and so is one that a
/// complete enumeration did not find; one that an incomplete enumeration did not find is neither
/// refused nor walked.
pub fn scope_for(roots: &[HeapRoot], heap: Option<u64>, enumeration_complete: bool) -> (scope:
    Result<HeapScope, HeapQueryError>)
    ensures
        scope is Err == (heap is Some && refused(roots@, heap->0, enumeration_complete)),
        scope matches Err(error) ==> error@ == (QueryErrorView::UnsupportedHeap { heap: heap->0 }),
        heap is None ==> scope->Ok_0@ == scope_view(roots@),
        scope is Ok && heap is Some ==> scope->Ok_0@ == (ScopeView {
            segment_heaps_walked: only(heaps_of(roots@, HeapKind::Segment), heap->0),
            ..scope_view(roots@)
        }),
{
    let scope = scope_of(roots);
    let heap: u64 = match heap {
        None => return Ok(scope),
        Some(heap) => heap,
    };
    let mut i: usize = 0;
    while i < roots.len() && roots[i].address != heap
        invariant
            i <= roots.len(),
            forall|j: int| 0 <= j < i ==> (#[trigger] roots@[j]).address != heap,
        decreases roots.len() - i,
    {
        i = i + 1;
    }
    let refuse: bool = if i < roots.len() {
        assert(first_at(roots@, heap, i as int));
        assert forall|position: int| first_at(roots@, heap, position) implies position == i by {
            if position < i {
                assert(roots@[position].address != heap);
            } else if i < position {
                assert(roots@[i as int].address != heap);
            }
        }
        roots[i].kind != HeapKind::Segment
    } else {
        enumeration_complete
    };
    if refuse {
        return Err(HeapQueryError::UnsupportedHeap { heap });
    }
    let kept = retained(&scope.segment_heaps_walked, heap);
    Ok(HeapScope { segment_heaps_walked: kept, ..scope })
}

/// A heap is walked only where its root is a Segment Heap: what a scoped walk covers is either
/// nothing or the selected heap itself.
pub proof fn a_scoped_walk_covers_nothing_else(addresses: Seq<u64>, heap: u64, walked: u64)
    requires
        only(addresses, heap).contains(walked),
    ensures
        walked == heap,
        addresses.contains(heap),
    decreases addresses.len(),
{
    if addresses.len() > 0 {
        if addresses.last() == heap {
            assert(addresses[addresses.len() - 1] == heap);
            if only(addresses.drop_last(), heap).contains(walked) {
                a_scoped_walk_covers_nothing_else(addresses.drop_last(), heap, walked);
            }
        } else {
            a_scoped_walk_covers_nothing_else(addresses.drop_last(), heap, walked);
            let i = addresses.drop_last().index_of(heap);
            assert(addresses[i] == heap);
        }
    }
}

/// Every root is accounted for: it is walked or skipped under its kind.
pub proof fn every_root_is_in_scope(roots: Seq<HeapRoot>, i: int)
    requires
        0 <= i < roots.len(),
    ensures
        heaps_of(roots, roots[i].kind).contains(roots[i].address),
    decreases roots.len(),
{
    if i == roots.len() - 1 {
        let heaps = heaps_of(roots, roots[i].kind);
        assert(heaps.last() == roots[i].address);
    } else {
        every_root_is_in_scope(roots.drop_last(), i);
        let before = heaps_of(roots.drop_last(), roots[i].kind);
        let at = before.index_of(roots[i].address);
        assert(heaps_of(roots, roots[i].kind)[at] == roots[i].address);
    }
}

/// The roots of a kind are told by their addresses, in the order they were found in.
pub proof fn roots_are_told_in_order(roots: Seq<HeapRoot>, kind: HeapKind)
    ensures
        heaps_of(roots, kind) == roots.filter(|root: HeapRoot| root.kind == kind).map_values(
            |root: HeapRoot| root.address,
        ),
    decreases roots.len(),
{
    reveal(Seq::filter);
    let ours = |root: HeapRoot| root.kind == kind;
    let address = |root: HeapRoot| root.address;
    if roots.len() > 0 {
        roots_are_told_in_order(roots.drop_last(), kind);
    }
    assert(heaps_of(roots, kind) =~= roots.filter(ours).map_values(address));
}

/// A heap is walked exactly where it is a Segment heap, and else told under what it was found to
/// be.
pub proof fn a_root_is_told_under_its_kind(roots: Seq<HeapRoot>, i: int, scope: HeapScope)
    requires
        0 <= i < roots.len(),
    ensures
        roots[i].kind is Segment ==> scope_view(roots).segment_heaps_walked.contains(
            roots[i].address,
        ),
        roots[i].kind is Nt ==> scope_view(roots).nt_heaps_skipped.contains(roots[i].address),
        roots[i].kind is Unknown ==> scope_view(roots).unknown_heaps_skipped.contains(
            roots[i].address,
        ),
        roots[i].kind is Unreadable ==> scope_view(roots).unreadable_heaps_skipped.contains(
            roots[i].address,
        ),
        scope@.segment_heaps_walked == scope.segment_heaps_walked@,
        scope@.nt_heaps_skipped == scope.nt_heaps_skipped@,
        scope@.unknown_heaps_skipped == scope.unknown_heaps_skipped@,
        scope@.unreadable_heaps_skipped == scope.unreadable_heaps_skipped@,
{
    every_root_is_in_scope(roots, i);
}

/// Nothing is told that is not a root of that kind.
pub proof fn only_roots_are_told(roots: Seq<HeapRoot>, kind: HeapKind, address: u64)
    requires
        heaps_of(roots, kind).contains(address),
    ensures
        exists|i: int|
            0 <= i < roots.len() && (#[trigger] roots[i]).kind == kind && roots[i].address
                == address,
    decreases roots.len(),
{
    if roots.len() > 0 {
        let front = roots.drop_last();
        let last = roots.len() - 1;
        if roots.last().kind == kind && roots.last().address == address {
            assert(roots[last].kind == kind);
        } else {
            let all = heaps_of(roots, kind);
            let at = all.index_of(address);
            let before = heaps_of(front, kind);
            assert(before[at] == address);
            only_roots_are_told(front, kind, address);
            let i = choose|i: int|
                0 <= i < front.len() && (#[trigger] front[i]).kind == kind && front[i].address
                    == address;
            assert(roots[i] == front[i]);
        }
    }
}

/// A heap that is asked for by its address is refused exactly where the first root at it is not a
/// Segment heap, or where there is none and the roots are known to be all there are.
pub proof fn only_a_segment_heap_is_walked(
    roots: Seq<HeapRoot>,
    heap: u64,
    enumeration_complete: bool,
    first: int,
)
    ensures
        0 <= first < roots.len() && roots[first].address == heap && (forall|i: int|
            0 <= i < first ==> (#[trigger] roots[i]).address != heap) ==> (refused(
            roots,
            heap,
            enumeration_complete,
        ) <==> !(roots[first].kind is Segment)),
        (forall|i: int| 0 <= i < roots.len() ==> (#[trigger] roots[i]).address != heap) ==> (
        refused(roots, heap, enumeration_complete) <==> enumeration_complete),
{
    if 0 <= first < roots.len() && roots[first].address == heap && (forall|i: int|
        0 <= i < first ==> (#[trigger] roots[i]).address != heap) {
        assert(first_at(roots, heap, first));
        if refused(roots, heap, enumeration_complete) {
            let position = choose|position: int|
                first_at(roots, heap, position) && (#[trigger] roots[position]).kind
                    != HeapKind::Segment;
            if position < first {
                assert(roots[position].address == heap);
            }
            if first < position {
                assert(roots[first].address != heap);
            }
        }
    }
}

/// A walk of one heap keeps that heap's addresses and no other.
pub proof fn only_the_one_heap_is_kept(addresses: Seq<u64>, heap: u64)
    ensures
        only(addresses, heap) == addresses.filter(|address: u64| address == heap),
        addresses.contains(heap) <==> only(addresses, heap).len() > 0,
    decreases addresses.len(),
{
    reveal(Seq::filter);
    if addresses.len() > 0 {
        let front = addresses.drop_last();
        only_the_one_heap_is_kept(front, heap);
        if addresses.contains(heap) && addresses.last() != heap {
            let i = addresses.index_of(heap);
            assert(front[i] == heap);
        }
        if front.contains(heap) {
            let i = front.index_of(heap);
            assert(addresses[i] == heap);
        }
        if addresses.last() == heap {
            assert(addresses[addresses.len() - 1] == heap);
        }
    }
    assert(only(addresses, heap) =~= addresses.filter(|address: u64| address == heap));
}

} // verus!
