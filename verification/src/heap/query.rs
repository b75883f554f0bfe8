//! The queries a heap snapshot answers, each with the coverage of the walk it came from.
use vstd::prelude::*;

use super::census::{census_of, heaviest_first, is_census};
use super::neighbours::{
    a_listing_splits, neighbourhood, neighbourhood_at, place_of, splits,
};
use super::pool::in_place_order;
use super::snapshot::{copy_allocations, copy_roots, HeapSnapshot};
use super::types::{
    HeapAllocation, HeapAnswer, HeapCensusRow, HeapDiagnosticReport, HeapNeighbourhood, HeapRoot,
};

verus! {

/// Whether an answer carries the walk of the snapshot it came from.
pub open spec fn carries<T>(answer: HeapAnswer<T>, snapshot: HeapSnapshot) -> bool {
    &&& answer.layout == snapshot.layout
    &&& answer.scope@ == snapshot.scope@
    &&& answer.walk == snapshot.walk
}

/// Pairs what was found with the walk it was found by.
pub fn answer<T>(snapshot: &HeapSnapshot, found: T) -> (answer: HeapAnswer<T>)
    ensures
        answer.found == found,
        carries(answer, *snapshot),
{
    HeapAnswer {
        found,
        layout: snapshot.layout.duplicate(),
        scope: snapshot.scope.duplicate(),
        walk: snapshot.walk,
    }
}

/// The heaps of the process.
pub fn list(snapshot: &HeapSnapshot) -> (listed: HeapAnswer<Vec<HeapRoot>>)
    ensures
        listed.found@ == snapshot.roots@,
        carries(listed, *snapshot),
{
    let found = copy_roots(&snapshot.roots);
    answer(snapshot, found)
}

/// The chunks of the walked heaps, by address.
pub fn allocations(snapshot: &HeapSnapshot) -> (chunks: HeapAnswer<Vec<HeapAllocation>>)
    ensures
        chunks.found@ == snapshot.allocations@,
        carries(chunks, *snapshot),
{
    let found = copy_allocations(&snapshot.allocations);
    answer(snapshot, found)
}

/// The chunk that holds `address`, and the chunks that touch it.
pub fn chunk_at(snapshot: &HeapSnapshot, address: u64) -> (chunk: HeapAnswer<
    Option<HeapNeighbourhood>,
>)
    requires
        in_place_order(snapshot.allocations@),
    ensures
        forall|split: int| #[trigger]
            splits(snapshot.allocations@, address, split) ==> chunk.found == (match place_of(
                snapshot.allocations@,
                address,
                split,
            ) {
                Some(position) => Some(neighbourhood(snapshot.allocations@, position, address)),
                None => None,
            }),
        exists|split: int| splits(snapshot.allocations@, address, split),
        carries(chunk, *snapshot),
{
    proof {
        a_listing_splits(snapshot.allocations@, address);
    }
    let found = neighbourhood_at(snapshot.allocations.as_slice(), address);
    answer(snapshot, found)
}

/// The chunks counted by heap, back end, state and size class, the heaviest first.
pub fn census(snapshot: &HeapSnapshot) -> (counted: HeapAnswer<Vec<HeapCensusRow>>)
    ensures
        is_census(snapshot.allocations@, counted.found@),
        heaviest_first(counted.found@),
        carries(counted, *snapshot),
{
    let found = census_of(snapshot.allocations.as_slice());
    answer(snapshot, found)
}

/// What the walk complained about. Of a snapshot scoped to one heap, only what it complained
/// about in that heap.
pub fn diagnostics(snapshot: &HeapSnapshot) -> (report: HeapAnswer<HeapDiagnosticReport>)
    ensures
        report.found.categories@ == snapshot.diagnostics.categories@,
        report.found.examples@ == snapshot.diagnostics.examples@,
        carries(report, *snapshot),
{
    let found = snapshot.diagnostics.duplicate();
    answer(snapshot, found)
}

/// Every answer is told with what it rests on: the layout, the scope and the report of the walk it
/// was taken from.
pub proof fn an_answer_says_what_it_rests_on<T>(answer: HeapAnswer<T>, snapshot: HeapSnapshot)
    requires
        carries(answer, snapshot),
    ensures
        answer.layout.module == snapshot.layout.module,
        answer.scope@.segment_heaps_walked == snapshot.scope.segment_heaps_walked@,
        answer.scope@.nt_heaps_skipped == snapshot.scope.nt_heaps_skipped@,
        answer.scope@.unknown_heaps_skipped == snapshot.scope.unknown_heaps_skipped@,
        answer.scope@.unreadable_heaps_skipped == snapshot.scope.unreadable_heaps_skipped@,
        answer.walk.coverage == snapshot.walk.coverage,
        answer.walk.total_chunks == snapshot.walk.total_chunks,
        answer.walk.allocated_chunks == snapshot.walk.allocated_chunks,
        answer.walk.diagnostic_count == snapshot.walk.diagnostic_count,
        answer.walk.unreadable_gaps == snapshot.walk.unreadable_gaps,
        answer.walk.refused_headers == snapshot.walk.refused_headers,
        answer.walk.unplaced_bytes == snapshot.walk.unplaced_bytes,
        answer.walk.stalls == snapshot.walk.stalls,
{
}

} // verus!
