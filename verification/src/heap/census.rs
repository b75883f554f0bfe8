//! The chunks of a heap by what they are, heaviest first.
use vstd::prelude::*;

use super::types::{HeapAllocation, HeapBackend, HeapCensusRow, HeapState};

verus! {

/// What a census tells chunks apart by.
pub struct CensusKey {
    pub heap: u64,
    pub backend: HeapBackend,
    pub state: HeapState,
    pub size_class: u32,
}

/// A chunk's key.
pub open spec fn key_of(allocation: HeapAllocation) -> CensusKey {
    CensusKey {
        heap: allocation.heap,
        backend: allocation.backend,
        state: allocation.state,
        size_class: allocation.size_class,
    }
}

/// A row's key.
pub open spec fn row_key(row: HeapCensusRow) -> CensusKey {
    CensusKey {
        heap: row.heap,
        backend: row.backend,
        state: row.state,
        size_class: row.size_class,
    }
}

/// How many chunks have a key.
pub open spec fn chunks_with(allocations: Seq<HeapAllocation>, key: CensusKey) -> nat
    decreases allocations.len(),
{
    if allocations.len() == 0 {
        0
    } else {
        chunks_with(allocations.drop_last(), key) + if key_of(allocations.last()) == key {
            1nat
        } else {
            0nat
        }
    }
}

/// How many bytes the chunks with a key hold.
pub open spec fn capacity_with(allocations: Seq<HeapAllocation>, key: CensusKey) -> nat
    decreases allocations.len(),
{
    if allocations.len() == 0 {
        0
    } else {
        capacity_with(allocations.drop_last(), key) + if key_of(allocations.last()) == key {
            allocations.last().capacity as nat
        } else {
            0nat
        }
    }
}

/// A number of bytes, at most what 64 bits can say.
pub open spec fn capped(bytes: nat) -> nat {
    if bytes <= u64::MAX {
        bytes
    } else {
        u64::MAX as nat
    }
}

/// Whether a row counts the chunks of its key, all of them.
pub open spec fn tallies(allocations: Seq<HeapAllocation>, row: HeapCensusRow) -> bool {
    &&& row.chunks == chunks_with(allocations, row_key(row))
    &&& row.total_capacity == capped(capacity_with(allocations, row_key(row)))
    &&& row.chunks > 0
}

/// A back end's place among the back ends.
pub open spec fn backend_rank(backend: HeapBackend) -> int {
    match backend {
        HeapBackend::Lfh => 0,
        HeapBackend::Vs => 1,
        HeapBackend::Segment => 2,
        HeapBackend::Large => 3,
    }
}

/// A state's place among the states.
pub open spec fn state_rank(state: HeapState) -> int {
    match state {
        HeapState::Allocated => 0,
        HeapState::ReusableFree => 1,
        HeapState::CachedFree => 2,
        HeapState::Unreadable => 3,
    }
}

/// Whether one key comes before another: by heap, back end, state and size class.
pub open spec fn key_before(left: CensusKey, right: CensusKey) -> bool {
    if left.heap != right.heap {
        left.heap < right.heap
    } else if left.backend != right.backend {
        backend_rank(left.backend) < backend_rank(right.backend)
    } else if left.state != right.state {
        state_rank(left.state) < state_rank(right.state)
    } else {
        left.size_class < right.size_class
    }
}

/// Whether one row comes before another: the heavier, then the more numerous, then by key.
pub open spec fn row_before(left: HeapCensusRow, right: HeapCensusRow) -> bool {
    if left.total_capacity != right.total_capacity {
        left.total_capacity > right.total_capacity
    } else if left.chunks != right.chunks {
        left.chunks > right.chunks
    } else {
        key_before(row_key(left), row_key(right))
    }
}

/// Whether rows stand heaviest first.
pub open spec fn heaviest_first(rows: Seq<HeapCensusRow>) -> bool {
    forall|i: int, j: int|
        0 <= i < j < rows.len() ==> row_before(#[trigger] rows[i], #[trigger] rows[j])
}

/// Whether some row has a key.
pub open spec fn has_row(rows: Seq<HeapCensusRow>, key: CensusKey) -> bool {
    exists|i: int| 0 <= i < rows.len() && row_key(#[trigger] rows[i]) == key
}

/// Whether no two rows share a key.
pub open spec fn distinct_keys(rows: Seq<HeapCensusRow>) -> bool {
    forall|i: int, j: int|
        0 <= i < j < rows.len() ==> row_key(#[trigger] rows[i]) != row_key(#[trigger] rows[j])
}

/// Whether rows tally chunks: one row for each key there is.
pub open spec fn is_census(allocations: Seq<HeapAllocation>, rows: Seq<HeapCensusRow>) -> bool {
    &&& distinct_keys(rows)
    &&& forall|i: int| 0 <= i < rows.len() ==> tallies(allocations, #[trigger] rows[i])
    &&& forall|i: int|
        0 <= i < allocations.len() ==> has_row(rows, key_of(#[trigger] allocations[i]))
}

fn backend_number(backend: HeapBackend) -> (rank: u8)
    ensures
        rank == backend_rank(backend),
{
    match backend {
        HeapBackend::Lfh => 0,
        HeapBackend::Vs => 1,
        HeapBackend::Segment => 2,
        HeapBackend::Large => 3,
    }
}

fn state_number(state: HeapState) -> (rank: u8)
    ensures
        rank == state_rank(state),
{
    match state {
        HeapState::Allocated => 0,
        HeapState::ReusableFree => 1,
        HeapState::CachedFree => 2,
        HeapState::Unreadable => 3,
    }
}

fn comes_before(left: &HeapCensusRow, right: &HeapCensusRow) -> (before: bool)
    ensures
        before == row_before(*left, *right),
{
    if left.total_capacity != right.total_capacity {
        left.total_capacity > right.total_capacity
    } else if left.chunks != right.chunks {
        left.chunks > right.chunks
    } else if left.heap != right.heap {
        left.heap < right.heap
    } else if left.backend != right.backend {
        backend_number(left.backend) < backend_number(right.backend)
    } else if left.state != right.state {
        state_number(left.state) < state_number(right.state)
    } else {
        left.size_class < right.size_class
    }
}

fn is_of(row: &HeapCensusRow, allocation: &HeapAllocation) -> (same: bool)
    ensures
        same == (row_key(*row) == key_of(*allocation)),
{
    row.heap == allocation.heap && row.backend == allocation.backend && row.state
        == allocation.state && row.size_class == allocation.size_class
}

/// The row of a chunk's key, looked for at `near` first: chunks of one key tend to be listed
/// together.
fn row_for(rows: &Vec<HeapCensusRow>, allocation: &HeapAllocation, near: usize) -> (position: usize)
    ensures
        position <= rows@.len(),
        position < rows@.len() ==> row_key(rows@[position as int]) == key_of(*allocation),
        position == rows@.len() ==> !has_row(rows@, key_of(*allocation)),
{
    if near < rows.len() && is_of(&rows[near], allocation) {
        return near;
    }
    let mut i: usize = 0;
    while i < rows.len()
        invariant
            i <= rows@.len(),
            forall|j: int|
                0 <= j < i ==> row_key(#[trigger] rows@[j]) != key_of(*allocation),
        decreases rows.len() - i,
    {
        if is_of(&rows[i], allocation) {
            return i;
        }
        i = i + 1;
    }
    i
}

proof fn lemma_chunks_bound(allocations: Seq<HeapAllocation>, key: CensusKey)
    ensures
        chunks_with(allocations, key) <= allocations.len(),
    decreases allocations.len(),
{
    if allocations.len() > 0 {
        lemma_chunks_bound(allocations.drop_last(), key);
    }
}

proof fn lemma_no_chunks(allocations: Seq<HeapAllocation>, key: CensusKey)
    requires
        forall|i: int| 0 <= i < allocations.len() ==> key_of(#[trigger] allocations[i]) != key,
    ensures
        chunks_with(allocations, key) == 0,
        capacity_with(allocations, key) == 0,
    decreases allocations.len(),
{
    if allocations.len() > 0 {
        assert(key_of(allocations[allocations.len() - 1]) != key);
        assert forall|i: int| 0 <= i < allocations.drop_last().len() implies key_of(
            #[trigger] allocations.drop_last()[i],
        ) != key by {
            assert(allocations.drop_last()[i] == allocations[i]);
        }
        lemma_no_chunks(allocations.drop_last(), key);
    }
}

fn tally(allocations: &[HeapAllocation]) -> (rows: Vec<HeapCensusRow>)
    ensures
        is_census(allocations@, rows@),
{
    let mut rows: Vec<HeapCensusRow> = Vec::new();
    let mut near: usize = 0;
    let mut i: usize = 0;
    while i < allocations.len()
        invariant
            i <= allocations@.len(),
            is_census(allocations@.take(i as int), rows@),
        decreases allocations.len() - i,
    {
        let allocation = allocations[i];
        let ghost before = allocations@.take(i as int);
        let ghost after = allocations@.take(i + 1);
        let ghost old_rows = rows@;
        let ghost key = key_of(allocation);
        proof {
            assert(after.drop_last() =~= before);
            assert(after.last() == allocation);
            lemma_chunks_bound(before, key);
        }
        let position: usize = row_for(&rows, &allocation, near);
        if position < rows.len() {
            let row = rows[position];
            assert(tallies(before, old_rows[position as int]));
            let counted = HeapCensusRow {
                chunks: row.chunks + 1,
                total_capacity: row.total_capacity.saturating_add(allocation.capacity),
                ..row
            };
            rows[position] = counted;
        } else {
            proof {
                assert forall|j: int| 0 <= j < before.len() implies key_of(#[trigger] before[j])
                    != key by {
                    assert(has_row(old_rows, key_of(before[j])));
                }
                lemma_no_chunks(before, key);
            }
            rows.push(
                HeapCensusRow {
                    heap: allocation.heap,
                    backend: allocation.backend,
                    state: allocation.state,
                    size_class: allocation.size_class,
                    chunks: 1,
                    total_capacity: allocation.capacity,
                },
            );
        }
        near = position;
        proof {
            assert forall|j: int, k: int| 0 <= j < k < rows@.len() implies row_key(
                #[trigger] rows@[j],
            ) != row_key(#[trigger] rows@[k]) by {
                if k < old_rows.len() {
                    assert(row_key(rows@[j]) == row_key(old_rows[j]));
                    assert(row_key(rows@[k]) == row_key(old_rows[k]));
                } else {
                    assert(row_key(rows@[j]) == row_key(old_rows[j]));
                    assert(!has_row(old_rows, key));
                }
            }
            assert forall|j: int| 0 <= j < rows@.len() implies tallies(after, #[trigger] rows@[j]) by {
                if j == position {
                } else {
                    assert(rows@[j] == old_rows[j]);
                    assert(tallies(before, old_rows[j]));
                    if position < old_rows.len() {
                        assert(row_key(old_rows[j]) != row_key(old_rows[position as int]));
                    }
                }
            }
            assert forall|j: int| 0 <= j < after.len() implies has_row(
                rows@,
                key_of(#[trigger] after[j]),
            ) by {
                if j < before.len() {
                    assert(after[j] == before[j]);
                    assert(has_row(old_rows, key_of(before[j])));
                    let k = choose|k: int|
                        0 <= k < old_rows.len() && row_key(#[trigger] old_rows[k]) == key_of(
                            before[j],
                        );
                    assert(row_key(rows@[k]) == row_key(old_rows[k]));
                } else {
                    assert(row_key(rows@[position as int]) == key);
                }
            }
        }
        i = i + 1;
    }
    assert(allocations@.take(i as int) =~= allocations@);
    rows
}

proof fn lemma_before_is_total(left: HeapCensusRow, right: HeapCensusRow)
    requires
        row_key(left) != row_key(right),
        !row_before(left, right),
    ensures
        row_before(right, left),
{
}

fn insert_sorted(rows: &mut Vec<HeapCensusRow>, row: HeapCensusRow)
    requires
        heaviest_first(old(rows)@),
        !has_row(old(rows)@, row_key(row)),
    ensures
        heaviest_first(final(rows)@),
        exists|at: int|
            0 <= at <= old(rows)@.len() && final(rows)@ == #[trigger] old(rows)@.insert(at, row),
{
    let ghost before = rows@;
    let mut at: usize = rows.len();
    while at > 0 && comes_before(&row, &rows[at - 1])
        invariant
            at <= rows@.len(),
            rows@ == before,
            heaviest_first(before),
            forall|i: int| at <= i < before.len() ==> row_before(row, #[trigger] before[i]),
        decreases at,
    {
        at = at - 1;
    }
    proof {
        if at > 0 {
            assert(row_key(before[at - 1]) != row_key(row));
            lemma_before_is_total(row, before[at - 1]);
        }
        assert forall|i: int| 0 <= i < at implies row_before(#[trigger] before[i], row) by {
            if i < at - 1 {
                assert(row_before(before[i], before[at - 1]));
            }
        }
    }
    rows.insert(at, row);
    assert(rows@ == before.insert(at as int, row));
}

/// The chunks counted by heap, back end, state and size class, the heaviest rows first.
pub fn census_of(allocations: &[HeapAllocation]) -> (rows: Vec<HeapCensusRow>)
    ensures
        is_census(allocations@, rows@),
        heaviest_first(rows@),
{
    let tallied = tally(allocations);
    let mut rows: Vec<HeapCensusRow> = Vec::new();
    let mut i: usize = 0;
    while i < tallied.len()
        invariant
            i <= tallied@.len(),
            is_census(allocations@, tallied@),
            heaviest_first(rows@),
            distinct_keys(rows@),
            forall|j: int|
                0 <= j < rows@.len() ==> tallied@.take(i as int).contains(#[trigger] rows@[j]),
            forall|j: int| 0 <= j < i ==> rows@.contains(#[trigger] tallied@[j]),
        decreases tallied.len() - i,
    {
        let ghost before = rows@;
        let row = tallied[i];
        proof {
            assert forall|j: int| 0 <= j < before.len() implies row_key(#[trigger] before[j])
                != row_key(row) by {
                let k = tallied@.take(i as int).index_of(before[j]);
                assert(tallied@[k] == before[j]);
            }
        }
        insert_sorted(&mut rows, row);
        proof {
            let at = choose|at: int|
                0 <= at <= before.len() && rows@ == #[trigger] before.insert(at, row);
            assert forall|j: int| 0 <= j < rows@.len() implies tallied@.take(i + 1).contains(
                #[trigger] rows@[j],
            ) by {
                if j == at {
                    assert(tallied@.take(i + 1)[i as int] == row);
                } else {
                    let k = if j < at {
                        j
                    } else {
                        j - 1
                    };
                    assert(rows@[j] == before[k]);
                    let n = tallied@.take(i as int).index_of(before[k]);
                    assert(tallied@.take(i + 1)[n] == before[k]);
                }
            }
            assert forall|j: int| 0 <= j < i + 1 implies rows@.contains(#[trigger] tallied@[j]) by {
                if j == i {
                    assert(rows@[at] == row);
                } else {
                    let k = before.index_of(tallied@[j]);
                    let n = if k < at {
                        k
                    } else {
                        k + 1
                    };
                    assert(rows@[n] == before[k]);
                }
            }
            assert forall|j: int, k: int| 0 <= j < k < rows@.len() implies row_key(
                #[trigger] rows@[j],
            ) != row_key(#[trigger] rows@[k]) by {
                let left = if j < at {
                    j
                } else {
                    j - 1
                };
                let right = if k < at {
                    k
                } else {
                    k - 1
                };
                if j == at {
                    assert(rows@[k] == before[right]);
                } else if k == at {
                    assert(rows@[j] == before[left]);
                } else {
                    assert(rows@[j] == before[left]);
                    assert(rows@[k] == before[right]);
                }
            }
        }
        i = i + 1;
    }
    proof {
        assert forall|j: int| 0 <= j < rows@.len() implies tallies(
            allocations@,
            #[trigger] rows@[j],
        ) by {
            let k = tallied@.take(i as int).index_of(rows@[j]);
            assert(tallied@[k] == rows@[j]);
        }
        assert forall|j: int| 0 <= j < allocations@.len() implies has_row(
            rows@,
            key_of(#[trigger] allocations@[j]),
        ) by {
            assert(has_row(tallied@, key_of(allocations@[j])));
            let k = choose|k: int|
                0 <= k < tallied@.len() && row_key(#[trigger] tallied@[k]) == key_of(
                    allocations@[j],
                );
            let n = rows@.index_of(tallied@[k]);
            assert(row_key(rows@[n]) == key_of(allocations@[j]));
        }
    }
    rows
}

/// Two chunks are counted together exactly where they are of one heap, one allocator end, one
/// state and one size class.
pub proof fn chunks_are_told_apart_by_four_things(
    left: HeapAllocation,
    right: HeapAllocation,
    row: HeapCensusRow,
)
    ensures
        key_of(left) == key_of(right) <==> left.heap == right.heap && left.backend == right.backend
            && left.state == right.state && left.size_class == right.size_class,
        row_key(row) == key_of(left) <==> row.heap == left.heap && row.backend == left.backend
            && row.state == left.state && row.size_class == left.size_class,
{
}

/// One more chunk adds itself and its capacity to what is counted of its kind, and nothing to what
/// is counted of any other.
pub proof fn a_chunk_adds_itself(
    allocations: Seq<HeapAllocation>,
    chunk: HeapAllocation,
    key: CensusKey,
)
    ensures
        ({
            let same = chunk.heap == key.heap && chunk.backend == key.backend && chunk.state
                == key.state && chunk.size_class == key.size_class;
            let more = allocations.push(chunk);
            &&& same ==> chunks_with(more, key) == chunks_with(allocations, key) + 1
            &&& same ==> capacity_with(more, key) == capacity_with(allocations, key)
                + chunk.capacity
            &&& !same ==> chunks_with(more, key) == chunks_with(allocations, key)
            &&& !same ==> capacity_with(more, key) == capacity_with(allocations, key)
        }),
        chunks_with(Seq::empty(), key) == 0,
        capacity_with(Seq::empty(), key) == 0,
{
    assert(allocations.push(chunk).drop_last() =~= allocations);
}

/// How many chunks the rows count in all.
pub open spec fn counted(rows: Seq<HeapCensusRow>) -> nat
    decreases rows.len(),
{
    if rows.len() == 0 {
        0
    } else {
        counted(rows.drop_last()) + rows.last().chunks as nat
    }
}

/// How many of these chunks are of the rows' keys, row by row.
spec fn keyed(allocations: Seq<HeapAllocation>, rows: Seq<HeapCensusRow>) -> nat
    decreases rows.len(),
{
    if rows.len() == 0 {
        0
    } else {
        keyed(allocations, rows.drop_last()) + chunks_with(allocations, row_key(rows.last()))
    }
}

proof fn lemma_keyed_one_more(
    allocations: Seq<HeapAllocation>,
    chunk: HeapAllocation,
    rows: Seq<HeapCensusRow>,
)
    requires
        distinct_keys(rows),
    ensures
        keyed(allocations.push(chunk), rows) == keyed(allocations, rows) + if has_row(
            rows,
            key_of(chunk),
        ) {
            1nat
        } else {
            0nat
        },
    decreases rows.len(),
{
    if rows.len() > 0 {
        let front = rows.drop_last();
        assert(forall|i: int| 0 <= i < front.len() ==> #[trigger] front[i] == rows[i]);
        lemma_keyed_one_more(allocations, chunk, front);
        a_chunk_adds_itself(allocations, chunk, row_key(rows.last()));
        let last = rows.len() - 1;
        if has_row(front, key_of(chunk)) {
            let i = choose|i: int| 0 <= i < front.len() && row_key(#[trigger] front[i]) == key_of(
                chunk,
            );
            assert(row_key(rows[i]) == key_of(chunk));
            assert(row_key(rows[last]) != key_of(chunk));
        } else if row_key(rows.last()) == key_of(chunk) {
            assert(row_key(rows[last]) == key_of(chunk));
        } else if has_row(rows, key_of(chunk)) {
            let i = choose|i: int| 0 <= i < rows.len() && row_key(#[trigger] rows[i]) == key_of(
                chunk,
            );
            assert(row_key(front[i]) == key_of(chunk));
        }
    }
}

proof fn lemma_keyed_all(allocations: Seq<HeapAllocation>, rows: Seq<HeapCensusRow>)
    requires
        distinct_keys(rows),
        forall|i: int|
            0 <= i < allocations.len() ==> has_row(rows, key_of(#[trigger] allocations[i])),
    ensures
        keyed(allocations, rows) == allocations.len(),
    decreases allocations.len(),
{
    if allocations.len() > 0 {
        let front = allocations.drop_last();
        assert forall|i: int| 0 <= i < front.len() implies has_row(
            rows,
            key_of(#[trigger] front[i]),
        ) by {
            assert(front[i] == allocations[i]);
        }
        lemma_keyed_all(front, rows);
        lemma_keyed_one_more(front, allocations.last(), rows);
        assert(front.push(allocations.last()) =~= allocations);
        assert(has_row(rows, key_of(allocations[allocations.len() - 1])));
    } else {
        lemma_keyed_none(rows);
        assert(allocations =~= Seq::empty());
    }
}

proof fn lemma_keyed_none(rows: Seq<HeapCensusRow>)
    ensures
        keyed(Seq::empty(), rows) == 0,
    decreases rows.len(),
{
    if rows.len() > 0 {
        lemma_keyed_none(rows.drop_last());
    }
}

proof fn lemma_counted_is_keyed(allocations: Seq<HeapAllocation>, rows: Seq<HeapCensusRow>)
    requires
        forall|i: int| 0 <= i < rows.len() ==> tallies(allocations, #[trigger] rows[i]),
    ensures
        counted(rows) == keyed(allocations, rows),
    decreases rows.len(),
{
    if rows.len() > 0 {
        let front = rows.drop_last();
        assert forall|i: int| 0 <= i < front.len() implies tallies(
            allocations,
            #[trigger] front[i],
        ) by {
            assert(front[i] == rows[i]);
        }
        lemma_counted_is_keyed(allocations, front);
        assert(tallies(allocations, rows[rows.len() - 1]));
    }
}

/// A census counts every chunk, and none twice: its rows come to as many chunks as there are.
pub proof fn every_chunk_is_counted_once(
    allocations: Seq<HeapAllocation>,
    rows: Seq<HeapCensusRow>,
)
    requires
        is_census(allocations, rows),
    ensures
        counted(rows) == allocations.len(),
{
    lemma_keyed_all(allocations, rows);
    lemma_counted_is_keyed(allocations, rows);
}

/// A row holds what was counted: at least one chunk, and their capacity as far as the number
/// goes.
pub proof fn a_row_holds_what_was_counted(
    allocations: Seq<HeapAllocation>,
    rows: Seq<HeapCensusRow>,
    i: int,
)
    requires
        is_census(allocations, rows),
        0 <= i < rows.len(),
    ensures
        rows[i].chunks > 0,
        rows[i].chunks == chunks_with(allocations, row_key(rows[i])),
        capacity_with(allocations, row_key(rows[i])) <= u64::MAX ==> rows[i].total_capacity
            == capacity_with(allocations, row_key(rows[i])),
        capacity_with(allocations, row_key(rows[i])) > u64::MAX ==> rows[i].total_capacity
            == u64::MAX,
{
    assert(tallies(allocations, rows[i]));
}

/// The rows stand heaviest first: by their capacity, then by how many chunks they have, then by
/// heap, allocator end, state and size class, each from the lowest.
pub proof fn heavier_rows_come_first(rows: Seq<HeapCensusRow>, i: int, j: int)
    requires
        heaviest_first(rows),
        0 <= i < j < rows.len(),
    ensures
        rows[i].total_capacity >= rows[j].total_capacity,
        rows[i].total_capacity == rows[j].total_capacity ==> {
            &&& rows[i].chunks >= rows[j].chunks
            &&& rows[i].chunks == rows[j].chunks ==> {
                &&& rows[i].heap <= rows[j].heap
                &&& rows[i].heap == rows[j].heap ==> {
                    &&& rows[j].backend is Lfh ==> rows[i].backend is Lfh
                    &&& rows[j].backend is Vs ==> rows[i].backend is Lfh || rows[i].backend is Vs
                    &&& rows[i].backend is Large ==> rows[j].backend is Large
                    &&& rows[i].backend == rows[j].backend ==> {
                        &&& rows[j].state is Allocated ==> rows[i].state is Allocated
                        &&& rows[j].state is ReusableFree ==> rows[i].state is Allocated
                            || rows[i].state is ReusableFree
                        &&& rows[i].state is Unreadable ==> rows[j].state is Unreadable
                        &&& rows[i].state == rows[j].state ==> rows[i].size_class
                            < rows[j].size_class
                    }
                }
            }
        },
{
    assert(row_before(rows[i], rows[j]));
}

} // verus!
