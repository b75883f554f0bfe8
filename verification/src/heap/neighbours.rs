//! The chunk at an address, and the chunks that touch it.
use vstd::prelude::*;

use super::pool::{in_place_order, no_later};
use super::types::{HeapAllocation, HeapNeighbourhood, HeapState};

verus! {

/// Whether the chunks before `split` start at or before an address, and the others after it.
pub open spec fn splits(allocations: Seq<HeapAllocation>, address: u64, split: int) -> bool {
    &&& 0 <= split <= allocations.len()
    &&& forall|i: int| 0 <= i < split ==> (#[trigger] allocations[i]).user_address <= address
    &&& forall|i: int|
        split <= i < allocations.len() ==> (#[trigger] allocations[i]).user_address > address
}

/// Where the chunk at an address stands: the last that starts at or before it, or else the
/// first that starts after it, whose header may still cover it.
pub open spec fn place_of(allocations: Seq<HeapAllocation>, address: u64, split: int) -> Option<int> {
    if split > 0 && allocations[split - 1].covers(address) {
        Some(split - 1)
    } else if split < allocations.len() && allocations[split].covers(address) {
        Some(split)
    } else {
        None
    }
}

/// Whether a chunk belongs to the same allocator structure as another, and can be read.
pub open spec fn same_structure(chunk: HeapAllocation, other: HeapAllocation) -> bool {
    &&& other.heap == chunk.heap
    &&& other.backend == chunk.backend
    &&& other.subsegment == chunk.subsegment
    &&& other.state != HeapState::Unreadable
}

/// A displacement, at the ends of what 64 bits can say where it lies beyond them.
pub open spec fn displacement(address: u64, from: u64) -> int {
    let offset = address - from;
    if offset > i64::MAX {
        i64::MAX as int
    } else if offset < i64::MIN {
        i64::MIN as int
    } else {
        offset
    }
}

/// The chunk at a position with its neighbours: those that touch it and share its structure.
pub open spec fn neighbourhood(
    allocations: Seq<HeapAllocation>,
    position: int,
    address: u64,
) -> HeapNeighbourhood {
    let chunk = allocations[position];
    HeapNeighbourhood {
        allocation: chunk,
        offset: displacement(address, chunk.user_address) as i64,
        previous: if position > 0 && same_structure(chunk, allocations[position - 1])
            && allocations[position - 1].spec_end() == chunk.header_address {
            Some(allocations[position - 1])
        } else {
            None
        },
        next: if position + 1 < allocations.len() && same_structure(chunk, allocations[position + 1])
            && chunk.spec_end() == allocations[position + 1].header_address {
            Some(allocations[position + 1])
        } else {
            None
        },
    }
}

fn touches(chunk: &HeapAllocation, other: &HeapAllocation) -> (same: bool)
    ensures
        same == same_structure(*chunk, *other),
{
    other.heap == chunk.heap && other.backend == chunk.backend && other.subsegment
        == chunk.subsegment && other.state != HeapState::Unreadable
}

/// A listing by address splits at every address.
pub proof fn a_listing_splits(allocations: Seq<HeapAllocation>, address: u64)
    requires
        in_place_order(allocations),
    ensures
        exists|split: int| splits(allocations, address, split),
    decreases allocations.len(),
{
    if allocations.len() == 0 || allocations.last().user_address <= address {
        assert forall|i: int| 0 <= i < allocations.len() implies (
        #[trigger] allocations[i]).user_address <= address by {
            assert(no_later(allocations[i], allocations.last()));
        }
        assert(splits(allocations, address, allocations.len() as int));
    } else {
        let front = allocations.drop_last();
        a_listing_splits(front, address);
        let split = choose|split: int| splits(front, address, split);
        assert forall|i: int| 0 <= i < split implies (#[trigger] allocations[i]).user_address
            <= address by {
            assert(front[i] == allocations[i]);
        }
        assert forall|i: int| split <= i < allocations.len() implies (
        #[trigger] allocations[i]).user_address > address by {
            if i < front.len() {
                assert(front[i] == allocations[i]);
            }
        }
        assert(splits(allocations, address, split));
    }
}

fn partition(allocations: &[HeapAllocation], address: u64) -> (split: usize)
    requires
        exists|split: int| splits(allocations@, address, split),
    ensures
        splits(allocations@, address, split as int),
{
    let ghost edge = choose|split: int| splits(allocations@, address, split);
    let mut low: usize = 0;
    let mut high: usize = allocations.len();
    while low < high
        invariant
            low <= edge <= high <= allocations@.len(),
            splits(allocations@, address, edge),
        decreases high - low,
    {
        let middle: usize = low + (high - low) / 2;
        if allocations[middle].user_address <= address {
            low = middle + 1;
        } else {
            high = middle;
        }
    }
    low
}

fn offset_of(address: u64, from: u64) -> (offset: i64)
    ensures
        offset == displacement(address, from),
{
    let offset: i128 = address as i128 - from as i128;
    if offset > 0x7fff_ffff_ffff_ffff {
        i64::MAX
    } else if offset < -0x8000_0000_0000_0000 {
        i64::MIN
    } else {
        offset as i64
    }
}

/// The chunk that holds `address`, and the chunks that touch it.
pub fn neighbourhood_at(allocations: &[HeapAllocation], address: u64) -> (found: Option<
    HeapNeighbourhood,
>)
    requires
        exists|split: int| splits(allocations@, address, split),
    ensures
        forall|split: int| #[trigger]
            splits(allocations@, address, split) ==> found == (match place_of(
                allocations@,
                address,
                split,
            ) {
                Some(position) => Some(neighbourhood(allocations@, position, address)),
                None => None,
            }),
{
    let split: usize = partition(allocations, address);
    proof {
        assert forall|other: int| #[trigger] splits(allocations@, address, other) implies other
            == split by {
            if other < split {
                assert(allocations@[other].user_address > address);
            } else if split < other {
                assert(allocations@[split as int].user_address > address);
            }
        }
    }
    let position: usize = if split > 0 && allocations[split - 1].contains(address) {
        split - 1
    } else if split < allocations.len() && allocations[split].contains(address) {
        split
    } else {
        return None;
    };
    let chunk = allocations[position];
    let previous = if position > 0 && touches(&chunk, &allocations[position - 1]) && allocations[position
        - 1].end() == chunk.header_address {
        Some(allocations[position - 1])
    } else {
        None
    };
    let next = if position + 1 < allocations.len() && touches(&chunk, &allocations[position + 1])
        && chunk.end() == allocations[position + 1].header_address {
        Some(allocations[position + 1])
    } else {
        None
    };
    Some(
        HeapNeighbourhood {
            allocation: chunk,
            offset: offset_of(address, chunk.user_address),
            previous,
            next,
        },
    )
}

/// What is found at an address holds it, and its neighbours touch it: they are contiguous with
/// it, readable, and of the same heap, back end and subsegment.
pub proof fn neighbours_touch(allocations: Seq<HeapAllocation>, address: u64, split: int)
    requires
        splits(allocations, address, split),
        place_of(allocations, address, split) is Some,
    ensures
        ({
            let position = place_of(allocations, address, split)->0;
            let found = neighbourhood(allocations, position, address);
            &&& 0 <= position < allocations.len()
            &&& found.allocation.covers(address)
            &&& found.previous matches Some(previous) ==> {
                &&& previous.spec_end() == found.allocation.header_address
                &&& same_structure(found.allocation, previous)
            }
            &&& found.next matches Some(next) ==> {
                &&& found.allocation.spec_end() == next.header_address
                &&& same_structure(found.allocation, next)
            }
        }),
{
}

/// Where chunks do not overlap, the chunk found is the one chunk that holds the address: a chunk
/// that holds it is found, wherever it stands in the listing.
pub proof fn a_chunk_is_found_where_one_is(
    allocations: Seq<HeapAllocation>,
    address: u64,
    split: int,
    holder: int,
)
    requires
        in_place_order(allocations),
        splits(allocations, address, split),
        0 <= holder < allocations.len(),
        allocations[holder].covers(address),
        forall|i: int| 0 <= i < allocations.len() ==> (#[trigger] allocations[i]).header_address
            <= allocations[i].user_address,
        forall|i: int, j: int|
            0 <= i < j < allocations.len() ==> (#[trigger] allocations[i]).spec_end() <= (
            #[trigger] allocations[j]).header_address,
    ensures
        place_of(allocations, address, split) == Some(holder),
{
    if holder < split - 1 {
        assert(allocations[holder].spec_end() <= allocations[split - 1].header_address);
        assert(allocations[split - 1].user_address <= address);
    } else if split < holder {
        assert(allocations[split].spec_end() <= allocations[holder].header_address);
        assert(allocations[split].user_address > address);
    } else if holder == split && split > 0 {
        assert(allocations[split - 1].spec_end() <= allocations[split].header_address);
    }
}

/// An address is told by how far it lies from its chunk's user address, in either direction, as
/// far as the number goes.
pub proof fn a_displacement_leads_back(address: u64, from: u64)
    ensures
        i64::MIN <= address - from <= i64::MAX ==> from + displacement(address, from) == address,
        address - from > i64::MAX ==> displacement(address, from) == i64::MAX,
        address - from < i64::MIN ==> displacement(address, from) == i64::MIN,
        address < from ==> displacement(address, from) < 0,
        address > from ==> displacement(address, from) > 0,
{
}

/// Two chunks are of one structure exactly where they share their heap, their allocator end and
/// their subsegment, and the other can be read.
pub proof fn a_structure_is_shared(chunk: HeapAllocation, other: HeapAllocation)
    ensures
        same_structure(chunk, other) <==> chunk.heap == other.heap && chunk.backend
            == other.backend && chunk.subsegment == other.subsegment && !(other.state
            is Unreadable),
{
}

/// What is told of a chunk is the chunk, where the address lies in it, and the chunks listed right
/// before and right after it, each exactly where it touches the chunk and is of its structure.
pub proof fn a_neighbourhood_is_what_touches(
    allocations: Seq<HeapAllocation>,
    position: int,
    address: u64,
)
    requires
        0 <= position < allocations.len(),
    ensures
        ({
            let told = neighbourhood(allocations, position, address);
            let chunk = allocations[position];
            &&& told.allocation == chunk
            &&& i64::MIN <= address - chunk.user_address <= i64::MAX ==> chunk.user_address
                + told.offset == address
            &&& told.previous is Some <==> position > 0 && same_structure(
                chunk,
                allocations[position - 1],
            ) && allocations[position - 1].spec_end() == chunk.header_address
            &&& told.previous is Some ==> told.previous == Some(allocations[position - 1])
            &&& told.next is Some <==> position + 1 < allocations.len() && same_structure(
                chunk,
                allocations[position + 1],
            ) && chunk.spec_end() == allocations[position + 1].header_address
            &&& told.next is Some ==> told.next == Some(allocations[position + 1])
        }),
{
}

} // verus!
