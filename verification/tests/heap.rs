use std::collections::HashMap;
use std::ops::Range;

use dbgscope::dbgeng::error::DbgEngError;
use dbgscope::dbgeng::module::KernelImage;
use dbgscope::heap::census::census_of;
use dbgscope::heap::enumerate::{
    root_read_budget_expired, RootEnumeration, RootReply, RootRequest, RootWalk,
};
use dbgscope::heap::neighbours::neighbourhood_at;
use dbgscope::heap::pool::{
    from_pool_snapshot, truncated_root_snapshot, with_unseen_roots, PoolSnapshot,
};
use dbgscope::heap::roots::{
    classify_root, user_pointer, MemoryReply, RootLayout, LIST_ENTRY_HEAP, NT_HEAP_SIGNATURE,
    SEGMENT_HEAP_SIGNATURE,
};
use dbgscope::heap::scope::{scope_for, scope_of};
use dbgscope::heap::snapshot::SnapshotKey;
use dbgscope::heap::target::{wow_teb_field, wow_teb_offset};
use dbgscope::heap::types::{
    HeapAllocation, HeapBackend, HeapKind, HeapQueryError, HeapRoot, HeapState, WalkCoverage,
};
use dbgscope::heap::walk::Budget;

fn allocation(heap: u64, backend: HeapBackend, address: u64, capacity: u64) -> HeapAllocation {
    HeapAllocation {
        heap,
        backend,
        state: HeapState::Allocated,
        header_address: address,
        user_address: address + 0x10,
        capacity,
        requested_size: None,
        subsegment: Some(heap + 0x1000),
        size_class: capacity as u32,
    }
}

#[test]
fn test_segment_and_nt_signatures_are_not_interchangeable() {
    assert_ne!(SEGMENT_HEAP_SIGNATURE, NT_HEAP_SIGNATURE);
    assert_eq!(SEGMENT_HEAP_SIGNATURE, 0xddee_ddee);
    assert_eq!(NT_HEAP_SIGNATURE, 0xeeff_eeff);
}

#[test]
fn test_root_classification_skips_nt_unknown_unreadable_and_ambiguous_roots() {
    assert_eq!(
        classify_root(Ok(SEGMENT_HEAP_SIGNATURE), Ok(0)),
        (HeapKind::Segment, None)
    );
    assert_eq!(classify_root(Ok(0), Ok(NT_HEAP_SIGNATURE)).0, HeapKind::Nt);
    assert_eq!(classify_root(Ok(0), Ok(0)).0, HeapKind::Unknown);
    assert_eq!(
        classify_root(Err("first read".into()), Err("second read".into())).0,
        HeapKind::Unreadable
    );
    assert_eq!(
        classify_root(Ok(SEGMENT_HEAP_SIGNATURE), Ok(NT_HEAP_SIGNATURE)).0,
        HeapKind::Unknown,
        "conflicting structural evidence must fail closed"
    );
}

#[test]
fn test_user_pointer_bounds_reject_null_kernel_and_noncanonical_roots() {
    assert!(user_pointer(0x1_0000));
    assert!(user_pointer(0x0000_7fff_ffff_ffff));
    assert!(!user_pointer(0));
    assert!(!user_pointer(0xffff_8000_0000_0000));
    assert!(!user_pointer(0x0000_8000_0000_0000));
}

#[test]
fn test_snapshot_identity_separates_current_processes() {
    let image = KernelImage {
        base: 0x0000_7ffb_0000_0000,
        size: 0x20_0000,
        timestamp: 0x1234_5678,
        checksum: 0x9876,
    };
    let key = |process_system_id, heap| SnapshotKey {
        target: 7,
        process_system_id,
        peb: 0x0000_7fff_0000_1000,
        image,
        generation: 3,
        heap,
    };

    assert_ne!(
        key(100, None),
        key(200, None),
        "two current processes may share virtual addresses but never a heap snapshot"
    );
    assert_eq!(key(100, None), key(100, None));
}

#[test]
fn test_snapshot_identity_separates_scoped_diagnostic_walks() {
    let image = KernelImage {
        base: 0x0000_7ffb_0000_0000,
        size: 0x20_0000,
        timestamp: 0x1234_5678,
        checksum: 0x9876,
    };
    let key = |heap| SnapshotKey {
        target: 7,
        process_system_id: 100,
        peb: 0x0000_7fff_0000_1000,
        image,
        generation: 3,
        heap,
    };

    assert_ne!(key(None), key(Some(0x10000)));
    assert_ne!(key(Some(0x10000)), key(Some(0x20000)));
}

#[test]
fn test_user_allocation_contains_header_and_payload_addresses() {
    let allocation = allocation(0x1000, HeapBackend::Vs, 0x2000, 0x40);
    assert!(allocation.contains(0x2000));
    assert!(allocation.contains(0x204f));
    assert!(!allocation.contains(0x2050));
}

fn heap_root(index: usize, address: u64, kind: HeapKind, reason: Option<&str>) -> HeapRoot {
    HeapRoot {
        index,
        address,
        kind,
        supported: kind == HeapKind::Segment,
        reason: reason.map(String::from),
    }
}

#[test]
fn test_scope_lists_unsupported_heaps_explicitly() {
    let roots = vec![
        heap_root(0, 1, HeapKind::Segment, None),
        heap_root(1, 2, HeapKind::Nt, Some("classic")),
        heap_root(2, 3, HeapKind::Unknown, Some("unknown")),
        heap_root(3, 4, HeapKind::Unreadable, Some("unreadable")),
    ];
    let scope = scope_of(&roots);
    assert_eq!(scope.segment_heaps_walked, vec![1]);
    assert_eq!(scope.nt_heaps_skipped, vec![2]);
    assert_eq!(scope.unknown_heaps_skipped, vec![3]);
    assert_eq!(scope.unreadable_heaps_skipped, vec![4]);
}

#[test]
fn test_scoped_diagnostics_select_one_heap_before_the_walk() {
    let roots = vec![
        heap_root(0, 0x10000, HeapKind::Segment, None),
        heap_root(1, 0x20000, HeapKind::Segment, None),
    ];
    let scope = scope_for(&roots, Some(0x20000), true).unwrap();

    assert_eq!(scope.segment_heaps_walked, vec![0x20000]);
}

#[test]
fn test_scoped_diagnostics_reject_unsupported_or_missing_heap() {
    let roots = vec![
        heap_root(0, 0x10000, HeapKind::Nt, Some("classic")),
        heap_root(1, 0x20000, HeapKind::Unreadable, Some("unreadable")),
    ];

    for heap in [0x10000, 0x20000, 0x30000] {
        assert!(matches!(
            scope_for(&roots, Some(heap), true),
            Err(HeapQueryError::UnsupportedHeap { heap: rejected }) if rejected == heap
        ));
    }
}

#[test]
fn test_scoped_diagnostics_leave_unseen_heap_unknown_when_enumeration_expires() {
    let scope = scope_for(&[], Some(0x30000), false).unwrap();

    assert!(scope.segment_heaps_walked.is_empty());
}

#[test]
fn test_root_enumeration_deadline_reports_partial_coverage() {
    let snapshot = truncated_root_snapshot(
        3,
        Some(12),
        Some(Budget::from_secs(2)),
        "the walk ran out of its budget".to_string(),
    );
    let (allocations, walk, diagnostics) = from_pool_snapshot(snapshot);

    assert!(allocations.is_empty());
    assert_eq!(walk.coverage, WalkCoverage::BudgetExpired);
    assert_eq!(walk.diagnostic_count, 1);
    assert_eq!(diagnostics.examples.len(), 1);
    assert!(diagnostics.examples[0].contains("2s budget"));
    assert!(diagnostics.examples[0].contains("3 of 12 PEB heap roots classified"));
    assert!(diagnostics.examples[0].contains("unknown, not absent"));
}

/// A process for root discovery, byte by byte, so a fixture can be laid out the way a
/// measurement found one and a test can then break exactly one thing in it.
#[derive(Default)]
struct Process {
    bytes: HashMap<u64, u8>,
    interrupted: bool,
}

impl Process {
    fn put(&mut self, address: u64, bytes: &[u8]) {
        for (offset, &byte) in bytes.iter().enumerate() {
            self.bytes.insert(address + offset as u64, byte);
        }
    }

    fn put_u64(&mut self, address: u64, value: u64) {
        self.put(address, &value.to_le_bytes());
    }

    fn forget(&mut self, address: u64, size: u64) {
        for offset in 0..size {
            self.bytes.remove(&(address + offset));
        }
    }

    /// A heap of `kind` naming `entry` as its place on the list, at the measured offsets.
    fn heap(&mut self, address: u64, kind: HeapKind, entry: u64) {
        let layout = measured_layout();
        self.put(address, &[0; 0x190]);
        let (signature, named_at) = match kind {
            HeapKind::Segment => (
                (layout.segment_signature, SEGMENT_HEAP_SIGNATURE),
                layout.segment_entry,
            ),
            _ => ((layout.nt_signature, NT_HEAP_SIGNATURE), layout.nt_entry),
        };
        self.put(address + signature.0, &signature.1.to_le_bytes());
        self.put_u64(address + named_at.unwrap(), entry);
    }

    fn read(&self, address: u64, size: usize) -> MemoryReply {
        let bytes: Result<Vec<u8>, DbgEngError> = (0..size)
            .map(|offset| {
                self.bytes.get(&(address + offset as u64)).copied().ok_or(
                    DbgEngError::ShortRead {
                        address,
                        requested: size,
                        actual: offset,
                    },
                )
            })
            .collect();
        match bytes {
            Ok(bytes) => MemoryReply::Bytes(bytes),
            Err(error) => MemoryReply::Failed(error),
        }
    }
}

// The process measured on ARM64 26100.1, stopped after it created a heap of its own. The
// addresses and offsets are that process's.
const PEB: u64 = 0x3e_0cbf_f000;
/// What the PEB's list of heaps points at.
const PEB_ARRAY: u64 = 0x7ffe_77e9_d5a0;
/// The list head: a static in `ntdll`'s data.
const LIST_HEAD: u64 = 0x7ffe_77e9_3440;
const NTDLL: Range<u64> = 0x7ffe_77b0_0000..0x7ffe_77f0_0000;
const PROCESS_HEAP: u64 = 0x1a0_4700_0000;
const NT_HEAP: u64 = 0x1a0_4619_0000;
/// The heap the process created, which the PEB does not name.
const CREATED_HEAP: u64 = 0x1a0_4740_0000;
const ENTRIES: [u64; 3] = [0x1a0_4710_2040, 0x1a0_4711_3100, 0x1a0_4713_6920];

fn measured_layout() -> RootLayout {
    RootLayout {
        number_of_heaps: 0xe8,
        process_heaps: 0xf0,
        segment_signature: 0x10,
        nt_signature: 0x98,
        segment_entry: Some(0x38),
        nt_entry: Some(0x188),
    }
}

fn measured_process() -> Process {
    let mut process = Process::default();
    process.put(PEB + 0xe8, &1u32.to_le_bytes());
    process.put_u64(PEB + 0xf0, PEB_ARRAY);
    process.put_u64(PEB_ARRAY, PROCESS_HEAP);
    let heaps = [
        (PROCESS_HEAP, HeapKind::Segment),
        (NT_HEAP, HeapKind::Nt),
        (CREATED_HEAP, HeapKind::Segment),
    ];
    for (&(heap, kind), &entry) in heaps.iter().zip(&ENTRIES) {
        process.heap(heap, kind, entry);
        process.put_u64(entry + LIST_ENTRY_HEAP, heap);
    }
    let ring = [LIST_HEAD, ENTRIES[0], ENTRIES[1], ENTRIES[2]];
    for (position, &entry) in ring.iter().enumerate() {
        process.put_u64(entry, ring[(position + 1) % ring.len()]);
        process.put_u64(entry + 8, ring[(position + ring.len() - 1) % ring.len()]);
    }
    process.put_u64(LIST_HEAD + LIST_ENTRY_HEAP, 0);
    process
}

fn enumerate_roots(
    process: &Process,
    layout: RootLayout,
    ntdll: Range<u64>,
    deadline_passed: bool,
) -> Result<RootEnumeration, HeapQueryError> {
    let mut walk = RootWalk::new(layout, PEB, ntdll.start, ntdll.end);
    loop {
        let reply = match walk.request() {
            RootRequest::Nothing => return walk.finish(),
            RootRequest::Poll => RootReply::Poll(root_read_budget_expired(
                Ok(process.interrupted),
                deadline_passed,
            )),
            RootRequest::Read { address, size } => {
                RootReply::Memory(process.read(address, size as usize))
            }
        };
        walk = walk.step(reply);
    }
}

fn enumerate(process: &Process, layout: RootLayout, ntdll: Range<u64>) -> RootEnumeration {
    enumerate_roots(process, layout, ntdll, false).unwrap()
}

fn addresses(found: &RootEnumeration) -> Vec<u64> {
    found.roots.iter().map(|root| root.address).collect()
}

fn unseen(found: &RootEnumeration) -> &str {
    assert!(!found.saw_every_root());
    let unseen = found
        .unseen
        .as_deref()
        .expect("an enumeration that could not see every root said nothing about it");
    assert!(unseen.contains("unknown, not absent"), "{unseen}");
    unseen
}

#[test]
fn test_every_heap_on_ntdlls_list_is_a_root_not_only_the_one_the_peb_names() {
    let found = enumerate(&measured_process(), measured_layout(), NTDLL);

    assert_eq!(addresses(&found), [PROCESS_HEAP, NT_HEAP, CREATED_HEAP]);
    let kinds: Vec<_> = found.roots.iter().map(|root| root.kind).collect();
    assert_eq!(kinds, [HeapKind::Segment, HeapKind::Nt, HeapKind::Segment]);
    let indices: Vec<_> = found.roots.iter().map(|root| root.index).collect();
    assert_eq!(
        indices,
        [0, 1, 2],
        "an index is a position in the list's own order"
    );
    assert!(found.saw_every_root(), "{:?}", found.unseen);
    assert_eq!(
        found.total, None,
        "a list has no count to report before it is walked"
    );
}

#[test]
fn test_a_build_keeping_no_list_answers_from_the_peb_as_before() {
    let mut named = measured_process();
    named.put(PEB + 0xe8, &2u32.to_le_bytes());
    named.put_u64(PEB_ARRAY + 8, 0);
    let no_field = RootLayout {
        segment_entry: None,
        nt_entry: None,
        ..measured_layout()
    };
    let mut null_entry = measured_process();
    null_entry.put(PEB + 0xe8, &2u32.to_le_bytes());
    null_entry.put_u64(PEB_ARRAY + 8, 0);
    null_entry.put_u64(PROCESS_HEAP + 0x38, 0);

    for found in [
        enumerate(&named, no_field, NTDLL),
        enumerate(&null_entry, measured_layout(), NTDLL),
    ] {
        assert_eq!(addresses(&found), [PROCESS_HEAP, 0]);
        assert_eq!(found.roots[1].reason.as_deref(), Some("null heap root"));
        assert_eq!(found.total, Some(2));
        assert!(found.saw_every_root(), "{:?}", found.unseen);
    }
}

#[test]
fn test_an_entry_its_heap_does_not_name_back_leaves_the_rest_unseen() {
    let mut process = measured_process();
    process.put_u64(NT_HEAP + 0x188, 0x1a0_4799_0000);

    let found = enumerate(&process, measured_layout(), NTDLL);

    assert_eq!(addresses(&found), [PROCESS_HEAP]);
    let unseen = unseen(&found);
    assert!(unseen.contains(&format!("{:#x}", ENTRIES[1])), "{unseen}");
}

#[test]
fn test_an_entry_that_does_not_link_back_leaves_the_rest_unseen() {
    let mut process = measured_process();
    process.put_u64(ENTRIES[2] + 8, ENTRIES[0]);

    let found = enumerate(&process, measured_layout(), NTDLL);

    assert_eq!(addresses(&found), [PROCESS_HEAP, NT_HEAP]);
    unseen(&found);
}

#[test]
fn test_an_unreadable_entry_leaves_the_rest_unseen() {
    let mut process = measured_process();
    process.forget(ENTRIES[1], 0x18);

    let found = enumerate(&process, measured_layout(), NTDLL);

    assert_eq!(addresses(&found), [PROCESS_HEAP]);
    unseen(&found);
}

#[test]
fn test_a_list_that_loops_short_of_where_it_started_is_unseen() {
    let mut process = measured_process();
    process.put_u64(ENTRIES[2], ENTRIES[1]);

    let found = enumerate(&process, measured_layout(), NTDLL);

    assert_eq!(addresses(&found), [PROCESS_HEAP, NT_HEAP, CREATED_HEAP]);
    unseen(&found);
}

#[test]
fn test_a_list_is_trusted_only_with_exactly_one_head_inside_ntdll() {
    let outside = enumerate(&measured_process(), measured_layout(), 0..0x1000);
    assert_eq!(addresses(&outside), [PROCESS_HEAP, NT_HEAP, CREATED_HEAP]);
    unseen(&outside);

    let everything = enumerate(&measured_process(), measured_layout(), 0..u64::MAX);
    assert_eq!(
        addresses(&everything),
        [PROCESS_HEAP],
        "no entry was a heap's, so only the PEB's root is known"
    );
    unseen(&everything);
}

#[test]
fn test_a_process_heap_that_cannot_be_read_leaves_the_rest_unseen() {
    let mut process = measured_process();
    process.forget(PROCESS_HEAP, 0x190);

    let found = enumerate(&process, measured_layout(), NTDLL);

    assert_eq!(addresses(&found), [PROCESS_HEAP]);
    assert_eq!(found.roots[0].kind, HeapKind::Unreadable);
    assert!(unseen(&found).contains("process heap"));
}

#[test]
fn test_root_enumeration_honours_an_interrupt_and_a_deadline() {
    let mut process = measured_process();
    process.interrupted = true;
    assert!(matches!(
        enumerate_roots(&process, measured_layout(), NTDLL, false),
        Err(HeapQueryError::Interrupted)
    ));

    let found = enumerate_roots(&measured_process(), measured_layout(), NTDLL, true).unwrap();
    assert!(found.budget_expired);
    assert!(!found.saw_every_root());
}

#[test]
fn test_unseen_roots_make_a_complete_walk_partial() {
    let complete = || PoolSnapshot {
        complete: true,
        ..PoolSnapshot::default()
    };

    let (_, walk, _) = from_pool_snapshot(with_unseen_roots(complete(), None, String::new()));
    assert_eq!(walk.coverage, WalkCoverage::Complete);

    let unseen = "ntdll's heap list could not be followed; unknown, not absent".to_string();
    let told = with_unseen_roots(complete(), Some(unseen.clone()), unseen.clone());
    let (_, walk, diagnostics) = from_pool_snapshot(told);
    assert_eq!(walk.coverage, WalkCoverage::Partial);
    assert_eq!(diagnostics.examples, [unseen]);
}

#[test]
fn test_census_key_separates_heap_backend_state_and_size_class() {
    let left = allocation(1, HeapBackend::Lfh, 0x1000, 0x20);
    let mut right = allocation(2, HeapBackend::Lfh, 0x2000, 0x20);
    right.state = HeapState::ReusableFree;
    assert_ne!(
        (left.heap, left.backend, left.state, left.size_class),
        (right.heap, right.backend, right.state, right.size_class)
    );
    let rows = census_of(&[left, right]);
    assert_eq!(rows.len(), 2);
}

#[test]
fn test_neighbourhood_requires_contiguity_and_same_allocator_identity() {
    let previous = allocation(1, HeapBackend::Vs, 0x2000, 0x20);
    let current = allocation(1, HeapBackend::Vs, previous.end(), 0x20);
    let next = allocation(1, HeapBackend::Vs, current.end(), 0x20);
    let found = neighbourhood_at(
        &[previous.clone(), current.clone(), next.clone()],
        current.user_address + 3,
    )
    .unwrap();
    assert_eq!(found.offset, 3);
    assert_eq!(found.previous, Some(previous));
    assert_eq!(found.next, Some(next));

    let header = neighbourhood_at(std::slice::from_ref(&current), current.header_address).unwrap();
    assert_eq!(header.offset, -0x10);

    let other_heap = allocation(2, HeapBackend::Vs, current.end(), 0x20);
    let found = neighbourhood_at(&[current.clone(), other_heap], current.user_address).unwrap();
    assert!(found.next.is_none(), "neighbours may not cross a heap root");
}

#[test]
fn test_census_totals_and_sorts_heaviest_first() {
    let allocations = vec![
        allocation(1, HeapBackend::Lfh, 0x1000, 0x20),
        allocation(1, HeapBackend::Lfh, 0x2000, 0x20),
        allocation(2, HeapBackend::Large, 0x3000, 0x1000),
    ];
    let rows = census_of(&allocations);
    assert_eq!(rows.len(), 2);
    assert_eq!(rows[0].backend, HeapBackend::Large);
    assert_eq!(rows[0].total_capacity, 0x1000);
    assert_eq!(rows[1].chunks, 2);
    assert_eq!(rows[1].total_capacity, 0x40);
}

#[test]
fn test_a_teb_with_a_32_bit_teb_beside_it_is_refused() {
    const TEB: u64 = 0x2fd_e000;
    const FIELD: u64 = 0x180c;
    let asked = |process: &Process, teb: u64| -> Result<(), HeapQueryError> {
        let field = wow_teb_field(teb, FIELD)?;
        wow_teb_offset(field, process.read(field, 4))
    };
    let with = |value: i32| {
        let mut process = Process::default();
        process.put(TEB + FIELD, &value.to_le_bytes());
        asked(&process, TEB)
    };

    assert!(with(0).is_ok());
    assert!(matches!(
        with(0x2000),
        Err(HeapQueryError::Wow64Process {
            wow_teb_offset: 0x2000
        })
    ));
    assert!(matches!(
        with(-0x2000),
        Err(HeapQueryError::Wow64Process {
            wow_teb_offset: -0x2000
        })
    ));
    assert!(matches!(
        asked(&Process::default(), TEB),
        Err(HeapQueryError::InvalidTeb(_))
    ));
    assert!(matches!(
        asked(&Process::default(), 0),
        Err(HeapQueryError::InvalidTeb(_))
    ));
}
