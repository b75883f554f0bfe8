use dbgscope::dbgeng::error::{DbgEngError, EngineFault};
use dbgscope::dbgeng::module::{KernelImage, ModuleIdentity, SymbolKind};
use dbgscope::heap::census::census_of;
use dbgscope::heap::enumerate::{root_read_budget_expired, PollReply, RootEnumeration};
use dbgscope::heap::neighbours::neighbourhood_at;
use dbgscope::heap::pool::{
    from_pool_snapshot, truncated_line, truncated_root_snapshot, with_unseen_roots, PoolBackend,
    PoolDiagnostics, PoolSnapshot, PoolSpan, PoolState,
};
use dbgscope::heap::query::{allocations, census, chunk_at, diagnostics, list};
use dbgscope::heap::roots::{classify_root, MemoryReply, RootFields, RootLayout};
use dbgscope::heap::scope::scope_of;
use dbgscope::heap::snapshot::{
    begin_walk, finish_walk, invalidate_caches, invalidate_snapshot, plan_walk, HeapSnapshot,
    PoolWork, SnapshotCache, SnapshotFault, SnapshotKey, WalkStart,
};
use dbgscope::heap::target::{
    map_layout_error, missing_wow_field, outranked, poll_layout, require_type_info,
    validate_target, wow_teb_field, wow_teb_offset, LayoutError, TargetAnswers,
};
use dbgscope::heap::types::{
    HeapAllocation, HeapBackend, HeapKind, HeapQueryError, HeapRoot, HeapState, LayoutProvenance,
    WalkCoverage,
};
use dbgscope::heap::walk::{Budget, HeapWalk, DEFAULT_WALK_BUDGET};

fn span(address: u64, size: u64) -> PoolSpan {
    PoolSpan {
        heap: 0x10000,
        backend: PoolBackend::Vs,
        state: PoolState::Allocated,
        header_address: address,
        usable_address: address + 0x10,
        size,
        requested_size: None,
        subsegment: Some(1),
        size_class: size as u32,
    }
}

fn key(heap: Option<u64>) -> SnapshotKey {
    SnapshotKey {
        target: 7,
        process_system_id: 100,
        peb: 0x7fff_0000_1000,
        image: KernelImage {
            base: 1,
            size: 2,
            timestamp: 3,
            checksum: 4,
        },
        generation: 3,
        heap,
    }
}

fn identity(symbols: SymbolKind, symbol_file: &str) -> ModuleIdentity {
    ModuleIdentity {
        name: "ntdll".to_string(),
        image_name: "ntdll.dll".to_string(),
        loaded_image_name: "ntdll.dll".to_string(),
        symbol_file: symbol_file.to_string(),
        symbols,
        base: 1,
        size: 2,
        timestamp: 3,
        checksum: 4,
    }
}

fn layout() -> LayoutProvenance {
    LayoutProvenance {
        module: identity(SymbolKind::Pdb, "ntdll.pdb"),
    }
}

fn root(index: usize, address: u64, kind: HeapKind) -> HeapRoot {
    HeapRoot {
        index,
        address,
        kind,
        supported: kind == HeapKind::Segment,
        reason: None,
    }
}

fn found(unseen: Option<&str>, budget_expired: bool) -> RootEnumeration {
    RootEnumeration {
        roots: vec![
            root(0, 0x10000, HeapKind::Segment),
            root(1, 0x20000, HeapKind::Segment),
            root(2, 0x30000, HeapKind::Nt),
        ],
        total: None,
        budget_expired,
        unseen: unseen.map(String::from),
    }
}

fn walked(complete: bool) -> PoolSnapshot {
    PoolSnapshot {
        complete,
        spans: vec![span(0x2000, 0x20), span(0x1000, 0x40)],
        ..PoolSnapshot::default()
    }
}

fn snapshot(cache: &mut SnapshotCache, complete: bool) -> HeapSnapshot {
    let plan = plan_walk(
        found(None, false),
        None,
        HeapWalk::cached(),
        Budget::from_secs(1),
    )
    .unwrap();
    assert!(plan.complaint().is_none());
    let shape = String::new();
    finish_walk(cache, key(None), plan, Ok(walked(complete)), shape, layout()).unwrap()
}

#[test]
fn a_walk_is_asked_for_with_a_budget() {
    assert_eq!(DEFAULT_WALK_BUDGET, 120);
    let cached = HeapWalk::from(false);
    assert!(!cached.refresh);
    assert_eq!(cached.budget, Some(Budget::from_secs(120)));
    assert!(HeapWalk::from(true).refresh);
    assert!(HeapWalk::refreshed().refresh);
    assert_eq!(
        HeapWalk::refreshed().within(Budget::from_secs(30)).budget,
        Some(Budget::from_secs(30))
    );
}

#[test]
fn what_is_left_of_a_budget_is_never_negative() {
    let of = |secs, nanos| Budget { secs, nanos };
    assert_eq!(of(2, 0).saturating_sub(of(0, 1)), of(1, 999_999_999));
    assert_eq!(of(2, 5).saturating_sub(of(1, 5)), of(1, 0));
    assert_eq!(of(1, 0).saturating_sub(of(2, 0)), of(0, 0));
    assert_eq!(of(1, 4).saturating_sub(of(1, 5)), of(0, 0));
}

#[test]
fn chunks_come_out_in_place_order_and_are_counted() {
    let mut pool = walked(true);
    pool.spans[0].state = PoolState::Unreadable;
    pool.refused_chunks = 3;
    pool.unplaced_bytes = 9;
    let (chunks, report, _) = from_pool_snapshot(pool);
    let places: Vec<u64> = chunks.iter().map(|chunk| chunk.user_address).collect();
    assert_eq!(places, [0x1010, 0x2010]);
    assert_eq!(report.coverage, WalkCoverage::Complete);
    assert!(report.coverage.complete());
    assert_eq!(report.total_chunks, 2);
    assert_eq!(report.allocated_chunks, 1);
    assert_eq!(report.unreadable_gaps, 1);
    assert_eq!(report.refused_headers, 3);
    assert_eq!(report.unplaced_bytes, 9);
}

#[test]
fn an_expired_budget_is_told_from_a_gap() {
    let coverage = |complete, budget_expired| {
        let pool = PoolSnapshot {
            complete,
            budget_expired,
            ..PoolSnapshot::default()
        };
        from_pool_snapshot(pool).1.coverage
    };
    assert_eq!(coverage(true, false), WalkCoverage::Complete);
    assert_eq!(coverage(false, true), WalkCoverage::BudgetExpired);
    assert_eq!(coverage(false, false), WalkCoverage::Partial);
}

#[test]
fn a_truncated_walk_says_how_far_it_got() {
    let text = |classified, total, budget| {
        truncated_root_snapshot(classified, total, budget, "out of time".to_string())
            .diagnostics
            .examples[0]
            .clone()
    };
    let half = Budget {
        secs: 1,
        nanos: 500_000_000,
    };
    assert!(text(1, None, Some(half)).contains("1.5s"));
    assert!(text(2, Some(5), None).contains("2 of 5"));
}

#[test]
fn only_a_complete_walk_is_kept() {
    let mut cache = SnapshotCache::default();
    snapshot(&mut cache, false);
    assert!(matches!(
        begin_walk(&mut cache, HeapWalk::cached(), key(None)),
        WalkStart::Enumerate
    ));
    snapshot(&mut cache, true);
    assert!(matches!(
        begin_walk(&mut cache, HeapWalk::cached(), key(None)),
        WalkStart::Cached(kept) if kept.allocations.len() == 2
    ));
    assert!(matches!(
        begin_walk(&mut cache, HeapWalk::cached(), key(Some(0x10000))),
        WalkStart::Enumerate
    ));
    assert!(matches!(
        begin_walk(&mut cache, HeapWalk::refreshed(), key(None)),
        WalkStart::Enumerate
    ));
    assert!(cache.get(key(None)).is_none(), "a refresh forgets first");

    snapshot(&mut cache, true);
    invalidate_snapshot(&mut cache);
    assert!(cache.get(key(None)).is_none());
    snapshot(&mut cache, true);
    let mut layouts = Some(5);
    invalidate_caches(&mut cache, &mut layouts);
    assert!(cache.get(key(None)).is_none() && layouts.is_none());
}

#[test]
fn a_walk_keeps_what_the_roots_left_unseen() {
    let mut cache = SnapshotCache::default();
    let plan = plan_walk(
        found(Some("unknown, not absent"), false),
        None,
        HeapWalk::cached(),
        Budget::from_secs(1),
    )
    .unwrap();
    assert!(matches!(
        &plan.work,
        PoolWork::Walk { remaining: Some(left), .. } if *left == Budget::from_secs(119)
    ));
    assert_eq!(plan.complaint().unwrap(), "unknown, not absent");
    let shape = "unknown".to_string();
    let walked = Ok(walked(true));
    let snapshot = finish_walk(&mut cache, key(None), plan, walked, shape, layout()).unwrap();
    assert_eq!(snapshot.walk.coverage, WalkCoverage::Partial);
    assert_eq!(snapshot.diagnostics.examples, ["unknown, not absent"]);
    assert_eq!(snapshot.diagnostics.categories.len(), 1);
    assert_eq!(snapshot.diagnostics.categories[0].shape, "unknown");
    assert_eq!(snapshot.diagnostics.categories[0].count, 1);
    assert!(cache.get(key(None)).is_none());
}

#[test]
fn a_walk_that_runs_out_among_the_roots_walks_nothing() {
    let mut cache = SnapshotCache::default();
    let plan = plan_walk(
        found(None, true),
        None,
        HeapWalk::cached(),
        Budget::from_secs(121),
    )
    .unwrap();
    assert!(plan.scope.segment_heaps_walked.is_empty());
    assert_eq!(plan.scope.nt_heaps_skipped, [0x30000]);
    let snapshot = finish_walk(
        &mut cache,
        key(None),
        plan,
        Err(SnapshotFault::Other("not asked".to_string())),
        "out of time".to_string(),
        layout(),
    )
    .unwrap();
    assert_eq!(snapshot.walk.coverage, WalkCoverage::BudgetExpired);
    assert!(snapshot.allocations.is_empty());
}

#[test]
fn a_walk_of_one_heap_is_of_that_heap_alone() {
    let plan = |heap| {
        plan_walk(
            found(None, false),
            Some(heap),
            HeapWalk::cached(),
            Budget::from_secs(0),
        )
    };
    assert_eq!(
        plan(0x20000).unwrap().scope.segment_heaps_walked,
        [0x20000]
    );
    assert!(matches!(
        plan(0x30000),
        Err(HeapQueryError::UnsupportedHeap { heap: 0x30000 })
    ));
}

#[test]
fn a_walk_that_fails_says_why() {
    let mut cache = SnapshotCache::default();
    let mut fails = |fault| {
        let plan = plan_walk(
            found(None, false),
            None,
            HeapWalk::cached(),
            Budget::from_secs(0),
        )
        .unwrap();
        let shape = String::new();
        finish_walk(&mut cache, key(None), plan, Err(fault), shape, layout()).unwrap_err()
    };
    assert!(matches!(
        fails(SnapshotFault::Interrupted),
        HeapQueryError::Interrupted
    ));
    assert_eq!(
        fails(SnapshotFault::Other("torn".to_string())).to_text(),
        "walking the heap failed: torn"
    );
}

#[test]
fn every_answer_carries_its_walk() {
    let mut cache = SnapshotCache::default();
    let snapshot = snapshot(&mut cache, true);
    let roots = list(&snapshot);
    assert_eq!(roots.found.len(), 3);
    assert_eq!(roots.scope.segment_heaps_walked, [0x10000, 0x20000]);
    assert_eq!(roots.walk, snapshot.walk);
    assert_eq!(roots.layout, snapshot.layout);
    let chunks = allocations(&snapshot);
    assert_eq!(chunks.found, snapshot.allocations);
    let at = chunk_at(&snapshot, 0x1012);
    assert_eq!(at.found.unwrap().offset, 2);
    assert!(chunk_at(&snapshot, 0x9000).found.is_none());
    let rows = census(&snapshot).found;
    assert_eq!(rows.len(), 2);
    assert_eq!(rows[0].total_capacity, 0x40);
    assert!(diagnostics(&snapshot).found.examples.is_empty());
}

fn chunk(address: u64, capacity: u64) -> HeapAllocation {
    HeapAllocation {
        heap: 1,
        backend: HeapBackend::Vs,
        state: HeapState::Allocated,
        header_address: address,
        user_address: address + 0x10,
        capacity,
        requested_size: None,
        subsegment: None,
        size_class: 0,
    }
}

#[test]
fn a_neighbour_that_cannot_be_read_is_none() {
    let first = chunk(0x1000, 0x10);
    let mut second = chunk(first.end(), 0x10);
    second.state = HeapState::Unreadable;
    let at = neighbourhood_at(&[first, second], first.user_address).unwrap();
    assert_eq!(at.next, None);
    let mut gap = chunk(first.end() + 1, 0x10);
    gap.state = HeapState::Allocated;
    let at = neighbourhood_at(&[first, gap], first.user_address).unwrap();
    assert_eq!(at.next, None, "what does not touch is no neighbour");
    assert!(neighbourhood_at(&[], 5).is_none());
}

#[test]
fn a_census_counts_every_chunk_once_and_does_not_overflow() {
    let mut huge = chunk(0x1000, u64::MAX);
    huge.capacity = u64::MAX;
    let rows = census_of(&[huge, huge, chunk(0x5000, 1)]);
    assert_eq!(rows.len(), 1);
    assert_eq!(rows[0].chunks, 3);
    assert_eq!(rows[0].total_capacity, u64::MAX);
    let mut freed = chunk(0x6000, 8);
    freed.state = HeapState::CachedFree;
    let rows = census_of(&[chunk(0x5000, 8), freed]);
    assert_eq!(rows.len(), 2);
    assert_eq!(rows.iter().map(|row| row.chunks).sum::<usize>(), 2);
}

#[test]
fn a_reason_is_given_for_every_root_that_is_not_walked() {
    let (kind, reason) = classify_root(Err("first".into()), Err("second".into()));
    assert_eq!(kind, HeapKind::Unreadable);
    assert_eq!(
        reason.as_deref(),
        Some("cannot read Segment signature (first) or NT signature (second)")
    );
    let (kind, reason) = classify_root(Err("first".into()), Ok(0));
    assert_eq!(kind, HeapKind::Unknown);
    assert!(reason.is_some());
    let scope = scope_of(&[root(0, 5, HeapKind::Unknown)]);
    assert_eq!(scope.unknown_heaps_skipped, [5]);
}

#[test]
fn a_layout_needs_its_four_fields() {
    let fields = |number: Result<u64, String>| RootFields {
        number_of_heaps: number,
        process_heaps: Ok(1),
        segment_signature: Ok(2),
        nt_signature: Ok(3),
        segment_entry: Err("no such field".to_string()),
        nt_entry: Ok(5),
    };
    let layout = RootLayout::of(fields(Ok(0))).unwrap();
    assert_eq!(layout.segment_entry, None);
    assert_eq!(layout.nt_entry, Some(5));
    assert!(matches!(
        RootLayout::of(fields(Err("missing".to_string()))),
        Err(HeapQueryError::Layout(why)) if why == "missing"
    ));
}

fn answers() -> TargetAnswers {
    TargetAnswers {
        kernel: Ok(false),
        status: Some(Ok(6)),
        machine: Some(Ok(0x8664)),
        peb: Some(Ok(0x1000)),
        process_system_id: Some(Ok(42)),
    }
}

#[test]
fn only_a_stopped_native_process_is_walked() {
    let valid = validate_target(answers(), 7, 3).unwrap();
    assert_eq!((valid.peb, valid.process_system_id), (0x1000, 42));
    let refused = |answers: TargetAnswers| validate_target(answers, 7, 3).unwrap_err().to_text();
    assert_eq!(
        refused(TargetAnswers {
            kernel: Ok(true),
            status: None,
            machine: None,
            peb: None,
            process_system_id: None,
        }),
        "heap queries require a user-mode target"
    );
    let status = |status| TargetAnswers {
        status: Some(Ok(status)),
        machine: None,
        peb: None,
        process_system_id: None,
        ..answers()
    };
    assert_eq!(refused(status(7)), "no debuggee is loaded");
    assert_eq!(
        refused(status(1)),
        "the target is not stopped (execution status 0x1); break in before walking heaps"
    );
    assert_eq!(
        refused(TargetAnswers {
            machine: Some(Ok(0x14c)),
            peb: None,
            process_system_id: None,
            ..answers()
        }),
        "heap walking supports x64 and ARM64 targets only (machine 0x14c)"
    );
    assert_eq!(
        refused(TargetAnswers {
            peb: Some(Ok(0)),
            process_system_id: None,
            ..answers()
        }),
        "invalid PEB heap metadata: DbgEng returned a null PEB"
    );
    assert_eq!(
        refused(TargetAnswers {
            process_system_id: Some(Err(DbgEngError::InvalidOutput)),
            ..answers()
        }),
        "debugger text contains an interior NUL"
    );
}

#[test]
fn a_poll_outranks_an_answer() {
    assert!(poll_layout(Ok(false), false).is_ok());
    assert!(matches!(
        poll_layout(Ok(true), true),
        Err(LayoutError::Interrupted)
    ));
    assert!(matches!(
        poll_layout(Ok(false), true),
        Err(LayoutError::BudgetExpired)
    ));
    assert!(matches!(
        poll_layout(Err("no".to_string()), true),
        Err(LayoutError::Other(_))
    ));
    assert_eq!(outranked(Ok(()), Ok(5)).unwrap(), 5);
    assert!(matches!(
        outranked::<u32>(Err(LayoutError::Interrupted), Ok(5)),
        Err(HeapQueryError::Interrupted)
    ));
    assert!(matches!(
        map_layout_error(LayoutError::BudgetExpired),
        HeapQueryError::BudgetExpired
    ));
    assert!(matches!(
        root_read_budget_expired(Ok(true), true),
        PollReply::Interrupted
    ));
    assert!(matches!(
        root_read_budget_expired(Ok(false), true),
        PollReply::Expired
    ));
}

#[test]
fn private_types_are_asked_for() {
    assert!(require_type_info(&identity(SymbolKind::Pdb, "ntdll.pdb")).is_ok());
    assert!(require_type_info(&identity(SymbolKind::Dia, "ntdll.pdb")).is_ok());
    for module in [
        identity(SymbolKind::Pdb, ""),
        identity(SymbolKind::Export, "ntdll.pdb"),
    ] {
        assert_eq!(
            require_type_info(&module).unwrap_err().to_text(),
            "missing or unsupported ntdll allocator layout (DbgEng did not load private PDB type \
             information for ntdll); run `.reload /f ntdll.dll` and retry"
        );
    }
    let fault = EngineFault {
        code: -1,
        text: "no".to_string(),
    };
    let missing = missing_wow_field(&DbgEngError::CommandFailed(fault));
    assert!(missing.to_text().contains("_TEB.WowTebOffset"));
}

#[test]
fn a_teb_beyond_the_address_space_is_refused() {
    assert!(matches!(
        wow_teb_field(u64::MAX, 1),
        Err(HeapQueryError::InvalidTeb(_))
    ));
    assert_eq!(wow_teb_field(0x1000, 0x10).unwrap(), 0x1010);
    let wow = wow_teb_offset(0x1010, MemoryReply::Bytes(vec![0xff; 4])).unwrap_err();
    assert!(wow.to_text().contains("(_TEB.WowTebOffset is -1)"));
}

#[test]
fn every_query_failure_says_what_it_is() {
    assert_eq!(
        HeapQueryError::UnsupportedHeap { heap: 0x10 }.to_text(),
        "heap selector 0x10 is not a supported Segment Heap root of the current process"
    );
    assert_eq!(
        HeapQueryError::Interrupted.to_text(),
        "the heap walk was interrupted on request"
    );
    assert_eq!(
        HeapQueryError::BudgetExpired.to_text(),
        "the heap walk ran out of its budget while resolving the ntdll allocator layout"
    );
    assert_eq!(
        HeapQueryError::InvalidTeb("x".to_string()).to_text(),
        "invalid TEB: x"
    );
}

#[test]
fn complaints_are_counted_by_shape() {
    let mut diagnostics = PoolDiagnostics::none();
    let mut sparse = |address: u64| {
        diagnostics.push(
            "sparse virtual range at #".to_string(),
            format!("sparse virtual range at {address:#x}"),
        )
    };
    for page in 0..10 {
        sparse(page * 0x1000);
    }
    diagnostics.push("stale list pointer".to_string(), "stale list pointer".to_string());
    diagnostics.push(
        "sparse virtual range at #".to_string(),
        "sparse virtual range at 0xa000".to_string(),
    );
    assert_eq!(diagnostics.emitted, 12);
    let told: Vec<(&str, u64)> = diagnostics
        .shapes
        .iter()
        .map(|shape| (shape.shape.as_str(), shape.count))
        .collect();
    assert_eq!(
        told,
        [("sparse virtual range at #", 11), ("stale list pointer", 1)]
    );
    assert_eq!(diagnostics.examples.len(), 9);
    assert_eq!(diagnostics.examples[7], "sparse virtual range at 0x7000");
    assert_eq!(diagnostics.examples[8], "stale list pointer");
}

#[test]
fn an_unseen_root_is_told_with_the_walkers_own_shape() {
    let shape = || "followed past #".to_string();
    let mut pool = walked(true);
    pool.diagnostics.push(shape(), "followed past 0x10".to_string());
    let told = with_unseen_roots(pool, Some("followed past 0x20".to_string()), shape());
    assert!(!told.complete);
    assert_eq!(told.diagnostics.shapes.len(), 1);
    assert_eq!(told.diagnostics.shapes[0].count, 2);
    assert_eq!(
        told.diagnostics.examples,
        ["followed past 0x10", "followed past 0x20"]
    );
}

#[test]
fn the_line_of_a_truncated_walk_is_spelled_out() {
    assert_eq!(
        truncated_line(3, Some(12), Some("2s")),
        "the walk ran out of its 2s budget while enumerating heap roots: 3 of 12 PEB heap roots \
         classified; what is missing is unknown, not absent"
    );
    assert_eq!(
        truncated_line(0, None, None),
        "the walk ran out of its walk budget while enumerating heap roots: 0 heap roots \
         classified before their number was known; what is missing is unknown, not absent"
    );
}
