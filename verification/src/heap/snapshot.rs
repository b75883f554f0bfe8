//! A heap walk from the cache to the cache: what is served, what is walked and what is kept.
use vstd::prelude::*;
use vstd::string::*;

use super::enumerate::RootEnumeration;
use super::pool::{
    as_many_chunks_as_spans, chunks_of, count_in, coverage_of, from_pool_snapshot, in_place_order,
    same_chunks, spans_in, the_same_chunks_are_listed, truncated_root_line,
    truncated_root_snapshot, truncated_text, truncated_view, with_unseen_roots, PoolSnapshot,
    PoolSnapshotView, PoolState,
};
use super::scope::{heaps_of, only, refused, scope_for, scope_view, ScopeView};
use super::types::{
    DiagnosticShape, HeapAllocation, HeapDiagnosticReport, HeapKind, HeapQueryError, HeapRoot,
    HeapScope, HeapWalkReport, LayoutProvenance, QueryErrorView,
};
use super::walk::{Budget, HeapWalk};
use crate::dbgeng::module::KernelImage;

verus! {

/// The most chunks a walk decodes.
pub const WALK_CHUNK_LIMIT: usize = 1_000_000;

/// What a snapshot is of.
#[derive(Debug, Clone, Copy, PartialEq, Eq, Structural, Hash)]
pub struct SnapshotKey {
    pub target: u64,
    pub process_system_id: u32,
    pub peb: u64,
    pub image: KernelImage,
    pub generation: u64,
    /// A scoped diagnostic walk is a different snapshot from the all-heaps walk.
    pub heap: Option<u64>,
}

/// Everything one heap walk answered.
#[derive(Debug)]
pub struct HeapSnapshot {
    pub roots: Vec<HeapRoot>,
    pub allocations: Vec<HeapAllocation>,
    pub layout: LayoutProvenance,
    pub scope: HeapScope,
    pub walk: HeapWalkReport,
    pub diagnostics: HeapDiagnosticReport,
}

/// A [`HeapSnapshot`] as sequences.
#[verifier::ext_equal]
pub struct SnapshotView {
    pub roots: Seq<HeapRoot>,
    pub allocations: Seq<HeapAllocation>,
    pub layout: LayoutProvenance,
    pub scope: ScopeView,
    pub walk: HeapWalkReport,
    pub categories: Seq<DiagnosticShape>,
    pub examples: Seq<String>,
}

impl View for HeapSnapshot {
    type V = SnapshotView;

    open spec fn view(&self) -> SnapshotView {
        SnapshotView {
            roots: self.roots@,
            allocations: self.allocations@,
            layout: self.layout,
            scope: self.scope@,
            walk: self.walk,
            categories: self.diagnostics.categories@,
            examples: self.diagnostics.examples@,
        }
    }
}

/// Copies roots.
pub fn copy_roots(roots: &Vec<HeapRoot>) -> (copy: Vec<HeapRoot>)
    ensures
        copy@ == roots@,
{
    let mut copy: Vec<HeapRoot> = Vec::new();
    let mut i: usize = 0;
    while i < roots.len()
        invariant
            i <= roots.len(),
            copy@ == roots@.take(i as int),
        decreases roots.len() - i,
    {
        copy.push(roots[i].duplicate());
        i = i + 1;
        assert(copy@ =~= roots@.take(i as int));
    }
    assert(roots@.take(i as int) =~= roots@);
    copy
}

/// Copies chunks.
pub fn copy_allocations(allocations: &Vec<HeapAllocation>) -> (copy: Vec<HeapAllocation>)
    ensures
        copy@ == allocations@,
{
    let mut copy: Vec<HeapAllocation> = Vec::new();
    let mut i: usize = 0;
    while i < allocations.len()
        invariant
            i <= allocations.len(),
            copy@ == allocations@.take(i as int),
        decreases allocations.len() - i,
    {
        copy.push(allocations[i]);
        i = i + 1;
        assert(copy@ =~= allocations@.take(i as int));
    }
    assert(allocations@.take(i as int) =~= allocations@);
    copy
}

impl HeapDiagnosticReport {
    /// The same report again.
    pub fn duplicate(&self) -> (report: HeapDiagnosticReport)
        ensures
            report.categories@ == self.categories@,
            report.examples@ == self.examples@,
    {
        let mut categories: Vec<DiagnosticShape> = Vec::new();
        let mut i: usize = 0;
        while i < self.categories.len()
            invariant
                i <= self.categories.len(),
                categories@ == self.categories@.take(i as int),
            decreases self.categories.len() - i,
        {
            let shape = DiagnosticShape {
                shape: self.categories[i].shape.clone(),
                count: self.categories[i].count,
            };
            categories.push(shape);
            i = i + 1;
            assert(categories@ =~= self.categories@.take(i as int));
        }
        assert(self.categories@.take(i as int) =~= self.categories@);
        let mut examples: Vec<String> = Vec::new();
        let mut j: usize = 0;
        while j < self.examples.len()
            invariant
                j <= self.examples.len(),
                examples@ == self.examples@.take(j as int),
            decreases self.examples.len() - j,
        {
            examples.push(self.examples[j].clone());
            j = j + 1;
            assert(examples@ =~= self.examples@.take(j as int));
        }
        assert(self.examples@.take(j as int) =~= self.examples@);
        HeapDiagnosticReport { categories, examples }
    }
}

impl LayoutProvenance {
    /// The same provenance again.
    pub fn duplicate(&self) -> (layout: LayoutProvenance)
        ensures
            layout == *self,
    {
        LayoutProvenance { module: self.module.duplicate() }
    }
}

impl HeapSnapshot {
    /// The same snapshot again.
    pub fn duplicate(&self) -> (snapshot: HeapSnapshot)
        ensures
            snapshot@ == self@,
    {
        HeapSnapshot {
            roots: copy_roots(&self.roots),
            allocations: copy_allocations(&self.allocations),
            layout: self.layout.duplicate(),
            scope: self.scope.duplicate(),
            walk: self.walk,
            diagnostics: self.diagnostics.duplicate(),
        }
    }
}

/// The last complete snapshot, and what it is of.
pub struct SnapshotCache {
    pub entry: Option<(SnapshotKey, HeapSnapshot)>,
}

impl View for SnapshotCache {
    type V = Option<(SnapshotKey, SnapshotView)>;

    open spec fn view(&self) -> Option<(SnapshotKey, SnapshotView)> {
        match self.entry {
            Some((key, snapshot)) => Some((key, snapshot@)),
            None => None,
        }
    }
}

impl Default for SnapshotCache {
    fn default() -> (cache: SnapshotCache)
        ensures
            cache@ is None,
    {
        SnapshotCache { entry: None }
    }
}

impl SnapshotCache {
    /// Whether what is kept is the whole of what there was to find.
    pub open spec fn wf(&self) -> bool {
        self@ matches Some((key, snapshot)) ==> {
            &&& snapshot.walk.coverage is Complete
            &&& in_place_order(snapshot.allocations)
        }
    }

    /// The snapshot kept for this key.
    pub fn get(&self, key: SnapshotKey) -> (snapshot: Option<HeapSnapshot>)
        ensures
            snapshot is Some == (self@ matches Some((cached, _)) && cached == key),
            snapshot matches Some(snapshot) ==> self@ == Some((key, snapshot@)),
    {
        match &self.entry {
            Some((cached, snapshot)) => if *cached == key {
                Some(snapshot.duplicate())
            } else {
                None
            },
            None => None,
        }
    }

    /// Keeps a snapshot in place of whatever was kept.
    pub fn put(&mut self, key: SnapshotKey, snapshot: HeapSnapshot)
        ensures
            final(self)@ == Some((key, snapshot@)),
    {
        self.entry = Some((key, snapshot));
    }

    /// Keeps nothing.
    pub fn invalidate(&mut self)
        ensures
            final(self)@ is None,
    {
        self.entry = None;
    }
}

/// Drops the user-heap snapshot while retaining what was resolved of `ntdll`.
pub fn invalidate_snapshot(snapshots: &mut SnapshotCache)
    ensures
        final(snapshots)@ is None,
{
    snapshots.invalidate();
}

/// Drops the user-heap snapshot, and what was resolved of `ntdll`.
pub fn invalidate_caches<L>(snapshots: &mut SnapshotCache, layouts: &mut Option<L>)
    ensures
        final(snapshots)@ is None,
        *final(layouts) is None,
{
    invalidate_snapshot(snapshots);
    *layouts = None;
}

/// How a walk begins.
pub enum WalkStart {
    /// With the answer, already known.
    Cached(HeapSnapshot),
    /// With finding the roots.
    Enumerate,
}

impl WalkStart {
    /// The snapshot a walk is answered with before it is made.
    pub open spec fn served(&self) -> Option<SnapshotView> {
        match self {
            WalkStart::Cached(snapshot) => Some(snapshot@),
            WalkStart::Enumerate => None,
        }
    }
}

/// What a cache that holds `kept` serves to a walk, and what it then holds: a refreshed walk
/// forgets what was kept, and another is answered from it where the key is the same.
pub open spec fn begun(
    kept: Option<(SnapshotKey, SnapshotView)>,
    refresh: bool,
    key: SnapshotKey,
) -> (Option<SnapshotView>, Option<(SnapshotKey, SnapshotView)>) {
    if refresh {
        (None, None)
    } else {
        match kept {
            Some((cached, snapshot)) => if cached == key {
                (Some(snapshot), kept)
            } else {
                (None, kept)
            },
            None => (None, kept),
        }
    }
}

/// What a cache holds after a walk has come to a snapshot: only a complete one is kept.
pub open spec fn ended(
    kept: Option<(SnapshotKey, SnapshotView)>,
    key: SnapshotKey,
    snapshot: SnapshotView,
) -> Option<(SnapshotKey, SnapshotView)> {
    if snapshot.walk.coverage is Complete {
        Some((key, snapshot))
    } else {
        kept
    }
}

/// Begins a walk: a refreshed one forgets what was kept, and another is answered from it where
/// it is of the same target, process, image and scope.
pub fn begin_walk(cache: &mut SnapshotCache, walk: HeapWalk, key: SnapshotKey) -> (start: WalkStart)
    ensures
        (start.served(), final(cache)@) == begun(old(cache)@, walk.refresh, key),
        old(cache).wf() ==> final(cache).wf(),
{
    if walk.refresh {
        cache.invalidate();
        return WalkStart::Enumerate;
    }
    match cache.get(key) {
        Some(snapshot) => WalkStart::Cached(snapshot),
        None => WalkStart::Enumerate,
    }
}

/// What is left to do once the roots are known.
pub struct WalkPlan {
    pub roots: Vec<HeapRoot>,
    pub scope: HeapScope,
    pub work: PoolWork,
}

/// What the allocator walker is asked for.
pub enum PoolWork {
    /// Nothing: time ran out among the roots. How many there are, where that was known, and what
    /// the walk was allowed.
    Truncated { total: Option<usize>, budget: Option<Budget> },
    /// The Segment Heaps in scope, within what is left of the budget.
    Walk { remaining: Option<Budget>, unseen: Option<String> },
}

impl WalkPlan {
    /// Whether what the walk was allowed is a span of time.
    pub open spec fn wf(&self) -> bool {
        self.work matches PoolWork::Truncated { budget: Some(budget), .. } ==> budget.wf()
    }

    /// What the walk has to say beside what the allocator walker says.
    pub open spec fn says(&self) -> Option<Seq<char>> {
        match self.work {
            PoolWork::Truncated { total, budget } => Some(
                truncated_text(self.roots@.len(), total, budget),
            ),
            PoolWork::Walk { unseen: Some(unseen), .. } => Some(unseen@),
            PoolWork::Walk { unseen: None, .. } => None,
        }
    }

    /// What the walk has to say beside what the allocator walker says, if anything: the line whose
    /// shape it is finished with.
    pub fn complaint(&self) -> (line: Option<String>)
        requires
            self.wf(),
        ensures
            line is Some == self.says() is Some,
            line matches Some(line) ==> line@ == self.says()->0,
    {
        match &self.work {
            PoolWork::Truncated { total, budget } => Some(
                truncated_root_line(self.roots.len(), *total, *budget),
            ),
            PoolWork::Walk { unseen: Some(unseen), .. } => Some(unseen.clone()),
            PoolWork::Walk { unseen: None, .. } => None,
        }
    }
}

/// The scope of a walk over roots, as far as no allocator region needs to be walked for it.
pub open spec fn planned_scope(roots: Seq<HeapRoot>, heap: Option<u64>) -> ScopeView {
    match heap {
        None => scope_view(roots),
        Some(heap) => ScopeView {
            segment_heaps_walked: only(heaps_of(roots, HeapKind::Segment), heap),
            ..scope_view(roots)
        },
    }
}

/// Whether a plan is the one for the roots that were found, with what is left of the budget once
/// `elapsed` of it has passed.
pub open spec fn planned(
    enumeration: RootEnumeration,
    heap: Option<u64>,
    walk: HeapWalk,
    elapsed: Budget,
    plan: WalkPlan,
) -> bool {
    &&& plan.wf()
    &&& plan.roots@ == enumeration.roots@
    &&& plan.work is Truncated == enumeration.budget_expired
    &&& enumeration.budget_expired ==> {
        &&& plan.scope@ == (ScopeView {
            segment_heaps_walked: Seq::empty(),
            ..planned_scope(enumeration.roots@, heap)
        })
        &&& plan.work == (PoolWork::Truncated {
            total: enumeration.total,
            budget: walk.budget,
        })
    }
    &&& !enumeration.budget_expired ==> {
        &&& plan.scope@ == planned_scope(enumeration.roots@, heap)
        &&& plan.work->unseen == enumeration.unseen
        &&& plan.work->remaining is Some == walk.budget is Some
        &&& walk.budget matches Some(budget) ==> {
            &&& plan.work->remaining->0.wf()
            &&& plan.work->remaining->0.total() == if budget.total() > elapsed.total() {
                budget.total() - elapsed.total()
            } else {
                0
            }
        }
    }
}

/// Plans the walk over the roots that were found. `elapsed` is how long finding them took.
///
/// A walk whose budget ran out among the roots walks no allocator region, and says how far it
/// got.
pub fn plan_walk(
    enumeration: RootEnumeration,
    heap: Option<u64>,
    walk: HeapWalk,
    elapsed: Budget,
) -> (plan: Result<WalkPlan, HeapQueryError>)
    requires
        walk.budget matches Some(budget) ==> budget.wf(),
        elapsed.wf(),
    ensures
        plan is Err == (heap is Some && refused(
            enumeration.roots@,
            heap->0,
            enumeration@.saw_every_root(),
        )),
        plan matches Err(error) ==> error@ == (QueryErrorView::UnsupportedHeap { heap: heap->0 }),
        plan matches Ok(plan) ==> planned(enumeration, heap, walk, elapsed, plan),
{
    let complete: bool = enumeration.saw_every_root();
    let scope = match scope_for(enumeration.roots.as_slice(), heap, complete) {
        Ok(scope) => scope,
        Err(error) => return Err(error),
    };
    if enumeration.budget_expired {
        let scope = HeapScope { segment_heaps_walked: Vec::new(), ..scope };
        let work = PoolWork::Truncated { total: enumeration.total, budget: walk.budget };
        return Ok(WalkPlan { roots: enumeration.roots, scope, work });
    }
    let remaining = match walk.budget {
        None => None,
        Some(budget) => Some(budget.saturating_sub(elapsed)),
    };
    Ok(
        WalkPlan {
            roots: enumeration.roots,
            scope,
            work: PoolWork::Walk { remaining, unseen: enumeration.unseen },
        },
    )
}

/// Why the allocator walker gave nothing back.
pub enum SnapshotFault {
    Interrupted,
    Other(String),
}

/// The snapshot the allocator walker's answer comes to, with what the roots left unseen. What the
/// plan says is of `shape`.
pub open spec fn pool_of(
    plan: WalkPlan,
    walked: Result<PoolSnapshot, SnapshotFault>,
    shape: Seq<char>,
) -> PoolSnapshotView {
    match plan.work {
        PoolWork::Truncated { total, budget } => truncated_view(
            plan.roots@.len(),
            total,
            budget,
            shape,
        ),
        PoolWork::Walk { unseen: None, .. } => walked->Ok_0@,
        PoolWork::Walk { unseen: Some(unseen), .. } => PoolSnapshotView {
            complete: false,
            diagnostics: walked->Ok_0@.diagnostics.with_line(shape, unseen@),
            ..walked->Ok_0@
        },
    }
}

/// Whether a snapshot is what a plan and the walker's answer come to.
pub open spec fn concludes(
    plan: WalkPlan,
    walked: Result<PoolSnapshot, SnapshotFault>,
    shape: Seq<char>,
    layout: LayoutProvenance,
    snapshot: SnapshotView,
) -> bool {
    let pool = pool_of(plan, walked, shape);
    &&& snapshot.roots == plan.roots@
    &&& snapshot.layout == layout
    &&& snapshot.scope == plan.scope@
    &&& in_place_order(snapshot.allocations)
    &&& same_chunks(chunks_of(pool.spans), snapshot.allocations)
    &&& snapshot.walk.coverage == coverage_of(pool.complete, pool.budget_expired)
    &&& snapshot.walk.total_chunks == snapshot.allocations.len()
    &&& snapshot.walk.allocated_chunks == count_in(
        snapshot.allocations,
        super::types::HeapState::Allocated,
    )
    &&& snapshot.walk.unreadable_gaps == count_in(
        snapshot.allocations,
        super::types::HeapState::Unreadable,
    )
    &&& snapshot.walk.diagnostic_count == pool.diagnostics.emitted
    &&& snapshot.walk.refused_headers == pool.refused_chunks
    &&& snapshot.walk.unplaced_bytes == pool.unplaced_bytes
    &&& snapshot.walk.stalls == pool.stalls
    &&& super::pool::shape_views(snapshot.categories) == pool.diagnostics.shapes
    &&& super::pool::texts(snapshot.examples) == pool.diagnostics.examples
}

/// Concludes a walk with what the allocator walker answered, which is not asked where time ran
/// out among the roots. `shape` is that of the plan's complaint, and is not looked at where it has
/// none. Only a complete snapshot is kept.
pub fn finish_walk(
    cache: &mut SnapshotCache,
    key: SnapshotKey,
    plan: WalkPlan,
    walked: Result<PoolSnapshot, SnapshotFault>,
    shape: String,
    layout: LayoutProvenance,
) -> (snapshot: Result<HeapSnapshot, HeapQueryError>)
    requires
        plan.wf(),
    ensures
        snapshot is Err == (plan.work is Walk && walked is Err),
        snapshot matches Err(error) ==> error@ == (match walked->Err_0 {
            SnapshotFault::Interrupted => QueryErrorView::Interrupted,
            SnapshotFault::Other(why) => QueryErrorView::Walk(why@),
        }),
        snapshot is Err ==> final(cache)@ == old(cache)@,
        snapshot matches Ok(snapshot) ==> concludes(plan, walked, shape@, layout, snapshot@),
        snapshot matches Ok(snapshot) ==> final(cache)@ == ended(old(cache)@, key, snapshot@),
        old(cache).wf() ==> final(cache).wf(),
{
    let pool = match plan.work {
        PoolWork::Truncated { total, budget } => truncated_root_snapshot(
            plan.roots.len(),
            total,
            budget,
            shape,
        ),
        PoolWork::Walk { unseen, .. } => match walked {
            Ok(walked) => with_unseen_roots(walked, unseen, shape),
            Err(SnapshotFault::Interrupted) => return Err(HeapQueryError::Interrupted),
            Err(SnapshotFault::Other(why)) => return Err(HeapQueryError::Walk(why)),
        },
    };
    let (allocations, report, diagnostics) = from_pool_snapshot(pool);
    let total: usize = allocations.len();
    assert(report.total_chunks == total);
    let snapshot = HeapSnapshot {
        roots: plan.roots,
        allocations,
        layout,
        scope: plan.scope,
        walk: report,
        diagnostics,
    };
    proof {
        super::pool::lemma_count_in_bound(
            snapshot.allocations@,
            super::types::HeapState::Allocated,
        );
        super::pool::lemma_count_in_bound(
            snapshot.allocations@,
            super::types::HeapState::Unreadable,
        );
    }
    if snapshot.walk.coverage.complete() {
        cache.put(key, snapshot.duplicate());
    }
    Ok(snapshot)
}

/// A walk is complete only where every root was seen: unseen roots make it partial, and running
/// out of time among the roots makes it expired, whatever the allocator walker says.
pub proof fn a_complete_walk_saw_every_root(
    enumeration: RootEnumeration,
    heap: Option<u64>,
    walk: HeapWalk,
    elapsed: Budget,
    plan: WalkPlan,
    walked: Result<PoolSnapshot, SnapshotFault>,
    shape: Seq<char>,
    layout: LayoutProvenance,
    snapshot: SnapshotView,
)
    requires
        planned(enumeration, heap, walk, elapsed, plan),
        concludes(plan, walked, shape, layout, snapshot),
        snapshot.walk.coverage is Complete,
    ensures
        enumeration@.saw_every_root(),
        walked->Ok_0@.complete,
{
}

/// What a complete walk came to is what the next walk of the same key is answered with, unless it
/// is refreshed.
pub proof fn a_complete_walk_is_served_again(
    kept: Option<(SnapshotKey, SnapshotView)>,
    key: SnapshotKey,
    snapshot: SnapshotView,
)
    requires
        snapshot.walk.coverage is Complete,
    ensures
        begun(ended(kept, key, snapshot), false, key).0 == Some(snapshot),
        begun(ended(kept, key, snapshot), true, key).0 is None,
{
}

/// A walk is never answered with an incomplete one, nor with one of another key: of another
/// target or process, from before the target last moved, or of another scope.
pub proof fn nothing_else_is_served(
    cache: SnapshotCache,
    refresh: bool,
    key: SnapshotKey,
    incomplete: SnapshotView,
)
    requires
        cache.wf(),
        !(incomplete.walk.coverage is Complete),
    ensures
        begun(cache@, refresh, key).0 matches Some(snapshot) ==> {
            &&& snapshot.walk.coverage is Complete
            &&& cache@ == Some((key, snapshot))
        },
        ended(cache@, key, incomplete) == cache@,
{
}

/// A snapshot is told as it is.
pub proof fn a_heap_snapshot_is_told_as_it_is(snapshot: HeapSnapshot)
    ensures
        snapshot@.roots == snapshot.roots@,
        snapshot@.allocations == snapshot.allocations@,
        snapshot@.layout == snapshot.layout,
        snapshot@.scope == snapshot.scope@,
        snapshot@.walk == snapshot.walk,
        snapshot@.categories == snapshot.diagnostics.categories@,
        snapshot@.examples == snapshot.diagnostics.examples@,
{
}

/// A kept snapshot is served exactly where it was kept under the same key and no fresh one was
/// asked for; asking for one drops it, and nothing else does.
pub proof fn a_snapshot_is_served_where_it_fits(
    kept: Option<(SnapshotKey, SnapshotView)>,
    refresh: bool,
    key: SnapshotKey,
    snapshot: SnapshotView,
)
    ensures
        begun(kept, refresh, key).0 == Some(snapshot) <==> !refresh && kept == Some(
            (key, snapshot),
        ),
        begun(kept, refresh, key).0 is None <==> refresh || kept is None || (kept matches Some(
            (cached, _),
        ) && cached != key),
        refresh ==> begun(kept, refresh, key).1 is None,
        !refresh ==> begun(kept, refresh, key).1 == kept,
{
}

/// A snapshot is kept exactly where its walk was complete, and in place of what was kept before.
pub proof fn only_a_complete_walk_is_kept(
    kept: Option<(SnapshotKey, SnapshotView)>,
    key: SnapshotKey,
    snapshot: SnapshotView,
)
    ensures
        snapshot.walk.coverage is Complete ==> ended(kept, key, snapshot) == Some((key, snapshot)),
        !(snapshot.walk.coverage is Complete) ==> ended(kept, key, snapshot) == kept,
{
}

/// A plan walks the roots that were found, under the scope they have. Where time ran out among the
/// roots it walks none of them and says what was allowed; and else it has what is left of the
/// budget, and says what was not seen.
pub proof fn a_plan_is_what_was_found(
    enumeration: RootEnumeration,
    heap: Option<u64>,
    walk: HeapWalk,
    elapsed: Budget,
    plan: WalkPlan,
)
    requires
        planned(enumeration, heap, walk, elapsed, plan),
    ensures
        plan.roots@ == enumeration.roots@,
        plan.work is Truncated <==> enumeration.budget_expired,
        plan.work is Truncated ==> plan.work->total == enumeration.total && plan.work->budget
            == walk.budget && plan.scope@.segment_heaps_walked.len() == 0,
        plan.work is Walk ==> plan.work->unseen == enumeration.unseen,
        plan.work is Walk && walk.budget is None ==> plan.work->remaining is None,
        plan.work is Walk && (walk.budget matches Some(budget) && budget.total() > elapsed.total())
            ==> plan.work->remaining is Some && plan.work->remaining->0.total() + elapsed.total()
            == walk.budget->0.total(),
        plan.work is Walk && (walk.budget matches Some(budget) && budget.total()
            <= elapsed.total()) ==> plan.work->remaining is Some
            && plan.work->remaining->0.total() == 0,
        plan.work is Walk && heap is None ==> plan.scope@.segment_heaps_walked == heaps_of(
            enumeration.roots@,
            HeapKind::Segment,
        ),
        plan.work is Walk && heap is Some ==> plan.scope@.segment_heaps_walked == only(
            heaps_of(enumeration.roots@, HeapKind::Segment),
            heap->0,
        ),
        plan.scope@.nt_heaps_skipped == heaps_of(enumeration.roots@, HeapKind::Nt),
        plan.scope@.unknown_heaps_skipped == heaps_of(enumeration.roots@, HeapKind::Unknown),
        plan.scope@.unreadable_heaps_skipped == heaps_of(enumeration.roots@, HeapKind::Unreadable),
{
}

/// A plan has something to say exactly where time ran out among the roots or some were not seen,
/// and then it is what was not seen.
pub proof fn a_plan_says_what_was_not_seen(plan: WalkPlan)
    ensures
        plan.says() is None <==> plan.work is Walk && plan.work->unseen is None,
        plan.work is Walk ==> (plan.work->unseen matches Some(unseen) ==> plan.says() == Some(
            unseen@,
        )),
        plan.work is Truncated ==> plan.says() == Some(
            truncated_text(plan.roots@.len(), plan.work->total, plan.work->budget),
        ),
{
}

/// A snapshot holds what the walker found, and counts it as the walker found it: as many chunks
/// are allocated as spans were, and so for what could not be read; headers that were refused,
/// bytes that were not placed and stalls are the walker's own numbers. It is complete exactly
/// where the walker was and every root was seen.
pub proof fn a_snapshot_holds_what_was_walked(
    plan: WalkPlan,
    walked: PoolSnapshot,
    shape: Seq<char>,
    layout: LayoutProvenance,
    snapshot: SnapshotView,
)
    requires
        concludes(plan, Ok::<PoolSnapshot, SnapshotFault>(walked), shape, layout, snapshot),
        plan.work is Walk,
    ensures
        snapshot.roots == plan.roots@,
        snapshot.layout == layout,
        snapshot.scope == plan.scope@,
        snapshot.allocations.to_multiset() == chunks_of(walked.spans@).to_multiset(),
        snapshot.walk.total_chunks == walked.spans@.len(),
        snapshot.walk.allocated_chunks == spans_in(walked.spans@, PoolState::Allocated),
        snapshot.walk.unreadable_gaps == spans_in(walked.spans@, PoolState::Unreadable),
        snapshot.walk.refused_headers == walked.refused_chunks,
        snapshot.walk.unplaced_bytes == walked.unplaced_bytes,
        snapshot.walk.stalls == walked.stalls,
        snapshot.walk.coverage is Complete <==> walked.complete && plan.work->unseen is None,
        snapshot.walk.coverage is BudgetExpired <==> !(walked.complete && plan.work->unseen is None)
            && walked.budget_expired,
        plan.work->unseen is None ==> snapshot.walk.diagnostic_count == walked.diagnostics.emitted,
        plan.work->unseen is Some && walked.diagnostics.emitted < usize::MAX
            ==> snapshot.walk.diagnostic_count == walked.diagnostics.emitted + 1,
{
    let pool = pool_of(plan, Ok::<PoolSnapshot, SnapshotFault>(walked), shape);
    assert(pool.spans == walked.spans@);
    as_many_chunks_as_spans(walked.spans@, snapshot.allocations);
    the_same_chunks_are_listed(chunks_of(walked.spans@), snapshot.allocations);
}

/// A walk that ran out of time among the roots holds no chunk and is not complete, whatever the
/// walker said.
pub proof fn a_truncated_walk_holds_nothing(
    plan: WalkPlan,
    walked: Result<PoolSnapshot, SnapshotFault>,
    shape: Seq<char>,
    layout: LayoutProvenance,
    snapshot: SnapshotView,
)
    requires
        concludes(plan, walked, shape, layout, snapshot),
        plan.work is Truncated,
    ensures
        snapshot.roots == plan.roots@,
        snapshot.allocations.len() == 0,
        snapshot.walk.coverage is BudgetExpired,
        snapshot.walk.total_chunks == 0,
        snapshot.walk.allocated_chunks == 0,
        snapshot.walk.refused_headers == 0,
        snapshot.walk.unplaced_bytes == 0,
        snapshot.walk.diagnostic_count == 1,
{
}

/// A walk that starts with an answer serves it, and one that starts with finding the roots serves
/// none.
pub proof fn a_walk_serves_what_it_starts_with(start: WalkStart)
    ensures
        start matches WalkStart::Cached(snapshot) ==> start.served() == Some(snapshot@),
        start is Enumerate <==> start.served() is None,
{
}

/// A snapshot says what the walker said, shape by shape and line by line, and where roots were not
/// seen that as well.
pub proof fn a_snapshot_says_what_the_walker_said(
    plan: WalkPlan,
    walked: PoolSnapshot,
    shape: Seq<char>,
    layout: LayoutProvenance,
    snapshot: SnapshotView,
    i: int,
)
    requires
        concludes(plan, Ok::<PoolSnapshot, SnapshotFault>(walked), shape, layout, snapshot),
        plan.work is Walk,
        plan.work->unseen is None,
    ensures
        snapshot.categories.len() == walked.diagnostics.shapes@.len(),
        snapshot.examples.len() == walked.diagnostics.examples@.len(),
        0 <= i < snapshot.categories.len() ==> snapshot.categories[i].shape@
            == walked.diagnostics.shapes@[i].shape@ && snapshot.categories[i].count
            == walked.diagnostics.shapes@[i].count,
        0 <= i < snapshot.examples.len() ==> snapshot.examples[i]@
            == walked.diagnostics.examples@[i]@,
{
    let ours = super::pool::shape_views(snapshot.categories);
    let theirs = walked@.diagnostics.shapes;
    assert(ours == theirs);
    assert(ours.len() == theirs.len());
    if 0 <= i < ours.len() {
        assert(ours[i] == theirs[i]);
    }
    let said = super::pool::texts(snapshot.examples);
    let heard = walked@.diagnostics.examples;
    assert(said == heard);
    assert(said.len() == heard.len());
    if 0 <= i < said.len() {
        assert(said[i] == heard[i]);
    }
}

} // verus!
