//! What the shared allocator walker hands back, and what a heap query makes of it.
use vstd::prelude::*;
use vstd::std_specs::convert::{FromSpec, FromSpecImpl};
use vstd::string::*;

use super::types::{
    DiagnosticShape, HeapAllocation, HeapBackend, HeapDiagnosticReport, HeapState, HeapWalkReport,
    WalkCoverage, WalkStalls,
};
use super::walk::{Budget, NANOS_PER_SEC};
use crate::dbgeng::text::characters;
use crate::text::{decimal, decimal_text, joined};

verus! {

/// Which allocator end the walker found a span in.
#[derive(Debug, Clone, Copy, PartialEq, Eq, Structural)]
pub enum PoolBackend {
    Lfh,
    Vs,
    Segment,
    Large,
}

/// What the walker found a span to be.
#[derive(Debug, Clone, Copy, PartialEq, Eq, Structural)]
pub enum PoolState {
    Allocated,
    ReusableFree,
    CachedFree,
    Unreadable,
}

/// The heap's name for an allocator end.
pub open spec fn backend_of(value: PoolBackend) -> HeapBackend {
    match value {
        PoolBackend::Lfh => HeapBackend::Lfh,
        PoolBackend::Vs => HeapBackend::Vs,
        PoolBackend::Segment => HeapBackend::Segment,
        PoolBackend::Large => HeapBackend::Large,
    }
}

/// The heap's name for what a span is.
pub open spec fn state_of(value: PoolState) -> HeapState {
    match value {
        PoolState::Allocated => HeapState::Allocated,
        PoolState::ReusableFree => HeapState::ReusableFree,
        PoolState::CachedFree => HeapState::CachedFree,
        PoolState::Unreadable => HeapState::Unreadable,
    }
}

impl FromSpecImpl<PoolBackend> for HeapBackend {
    open spec fn obeys_from_spec() -> bool {
        true
    }

    open spec fn from_spec(value: PoolBackend) -> HeapBackend {
        backend_of(value)
    }
}

impl From<PoolBackend> for HeapBackend {
    fn from(value: PoolBackend) -> (backend: HeapBackend) {
        match value {
            PoolBackend::Lfh => HeapBackend::Lfh,
            PoolBackend::Vs => HeapBackend::Vs,
            PoolBackend::Segment => HeapBackend::Segment,
            PoolBackend::Large => HeapBackend::Large,
        }
    }
}

impl FromSpecImpl<PoolState> for HeapState {
    open spec fn obeys_from_spec() -> bool {
        true
    }

    open spec fn from_spec(value: PoolState) -> HeapState {
        state_of(value)
    }
}

impl From<PoolState> for HeapState {
    fn from(value: PoolState) -> (state: HeapState) {
        match value {
            PoolState::Allocated => HeapState::Allocated,
            PoolState::ReusableFree => HeapState::ReusableFree,
            PoolState::CachedFree => HeapState::CachedFree,
            PoolState::Unreadable => HeapState::Unreadable,
        }
    }
}

/// One span of memory the walker accounts for.
#[derive(Debug, Clone, Copy, PartialEq, Eq, Structural)]
pub struct PoolSpan {
    pub heap: u64,
    pub backend: PoolBackend,
    pub state: PoolState,
    pub header_address: u64,
    pub usable_address: u64,
    pub size: u64,
    pub requested_size: Option<u64>,
    pub subsegment: Option<u64>,
    pub size_class: u32,
}

impl PoolSpan {
    /// The span as a chunk of a user heap.
    pub open spec fn as_allocation(self) -> HeapAllocation {
        HeapAllocation {
            heap: self.heap,
            backend: backend_of(self.backend),
            state: state_of(self.state),
            header_address: self.header_address,
            user_address: self.usable_address,
            capacity: self.size,
            requested_size: self.requested_size,
            subsegment: self.subsegment,
            size_class: self.size_class,
        }
    }

    /// The span as a chunk of a user heap.
    pub fn allocation(&self) -> (allocation: HeapAllocation)
        ensures
            allocation == self.as_allocation(),
    {
        HeapAllocation {
            heap: self.heap,
            backend: HeapBackend::from(self.backend),
            state: HeapState::from(self.state),
            header_address: self.header_address,
            user_address: self.usable_address,
            capacity: self.size,
            requested_size: self.requested_size,
            subsegment: self.subsegment,
            size_class: self.size_class,
        }
    }
}

/// What a walk complained about.
#[derive(Debug)]
pub struct PoolDiagnostics {
    /// How many lines were raised, kept or not.
    pub emitted: usize,
    /// The lines' shapes, each with how often it was raised.
    pub shapes: Vec<DiagnosticShape>,
    /// The lines kept verbatim.
    pub examples: Vec<String>,
}

/// A [`PoolDiagnostics`] as sequences of texts.
#[verifier::ext_equal]
pub struct DiagnosticsView {
    pub emitted: nat,
    pub shapes: Seq<(Seq<char>, u64)>,
    pub examples: Seq<Seq<char>>,
}

/// The texts of lines.
pub open spec fn texts(lines: Seq<String>) -> Seq<Seq<char>> {
    Seq::new(lines.len(), |i: int| lines[i]@)
}

/// The shapes and their counts.
pub open spec fn shape_views(shapes: Seq<DiagnosticShape>) -> Seq<(Seq<char>, u64)> {
    Seq::new(shapes.len(), |i: int| (shapes[i].shape@, shapes[i].count))
}

impl View for PoolDiagnostics {
    type V = DiagnosticsView;

    open spec fn view(&self) -> DiagnosticsView {
        DiagnosticsView {
            emitted: self.emitted as nat,
            shapes: shape_views(self.shapes@),
            examples: texts(self.examples@),
        }
    }
}

/// How many lines of a shape are kept verbatim.
pub const EXAMPLES_PER_SHAPE: u64 = 8;

/// Where a shape first stands among others, or their number where it is not among them.
pub open spec fn shape_place(shapes: Seq<(Seq<char>, u64)>, shape: Seq<char>) -> int
    decreases shapes.len(),
{
    if shapes.len() == 0 {
        0
    } else {
        let before = shape_place(shapes.drop_last(), shape);
        if before == shapes.len() - 1 && shapes.last().0 != shape {
            shapes.len() as int
        } else {
            before
        }
    }
}

impl DiagnosticsView {
    /// No complaint at all.
    pub open spec fn nothing() -> DiagnosticsView {
        DiagnosticsView { emitted: 0, shapes: Seq::empty(), examples: Seq::empty() }
    }

    /// How often a shape was raised.
    pub open spec fn total(self, shape: Seq<char>) -> u64 {
        let place = shape_place(self.shapes, shape);
        if place < self.shapes.len() {
            self.shapes[place].1
        } else {
            0
        }
    }

    /// The same, with one more line of a shape: it adds to the shape's total, and is kept while
    /// fewer of its shape than may be were raised.
    pub open spec fn with_line(self, shape: Seq<char>, line: Seq<char>) -> DiagnosticsView {
        let place = shape_place(self.shapes, shape);
        let total = self.total(shape);
        DiagnosticsView {
            emitted: if self.emitted < usize::MAX {
                self.emitted + 1
            } else {
                self.emitted
            },
            shapes: if place == self.shapes.len() {
                self.shapes.push((shape, 1))
            } else if total < u64::MAX {
                self.shapes.update(place, (shape, (total + 1) as u64))
            } else {
                self.shapes
            },
            examples: if total < EXAMPLES_PER_SHAPE {
                self.examples.push(line)
            } else {
                self.examples
            },
        }
    }
}

proof fn lemma_shape_place(shapes: Seq<(Seq<char>, u64)>, shape: Seq<char>)
    ensures
        0 <= shape_place(shapes, shape) <= shapes.len(),
        shape_place(shapes, shape) < shapes.len() ==> shapes[shape_place(shapes, shape)].0 == shape,
        forall|i: int| 0 <= i < shape_place(shapes, shape) ==> (#[trigger] shapes[i]).0 != shape,
    decreases shapes.len(),
{
    if shapes.len() > 0 {
        let front = shapes.drop_last();
        lemma_shape_place(front, shape);
        assert forall|i: int| 0 <= i < shape_place(shapes, shape) implies (
        #[trigger] shapes[i]).0 != shape by {
            if i < front.len() {
                assert(front[i] == shapes[i]);
            }
        }
    }
}

proof fn lemma_shape_place_is(shapes: Seq<(Seq<char>, u64)>, shape: Seq<char>, place: int)
    requires
        0 <= place <= shapes.len(),
        place < shapes.len() ==> shapes[place].0 == shape,
        forall|i: int| 0 <= i < place ==> (#[trigger] shapes[i]).0 != shape,
    ensures
        shape_place(shapes, shape) == place,
{
    lemma_shape_place(shapes, shape);
}

/// What the lines of these shapes come to, raised in order. A line is the shape and the text.
pub open spec fn raised(lines: Seq<(Seq<char>, Seq<char>)>) -> DiagnosticsView
    decreases lines.len(),
{
    if lines.len() == 0 {
        DiagnosticsView::nothing()
    } else {
        raised(lines.drop_last()).with_line(lines.last().0, lines.last().1)
    }
}

/// How many lines are of a shape.
pub open spec fn of_shape(lines: Seq<(Seq<char>, Seq<char>)>, shape: Seq<char>) -> nat
    decreases lines.len(),
{
    if lines.len() == 0 {
        0
    } else {
        of_shape(lines.drop_last(), shape) + if lines.last().0 == shape {
            1nat
        } else {
            0
        }
    }
}

/// The texts of the lines that are among the first of their shape, in order.
pub open spec fn first_of_shapes(lines: Seq<(Seq<char>, Seq<char>)>) -> Seq<Seq<char>>
    decreases lines.len(),
{
    if lines.len() == 0 {
        Seq::empty()
    } else {
        let before = first_of_shapes(lines.drop_last());
        if of_shape(lines.drop_last(), lines.last().0) < EXAMPLES_PER_SHAPE {
            before.push(lines.last().1)
        } else {
            before
        }
    }
}

/// Whether no shape stands twice.
pub open spec fn told_once(diagnostics: DiagnosticsView) -> bool {
    forall|i: int, j: int|
        0 <= i < j < diagnostics.shapes.len() ==> (#[trigger] diagnostics.shapes[i]).0 != (
        #[trigger] diagnostics.shapes[j]).0
}

/// A line is counted with its shape, and with no other: its shape's total grows by one, no other
/// total moves, and no shape comes to stand twice.
pub proof fn a_line_counts_for_its_shape(
    diagnostics: DiagnosticsView,
    shape: Seq<char>,
    line: Seq<char>,
)
    ensures
        told_once(diagnostics) ==> told_once(diagnostics.with_line(shape, line)),
        diagnostics.total(shape) < u64::MAX ==> diagnostics.with_line(shape, line).total(shape)
            == diagnostics.total(shape) + 1,
        forall|other: Seq<char>|
            other != shape ==> #[trigger] diagnostics.with_line(shape, line).total(other)
                == diagnostics.total(other),
{
    let after = diagnostics.with_line(shape, line);
    let place = shape_place(diagnostics.shapes, shape);
    lemma_shape_place(diagnostics.shapes, shape);
    assert forall|i: int| 0 <= i < place implies (#[trigger] after.shapes[i]).0 != shape by {
        assert(after.shapes[i] == diagnostics.shapes[i]);
    }
    lemma_shape_place_is(after.shapes, shape, place);
    assert forall|other: Seq<char>| other != shape implies #[trigger] after.total(other)
        == diagnostics.total(other) by {
        let at = shape_place(diagnostics.shapes, other);
        lemma_shape_place(diagnostics.shapes, other);
        let moved = if at == diagnostics.shapes.len() {
            after.shapes.len() as int
        } else {
            at
        };
        assert forall|i: int| 0 <= i < moved implies (#[trigger] after.shapes[i]).0 != other by {
            if i < diagnostics.shapes.len() {
                assert(diagnostics.shapes[i].0 == after.shapes[i].0);
            }
        }
        lemma_shape_place_is(after.shapes, other, moved);
    }
    if told_once(diagnostics) {
        assert forall|i: int, j: int| 0 <= i < j < after.shapes.len() implies (
        #[trigger] after.shapes[i]).0 != (#[trigger] after.shapes[j]).0 by {
            assert(after.shapes[i].0 == diagnostics.shapes[i].0);
            if j < diagnostics.shapes.len() {
                assert(after.shapes[j].0 == diagnostics.shapes[j].0);
            }
        }
    }
}

proof fn lemma_of_shape_bound(lines: Seq<(Seq<char>, Seq<char>)>, shape: Seq<char>)
    ensures
        of_shape(lines, shape) <= lines.len(),
    decreases lines.len(),
{
    if lines.len() > 0 {
        lemma_of_shape_bound(lines.drop_last(), shape);
    }
}

/// However many lines are raised, they are told by shape: every shape stands once, with as many
/// as were raised of it, and the lines that are kept are the first of each shape.
pub proof fn complaints_are_told_by_shape(lines: Seq<(Seq<char>, Seq<char>)>)
    requires
        lines.len() <= u64::MAX,
    ensures
        told_once(raised(lines)),
        forall|shape: Seq<char>| #[trigger] raised(lines).total(shape) == of_shape(lines, shape),
        raised(lines).examples == first_of_shapes(lines),
    decreases lines.len(),
{
    if lines.len() > 0 {
        let front = lines.drop_last();
        let (shape, line) = lines.last();
        complaints_are_told_by_shape(front);
        lemma_of_shape_bound(front, shape);
        assert(raised(front).total(shape) == of_shape(front, shape));
        a_line_counts_for_its_shape(raised(front), shape, line);
        assert forall|other: Seq<char>| #[trigger] raised(lines).total(other) == of_shape(
            lines,
            other,
        ) by {
            assert(raised(front).total(other) == of_shape(front, other));
        }
    }
}

/// Whether two texts are the same.
fn same_text(left: &str, right: &str) -> (same: bool)
    ensures
        same == (left@ == right@),
{
    let ours = characters(left);
    let theirs = characters(right);
    if ours.len() != theirs.len() {
        return false;
    }
    let mut i: usize = 0;
    while i < ours.len() && ours[i] == theirs[i]
        invariant
            i <= ours@.len() == theirs@.len(),
            forall|j: int| 0 <= j < i ==> ours@[j] == theirs@[j],
        decreases ours@.len() - i,
    {
        i += 1;
    }
    if i == ours.len() {
        assert(ours@ =~= theirs@);
    }
    i == ours.len()
}

impl PoolDiagnostics {
    /// No complaint at all.
    pub fn none() -> (diagnostics: PoolDiagnostics)
        ensures
            diagnostics@ == DiagnosticsView::nothing(),
    {
        let diagnostics = PoolDiagnostics {
            emitted: 0,
            shapes: Vec::new(),
            examples: Vec::new(),
        };
        assert(diagnostics@.shapes =~= Seq::empty());
        assert(diagnostics@.examples =~= Seq::empty());
        diagnostics
    }

    fn place(&self, shape: &str) -> (place: usize)
        ensures
            place == shape_place(self@.shapes, shape@),
    {
        let mut place: usize = 0;
        while place < self.shapes.len() && !same_text(self.shapes[place].shape.as_str(), shape)
            invariant
                place <= self.shapes@.len(),
                forall|i: int| 0 <= i < place ==> (#[trigger] self@.shapes[i]).0 != shape@,
            decreases self.shapes@.len() - place,
        {
            assert(self@.shapes[place as int].0 != shape@);
            place += 1;
        }
        proof {
            lemma_shape_place_is(self@.shapes, shape@, place as int);
        }
        place
    }

    /// Raises a line of a shape: it is counted with the lines of that shape, and kept verbatim
    /// while it is among the first of them. The shape is the line with what varies generalised,
    /// its addresses among them, as the allocator walker generalises its own.
    pub fn push(&mut self, shape: String, line: String)
        ensures
            final(self)@ == old(self)@.with_line(shape@, line@),
    {
        let ghost before = self@;
        self.emitted = self.emitted.saturating_add(1);
        let place: usize = self.place(shape.as_str());
        proof {
            lemma_shape_place(before.shapes, shape@);
        }
        let mut total: u64 = 0;
        if place < self.shapes.len() {
            total = self.shapes[place].count;
            let told = DiagnosticShape { shape, count: total.saturating_add(1) };
            self.shapes.set(place, told);
        } else {
            self.shapes.push(DiagnosticShape { shape, count: 1 });
        }
        assert(shape_views(self.shapes@) =~= before.with_line(shape@, line@).shapes);
        assert(total == before.total(shape@));
        if total < EXAMPLES_PER_SHAPE {
            self.examples.push(line);
        }
        assert(self@ =~= before.with_line(shape@, line@));
    }
}

/// Everything one walk found.
#[derive(Debug)]
pub struct PoolSnapshot {
    pub complete: bool,
    pub budget_expired: bool,
    pub spans: Vec<PoolSpan>,
    pub diagnostics: PoolDiagnostics,
    pub refused_chunks: u64,
    pub unplaced_bytes: u64,
    pub stalls: WalkStalls,
}

/// A [`PoolSnapshot`] as sequences.
#[verifier::ext_equal]
pub struct PoolSnapshotView {
    pub complete: bool,
    pub budget_expired: bool,
    pub spans: Seq<PoolSpan>,
    pub diagnostics: DiagnosticsView,
    pub refused_chunks: u64,
    pub unplaced_bytes: u64,
    pub stalls: WalkStalls,
}

impl View for PoolSnapshot {
    type V = PoolSnapshotView;

    open spec fn view(&self) -> PoolSnapshotView {
        PoolSnapshotView {
            complete: self.complete,
            budget_expired: self.budget_expired,
            spans: self.spans@,
            diagnostics: self.diagnostics@,
            refused_chunks: self.refused_chunks,
            unplaced_bytes: self.unplaced_bytes,
            stalls: self.stalls,
        }
    }
}

impl PoolSnapshotView {
    /// A walk that found nothing and claims nothing.
    pub open spec fn nothing() -> PoolSnapshotView {
        PoolSnapshotView {
            complete: false,
            budget_expired: false,
            spans: Seq::empty(),
            diagnostics: DiagnosticsView::nothing(),
            refused_chunks: 0,
            unplaced_bytes: 0,
            stalls: WalkStalls { count: 0 },
        }
    }
}

impl Default for PoolSnapshot {
    fn default() -> (snapshot: PoolSnapshot)
        ensures
            snapshot@ == PoolSnapshotView::nothing(),
    {
        PoolSnapshot {
            complete: false,
            budget_expired: false,
            spans: Vec::new(),
            diagnostics: PoolDiagnostics::none(),
            refused_chunks: 0,
            unplaced_bytes: 0,
            stalls: WalkStalls { count: 0 },
        }
    }
}

/// How a span of time prints itself for a developer.
pub uninterp spec fn duration_debug(secs: u64, nanos: u32) -> Seq<char>;

/// What `std::time::Duration` prints with `{:?}`: a text of the span's length alone. Which text
/// it is, is not stated.
#[verifier::external_body]
fn duration_text(secs: u64, nanos: u32) -> (text: String)
    requires
        nanos < NANOS_PER_SEC,
    ensures
        text@ == duration_debug(secs, nanos),
{
    format!("{:?}", std::time::Duration::new(secs, nanos))
}

/// What a walk was allowed, in words, where its budget prints as `span`.
pub open spec fn allowed_text(span: Option<Seq<char>>) -> Seq<char> {
    match span {
        None => "walk budget"@,
        Some(span) => span + " budget"@,
    }
}

/// How far a walk got through the roots, in words.
pub open spec fn reached_text(classified: nat, total: Option<usize>) -> Seq<char> {
    match total {
        None => decimal_text(classified)
            + " heap roots classified before their number was known"@,
        Some(total) => decimal_text(classified) + " of "@ + decimal_text(total as nat)
            + " PEB heap roots classified"@,
    }
}

/// What a walk says that ran out of time among the roots, where its budget prints as `span`.
pub open spec fn truncated_line_text(
    classified: nat,
    total: Option<usize>,
    span: Option<Seq<char>>,
) -> Seq<char> {
    "the walk ran out of its "@ + allowed_text(span) + " while enumerating heap roots: "@
        + reached_text(classified, total) + "; what is missing is unknown, not absent"@
}

/// What a walk says that ran out of time among the roots.
pub open spec fn truncated_text(
    classified: nat,
    total: Option<usize>,
    budget: Option<Budget>,
) -> Seq<char> {
    let span = match budget {
        Some(budget) => Some(duration_debug(budget.secs, budget.nanos)),
        None => None,
    };
    truncated_line_text(classified, total, span)
}

/// The line of a walk that ran out of time among the roots, where its budget prints as `span`.
pub fn truncated_line(classified: usize, total: Option<usize>, span: Option<&str>) -> (line: String)
    ensures
        line@ == truncated_line_text(
            classified as nat,
            total,
            match span {
                Some(span) => Some(span@),
                None => None,
            },
        ),
{
    let allowed = match span {
        None => String::from_str("walk budget"),
        Some(span) => joined(span, " budget"),
    };
    let mut reached = decimal(classified as u64);
    match total {
        None => reached.append(" heap roots classified before their number was known"),
        Some(total) => {
            reached.append(" of ");
            reached.append(decimal(total as u64).as_str());
            reached.append(" PEB heap roots classified");
        },
    }
    let mut line = joined("the walk ran out of its ", allowed.as_str());
    line.append(" while enumerating heap roots: ");
    line.append(reached.as_str());
    line.append("; what is missing is unknown, not absent");
    line
}

/// The line of a walk that ran out of this budget among the roots.
pub fn truncated_root_line(classified: usize, total: Option<usize>, budget: Option<Budget>) -> (line:
    String)
    requires
        budget matches Some(budget) ==> budget.wf(),
    ensures
        line@ == truncated_text(classified as nat, total, budget),
{
    match budget {
        None => truncated_line(classified, total, None),
        Some(budget) => {
            let span = duration_text(budget.secs, budget.nanos);
            truncated_line(classified, total, Some(span.as_str()))
        },
    }
}

/// What a walk that ran out of time among the roots comes to, where its line is of `shape`.
pub open spec fn truncated_view(
    classified: nat,
    total: Option<usize>,
    budget: Option<Budget>,
    shape: Seq<char>,
) -> PoolSnapshotView {
    PoolSnapshotView {
        budget_expired: true,
        diagnostics: DiagnosticsView::nothing().with_line(
            shape,
            truncated_text(classified, total, budget),
        ),
        ..PoolSnapshotView::nothing()
    }
}

/// The snapshot of a walk that ran out of time while it was still finding roots. `shape` is that
/// of its line.
pub fn truncated_root_snapshot(
    classified: usize,
    total: Option<usize>,
    budget: Option<Budget>,
    shape: String,
) -> (snapshot: PoolSnapshot)
    requires
        budget matches Some(budget) ==> budget.wf(),
    ensures
        snapshot@ == truncated_view(classified as nat, total, budget, shape@),
{
    let line = truncated_root_line(classified, total, budget);
    let mut snapshot = PoolSnapshot::default();
    snapshot.budget_expired = true;
    snapshot.diagnostics.push(shape, line);
    snapshot
}

/// A walk that covered every root it was handed has still not covered the ones enumeration could
/// not see, and says so rather than reporting itself complete. `shape` is that of the line it says
/// so with.
pub fn with_unseen_roots(snapshot: PoolSnapshot, unseen: Option<String>, shape: String) -> (told:
    PoolSnapshot)
    ensures
        unseen is None ==> told@ == snapshot@,
        unseen matches Some(unseen) ==> told@ == (PoolSnapshotView {
            complete: false,
            diagnostics: snapshot@.diagnostics.with_line(shape@, unseen@),
            ..snapshot@
        }),
{
    let mut snapshot = snapshot;
    match unseen {
        None => {},
        Some(unseen) => {
            snapshot.complete = false;
            snapshot.diagnostics.push(shape, unseen);
        },
    }
    snapshot
}

/// The order chunks are listed in: by address, and by heap where two share one.
pub open spec fn no_later(left: HeapAllocation, right: HeapAllocation) -> bool {
    left.user_address < right.user_address || (left.user_address == right.user_address
        && left.heap <= right.heap)
}

/// Whether chunks stand in that order.
pub open spec fn in_place_order(allocations: Seq<HeapAllocation>) -> bool {
    forall|i: int, j: int|
        0 <= i <= j < allocations.len() ==> no_later(
            #[trigger] allocations[i],
            #[trigger] allocations[j],
        )
}

/// The chunks of one heap at one address, in the order they stand in.
pub open spec fn at_place(allocations: Seq<HeapAllocation>, user_address: u64, heap: u64) -> Seq<
    HeapAllocation,
> {
    allocations.filter(
        |allocation: HeapAllocation|
            allocation.user_address == user_address && allocation.heap == heap,
    )
}

/// Whether two listings hold the same chunks, those of one place in the same order.
pub open spec fn same_chunks(left: Seq<HeapAllocation>, right: Seq<HeapAllocation>) -> bool {
    &&& left.len() == right.len()
    &&& forall|user_address: u64, heap: u64| #[trigger]
        at_place(left, user_address, heap) == at_place(right, user_address, heap)
}

/// `sort_by_key` of a slice, by address and heap: it orders the chunks by that pair, keeps them
/// all, and keeps the order of those whose pairs are equal.
#[verifier::external_body]
fn sort_by_place(allocations: &mut Vec<HeapAllocation>)
    ensures
        in_place_order(final(allocations)@),
        same_chunks(old(allocations)@, final(allocations)@),
{
    allocations.sort_by_key(|allocation| (allocation.user_address, allocation.heap));
}

/// The chunks the spans are.
pub open spec fn chunks_of(spans: Seq<PoolSpan>) -> Seq<HeapAllocation> {
    Seq::new(spans.len(), |i: int| spans[i].as_allocation())
}

/// How many chunks are in a state.
pub open spec fn count_in(allocations: Seq<HeapAllocation>, state: HeapState) -> nat
    decreases allocations.len(),
{
    if allocations.len() == 0 {
        0
    } else {
        count_in(allocations.drop_last(), state) + if allocations.last().state == state {
            1nat
        } else {
            0nat
        }
    }
}

pub proof fn lemma_count_in_bound(allocations: Seq<HeapAllocation>, state: HeapState)
    ensures
        count_in(allocations, state) <= allocations.len(),
    decreases allocations.len(),
{
    if allocations.len() > 0 {
        lemma_count_in_bound(allocations.drop_last(), state);
    }
}

fn count_state(allocations: &Vec<HeapAllocation>, state: HeapState) -> (count: usize)
    ensures
        count == count_in(allocations@, state),
{
    let mut count: usize = 0;
    let mut i: usize = 0;
    assert(allocations@.take(0) =~= Seq::empty());
    while i < allocations.len()
        invariant
            i <= allocations.len(),
            count == count_in(allocations@.take(i as int), state),
        decreases allocations.len() - i,
    {
        assert(allocations@.take(i + 1).drop_last() =~= allocations@.take(i as int));
        proof {
            lemma_count_in_bound(allocations@.take(i as int), state);
        }
        if allocations[i].state == state {
            count = count + 1;
        }
        i = i + 1;
    }
    assert(allocations@.take(i as int) =~= allocations@);
    count
}

/// How much a walk reached, by what its snapshot claims.
pub open spec fn coverage_of(complete: bool, budget_expired: bool) -> WalkCoverage {
    if complete {
        WalkCoverage::Complete
    } else if budget_expired {
        WalkCoverage::BudgetExpired
    } else {
        WalkCoverage::Partial
    }
}

/// The chunks, the report and the complaints of a walk.
pub fn from_pool_snapshot(snapshot: PoolSnapshot) -> (parts: (
    Vec<HeapAllocation>,
    HeapWalkReport,
    HeapDiagnosticReport,
))
    ensures
        in_place_order(parts.0@),
        same_chunks(chunks_of(snapshot@.spans), parts.0@),
        parts.1 == (HeapWalkReport {
            coverage: coverage_of(snapshot@.complete, snapshot@.budget_expired),
            total_chunks: parts.0@.len() as usize,
            allocated_chunks: count_in(parts.0@, HeapState::Allocated) as usize,
            diagnostic_count: snapshot.diagnostics.emitted,
            unreadable_gaps: count_in(parts.0@, HeapState::Unreadable) as usize,
            refused_headers: snapshot@.refused_chunks,
            unplaced_bytes: snapshot@.unplaced_bytes,
            stalls: snapshot@.stalls,
        }),
        parts.0@.to_multiset() == chunks_of(snapshot@.spans).to_multiset(),
        parts.1.total_chunks == snapshot.spans@.len(),
        parts.1.allocated_chunks == spans_in(snapshot.spans@, PoolState::Allocated),
        parts.1.unreadable_gaps == spans_in(snapshot.spans@, PoolState::Unreadable),
        parts.2.categories@ == snapshot.diagnostics.shapes@,
        parts.2.examples@ == snapshot.diagnostics.examples@,
{
    let mut allocations: Vec<HeapAllocation> = Vec::new();
    let mut i: usize = 0;
    while i < snapshot.spans.len()
        invariant
            i <= snapshot.spans.len(),
            allocations@ == chunks_of(snapshot@.spans).take(i as int),
        decreases snapshot.spans.len() - i,
    {
        allocations.push(snapshot.spans[i].allocation());
        i = i + 1;
        assert(allocations@ =~= chunks_of(snapshot@.spans).take(i as int));
    }
    assert(chunks_of(snapshot@.spans).take(i as int) =~= chunks_of(snapshot@.spans));
    sort_by_place(&mut allocations);
    proof {
        the_same_chunks_are_listed(chunks_of(snapshot@.spans), allocations@);
        as_many_chunks_as_spans(snapshot.spans@, allocations@);
    }
    let coverage = if snapshot.complete {
        WalkCoverage::Complete
    } else if snapshot.budget_expired {
        WalkCoverage::BudgetExpired
    } else {
        WalkCoverage::Partial
    };
    let report = HeapWalkReport {
        coverage,
        total_chunks: allocations.len(),
        allocated_chunks: count_state(&allocations, HeapState::Allocated),
        diagnostic_count: snapshot.diagnostics.emitted,
        unreadable_gaps: count_state(&allocations, HeapState::Unreadable),
        refused_headers: snapshot.refused_chunks,
        unplaced_bytes: snapshot.unplaced_bytes,
        stalls: snapshot.stalls,
    };
    let diagnostics = HeapDiagnosticReport {
        categories: snapshot.diagnostics.shapes,
        examples: snapshot.diagnostics.examples,
    };
    (allocations, report, diagnostics)
}

/// A chunk is in the state its span was found in, and in no other, and of the allocator end its
/// span was found in.
pub proof fn a_chunk_is_what_its_span_was_found_to_be(span: PoolSpan)
    ensures
        span.as_allocation().state is Allocated <==> span.state is Allocated,
        span.as_allocation().state is ReusableFree <==> span.state is ReusableFree,
        span.as_allocation().state is CachedFree <==> span.state is CachedFree,
        span.as_allocation().state is Unreadable <==> span.state is Unreadable,
        span.as_allocation().backend is Lfh <==> span.backend is Lfh,
        span.as_allocation().backend is Vs <==> span.backend is Vs,
        span.as_allocation().backend is Segment <==> span.backend is Segment,
        span.as_allocation().backend is Large <==> span.backend is Large,
        span.as_allocation().heap == span.heap,
        span.as_allocation().header_address == span.header_address,
        span.as_allocation().user_address == span.usable_address,
        span.as_allocation().capacity == span.size,
        span.as_allocation().requested_size == span.requested_size,
        span.as_allocation().subsegment == span.subsegment,
        span.as_allocation().size_class == span.size_class,
{
}

/// The names the heap has for states and allocator ends are the walker's own, each for itself.
pub proof fn each_finding_has_its_own_name(state: PoolState, backend: PoolBackend)
    ensures
        <HeapState as FromSpec<PoolState>>::from_spec(state) is Allocated <==> state
            is Allocated,
        <HeapState as FromSpec<PoolState>>::from_spec(state) is ReusableFree <==> state
            is ReusableFree,
        <HeapState as FromSpec<PoolState>>::from_spec(state) is CachedFree <==> state
            is CachedFree,
        <HeapState as FromSpec<PoolState>>::from_spec(state) is Unreadable <==> state
            is Unreadable,
        <HeapBackend as FromSpec<PoolBackend>>::from_spec(backend) is Lfh <==> backend is Lfh,
        <HeapBackend as FromSpec<PoolBackend>>::from_spec(backend) is Vs <==> backend is Vs,
        <HeapBackend as FromSpec<PoolBackend>>::from_spec(backend) is Segment <==> backend
            is Segment,
        <HeapBackend as FromSpec<PoolBackend>>::from_spec(backend) is Large <==> backend
            is Large,
{
}

/// A walk is complete exactly where it says so, whatever became of its time, and expired exactly
/// where it is not and its time ran out.
pub proof fn a_walk_is_complete_where_it_says_so(complete: bool, budget_expired: bool)
    ensures
        coverage_of(complete, budget_expired) is Complete <==> complete,
        coverage_of(complete, budget_expired) is BudgetExpired <==> !complete && budget_expired,
        coverage_of(complete, budget_expired) is Partial <==> !complete && !budget_expired,
{
}

/// A snapshot is told as it is.
pub proof fn a_snapshot_is_told_as_it_is(snapshot: PoolSnapshot, i: int)
    ensures
        snapshot@.complete == snapshot.complete,
        snapshot@.budget_expired == snapshot.budget_expired,
        snapshot@.spans == snapshot.spans@,
        snapshot@.refused_chunks == snapshot.refused_chunks,
        snapshot@.unplaced_bytes == snapshot.unplaced_bytes,
        snapshot@.stalls == snapshot.stalls,
        snapshot@.diagnostics.emitted == snapshot.diagnostics.emitted,
        snapshot@.diagnostics.shapes.len() == snapshot.diagnostics.shapes@.len(),
        snapshot@.diagnostics.examples.len() == snapshot.diagnostics.examples@.len(),
        0 <= i < snapshot.diagnostics.shapes@.len() ==> snapshot@.diagnostics.shapes[i].0
            == snapshot.diagnostics.shapes@[i].shape@ && snapshot@.diagnostics.shapes[i].1
            == snapshot.diagnostics.shapes@[i].count,
        0 <= i < snapshot.diagnostics.examples@.len() ==> snapshot@.diagnostics.examples[i]
            == snapshot.diagnostics.examples@[i]@,
{
}

/// A walk that ran out of time among the roots found nothing, and claims neither to be complete
/// nor to be cut off for any other reason; it raises one line.
pub proof fn a_walk_cut_off_among_the_roots_claims_nothing(
    classified: nat,
    total: Option<usize>,
    budget: Option<Budget>,
    shape: Seq<char>,
)
    ensures
        ({
            let told = truncated_view(classified, total, budget, shape);
            &&& !told.complete
            &&& told.budget_expired
            &&& coverage_of(told.complete, told.budget_expired) is BudgetExpired
            &&& told.spans.len() == 0
            &&& told.refused_chunks == 0
            &&& told.unplaced_bytes == 0
            &&& told.stalls.count == 0
            &&& told.diagnostics.emitted == 1
            &&& told.diagnostics.shapes == seq![(shape, 1u64)]
            &&& told.diagnostics.examples == seq![truncated_text(classified, total, budget)]
        }),
{
    let told = truncated_view(classified, total, budget, shape);
    assert(told.diagnostics.shapes =~= seq![(shape, 1u64)]);
    assert(told.diagnostics.examples =~= seq![truncated_text(classified, total, budget)]);
}

/// How far a walk got is told by the roots it classified first, and then by how many there are.
pub proof fn a_line_starts_with_what_was_classified(
    classified: nat,
    total: usize,
    span: Seq<char>,
)
    ensures
        decimal_text(classified).is_prefix_of(reached_text(classified, None)),
        (decimal_text(classified) + " of "@ + decimal_text(total as nat)).is_prefix_of(
            reached_text(classified, Some(total)),
        ),
        span.is_prefix_of(allowed_text(Some(span))),
        ("the walk ran out of its "@ + span).is_prefix_of(
            truncated_line_text(classified, Some(total), Some(span)),
        ),
{
    let counted = decimal_text(classified) + " of "@ + decimal_text(total as nat);
    assert(reached_text(classified, None).take(decimal_text(classified).len() as int)
        =~= decimal_text(classified));
    assert(reached_text(classified, Some(total)).take(counted.len() as int) =~= counted);
    assert(allowed_text(Some(span)).take(span.len() as int) =~= span);
    let head = "the walk ran out of its "@ + span;
    let line = truncated_line_text(classified, Some(total), Some(span));
    assert(line.take(head.len() as int) =~= head);
}

/// A place comes before every other at a higher address, and among those at one address before
/// those of a higher heap: any two chunks stand in one order or share their place.
pub proof fn two_chunks_are_in_order(left: HeapAllocation, right: HeapAllocation)
    ensures
        left.user_address < right.user_address ==> no_later(left, right) && !no_later(right, left),
        left.user_address == right.user_address && left.heap < right.heap ==> no_later(left, right)
            && !no_later(right, left),
        no_later(left, right) && no_later(right, left) <==> left.user_address
            == right.user_address && left.heap == right.heap,
{
}

proof fn lemma_at_place_keeps(
    chunks: Seq<HeapAllocation>,
    user_address: u64,
    heap: u64,
    chunk: HeapAllocation,
)
    requires
        chunk.user_address == user_address,
        chunk.heap == heap,
    ensures
        at_place(chunks, user_address, heap).to_multiset().count(chunk)
            == chunks.to_multiset().count(chunk),
    decreases chunks.len(),
{
    broadcast use vstd::seq_lib::group_to_multiset_ensures;

    reveal(Seq::filter);
    if chunks.len() > 0 {
        let front = chunks.drop_last();
        lemma_at_place_keeps(front, user_address, heap, chunk);
        assert(chunks =~= front.push(chunks.last()));
        vstd::seq_lib::to_multiset_build(front, chunks.last());
        if chunks.last().user_address == user_address && chunks.last().heap == heap {
            vstd::seq_lib::to_multiset_build(
                at_place(front, user_address, heap),
                chunks.last(),
            );
        }
    } else {
        assert(at_place(chunks, user_address, heap) =~= chunks);
    }
}

/// Two listings of the same chunks hold every chunk equally often.
pub proof fn the_same_chunks_are_listed(left: Seq<HeapAllocation>, right: Seq<HeapAllocation>)
    requires
        same_chunks(left, right),
    ensures
        left.len() == right.len(),
        left.to_multiset() == right.to_multiset(),
{
    assert forall|chunk: HeapAllocation| #[trigger] left.to_multiset().count(chunk)
        == right.to_multiset().count(chunk) by {
        lemma_at_place_keeps(left, chunk.user_address, chunk.heap, chunk);
        lemma_at_place_keeps(right, chunk.user_address, chunk.heap, chunk);
        assert(at_place(left, chunk.user_address, chunk.heap) == at_place(
            right,
            chunk.user_address,
            chunk.heap,
        ));
    }
    assert(left.to_multiset() =~= right.to_multiset());
}

/// How many of the spans were found in a state.
pub open spec fn spans_in(spans: Seq<PoolSpan>, state: PoolState) -> nat {
    spans.filter(|span: PoolSpan| span.state == state).len()
}

proof fn lemma_count_without(chunks: Seq<HeapAllocation>, i: int, state: HeapState)
    requires
        0 <= i < chunks.len(),
    ensures
        count_in(chunks, state) == count_in(chunks.remove(i), state) + if chunks[i].state == state {
            1nat
        } else {
            0nat
        },
    decreases chunks.len(),
{
    let rest = chunks.remove(i);
    if i == chunks.len() - 1 {
        assert(rest =~= chunks.drop_last());
    } else {
        lemma_count_without(chunks.drop_last(), i, state);
        assert(rest.drop_last() =~= chunks.drop_last().remove(i));
        assert(rest.last() == chunks.last());
    }
}

proof fn lemma_count_of_the_same(
    left: Seq<HeapAllocation>,
    right: Seq<HeapAllocation>,
    state: HeapState,
)
    requires
        left.to_multiset() == right.to_multiset(),
    ensures
        count_in(left, state) == count_in(right, state),
    decreases left.len(),
{
    broadcast use vstd::seq_lib::group_to_multiset_ensures;

    assert(left.len() == left.to_multiset().len());
    assert(right.len() == right.to_multiset().len());
    if left.len() > 0 {
        let last = left.last();
        assert(left.contains(last));
        assert(right.to_multiset().count(last) > 0);
        assert(right.contains(last));
        let i = right.index_of(last);
        lemma_count_without(right, i, state);
        assert(left.drop_last() =~= left.remove(left.len() - 1));
        vstd::seq_lib::to_multiset_remove(left, left.len() - 1);
        vstd::seq_lib::to_multiset_remove(right, i);
        lemma_count_of_the_same(left.drop_last(), right.remove(i), state);
    }
}

proof fn lemma_spans_counted(spans: Seq<PoolSpan>, state: PoolState, named: HeapState)
    requires
        forall|span: PoolSpan| (#[trigger] span.as_allocation()).state == named <==> span.state
            == state,
    ensures
        count_in(chunks_of(spans), named) == spans_in(spans, state),
    decreases spans.len(),
{
    reveal(Seq::filter);
    if spans.len() > 0 {
        lemma_spans_counted(spans.drop_last(), state, named);
        assert(chunks_of(spans).drop_last() =~= chunks_of(spans.drop_last()));
        assert(chunks_of(spans).last() == spans.last().as_allocation());
    }
}

/// A listing of the spans' chunks counts each state as often as the walker found it: as many
/// chunks are allocated as spans were, and so for each of the other states.
pub proof fn as_many_chunks_as_spans(spans: Seq<PoolSpan>, chunks: Seq<HeapAllocation>)
    requires
        same_chunks(chunks_of(spans), chunks),
    ensures
        chunks.len() == spans.len(),
        count_in(chunks, HeapState::Allocated) == spans_in(spans, PoolState::Allocated),
        count_in(chunks, HeapState::ReusableFree) == spans_in(spans, PoolState::ReusableFree),
        count_in(chunks, HeapState::CachedFree) == spans_in(spans, PoolState::CachedFree),
        count_in(chunks, HeapState::Unreadable) == spans_in(spans, PoolState::Unreadable),
{
    the_same_chunks_are_listed(chunks_of(spans), chunks);
    lemma_count_of_the_same(chunks_of(spans), chunks, HeapState::Allocated);
    lemma_count_of_the_same(chunks_of(spans), chunks, HeapState::ReusableFree);
    lemma_count_of_the_same(chunks_of(spans), chunks, HeapState::CachedFree);
    lemma_count_of_the_same(chunks_of(spans), chunks, HeapState::Unreadable);
    lemma_spans_counted(spans, PoolState::Allocated, HeapState::Allocated);
    lemma_spans_counted(spans, PoolState::ReusableFree, HeapState::ReusableFree);
    lemma_spans_counted(spans, PoolState::CachedFree, HeapState::CachedFree);
    lemma_spans_counted(spans, PoolState::Unreadable, HeapState::Unreadable);
}

/// Every span is listed, in the state it was found in and at the address it was found at, and
/// nothing else is: a chunk of the listing is one of the spans.
pub proof fn every_span_is_listed(
    spans: Seq<PoolSpan>,
    chunks: Seq<HeapAllocation>,
    i: int,
)
    requires
        same_chunks(chunks_of(spans), chunks),
        0 <= i < spans.len(),
    ensures
        exists|j: int|
            #![trigger chunks[j]]
            {
                &&& 0 <= j < chunks.len()
                &&& chunks[j].user_address == spans[i].usable_address
                &&& chunks[j].heap == spans[i].heap
                &&& chunks[j].header_address == spans[i].header_address
                &&& chunks[j].capacity == spans[i].size
                &&& chunks[j].requested_size == spans[i].requested_size
                &&& chunks[j].subsegment == spans[i].subsegment
                &&& chunks[j].size_class == spans[i].size_class
                &&& chunks[j].state is Allocated <==> spans[i].state is Allocated
                &&& chunks[j].state is ReusableFree <==> spans[i].state is ReusableFree
                &&& chunks[j].state is CachedFree <==> spans[i].state is CachedFree
                &&& chunks[j].state is Unreadable <==> spans[i].state is Unreadable
            },
        exists|k: int|
            #![trigger spans[k]]
            0 <= k < spans.len() && chunks[i].user_address == spans[k].usable_address
                && chunks[i].heap == spans[k].heap && (chunks[i].state is Allocated <==> (
            spans[k].state is Allocated)),
{
    broadcast use vstd::seq_lib::group_to_multiset_ensures;

    the_same_chunks_are_listed(chunks_of(spans), chunks);
    let ours = chunks_of(spans);
    let chunk = spans[i].as_allocation();
    assert(ours[i] == chunk);
    assert(ours.contains(chunk));
    assert(ours.to_multiset().count(chunk) > 0);
    assert(chunks.contains(chunk));
    let j = chunks.index_of(chunk);
    assert(chunks[j] == chunk);
    let listed = chunks[i];
    assert(chunks.contains(listed));
    assert(chunks.to_multiset().count(listed) > 0);
    assert(ours.contains(listed));
    let k = ours.index_of(listed);
    assert(spans[k].as_allocation() == listed);
}

/// No line goes uncounted, and those of a shape that was raised no more often than may be kept
/// are all kept: where that holds of every shape, the lines are kept as they were raised.
pub proof fn a_few_lines_are_all_kept(lines: Seq<(Seq<char>, Seq<char>)>)
    requires
        lines.len() <= usize::MAX,
        forall|shape: Seq<char>| #[trigger] of_shape(lines, shape) <= 8,
    ensures
        raised(lines).emitted == lines.len(),
        raised(lines).examples.len() == lines.len(),
        forall|i: int| 0 <= i < lines.len() ==> #[trigger] raised(lines).examples[i] == lines[i].1,
    decreases lines.len(),
{
    if lines.len() > 0 {
        let front = lines.drop_last();
        let (shape, line) = lines.last();
        assert forall|other: Seq<char>| #[trigger] of_shape(front, other) <= 8 by {
            assert(of_shape(lines, other) <= 8);
        }
        a_few_lines_are_all_kept(front);
        complaints_are_told_by_shape(front);
        assert(of_shape(lines, shape) <= 8);
        assert(raised(front).total(shape) == of_shape(front, shape));
        assert forall|i: int| 0 <= i < lines.len() implies #[trigger] raised(lines).examples[i]
            == lines[i].1 by {
            if i < front.len() {
                assert(front[i] == lines[i]);
            }
        }
    }
}

/// A line of a shape that was raised as often as may be kept is counted and not kept; and the
/// shapes stand in the order they were first raised in.
pub proof fn a_shape_keeps_its_place(
    diagnostics: DiagnosticsView,
    shape: Seq<char>,
    line: Seq<char>,
)
    ensures
        diagnostics.total(shape) >= 8 ==> diagnostics.with_line(shape, line).examples
            == diagnostics.examples,
        diagnostics.total(shape) < 8 ==> diagnostics.with_line(shape, line).examples
            == diagnostics.examples.push(line),
        diagnostics.emitted < usize::MAX ==> diagnostics.with_line(shape, line).emitted
            == diagnostics.emitted + 1,
        forall|i: int|
            0 <= i < diagnostics.shapes.len() ==> (#[trigger] diagnostics.with_line(
                shape,
                line,
            ).shapes[i]).0 == diagnostics.shapes[i].0,
        diagnostics.total(shape) == 0 && (forall|i: int|
            0 <= i < diagnostics.shapes.len() ==> (#[trigger] diagnostics.shapes[i]).0 != shape)
            ==> diagnostics.with_line(shape, line).shapes == diagnostics.shapes.push((shape, 1u64)),
        diagnostics.with_line(shape, line).shapes.len() <= diagnostics.shapes.len() + 1,
{
    lemma_shape_place(diagnostics.shapes, shape);
}

} // verus!
