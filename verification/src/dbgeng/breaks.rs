//! Break requests, each filed against the operation it is for.
use vstd::prelude::*;
use vstd::string::*;

use super::error::{DbgEngError, EngineFault};

verus! {

/// One bounded engine operation, and the identity a break request names. Ids are never reused,
/// so one that names an operation which has ended matches nothing later.
#[derive(Debug, Clone, Copy, PartialEq, Eq, Structural, PartialOrd, Ord, Hash)]
pub struct OperationId(pub u64);

/// What asking for a break did. The break itself is issued either way; this says whether
/// anything will report it.
#[derive(Debug, Clone, Copy, PartialEq, Eq, Structural)]
pub enum BreakRequest {
    /// Filed against the operation the engine was running at that instant.
    Raised { operation: OperationId },
    /// The engine was between bounded operations: no operation will claim the break.
    NothingRunning,
}

/// Why a command stopped before it finished.
#[derive(Debug, Clone, Copy, PartialEq, Eq, Structural)]
pub enum Interruption {
    /// The watchdog's deadline passed.
    Deadline { after_ms: u32 },
    /// A host asked.
    OnRequest,
}

/// Which operations the engine is running, and which of them a host has asked to break.
///
/// The running ones are a stack because operations nest; the asked ones are a set because, with
/// an outer operation asked and an inner one begun since, two requests are outstanding at once.
#[derive(Debug)]
pub struct BreakScope {
    /// Ids handed out so far.
    pub minted: u64,
    /// The operations the engine is inside, outermost first.
    pub running: Vec<OperationId>,
    /// Operations asked to break that have not yet accounted for it, each once.
    pub asked: Vec<OperationId>,
}

/// A [`BreakScope`] with its operations as a stack and a set.
#[verifier::ext_equal]
pub struct BreakScopeView {
    pub minted: nat,
    pub running: Seq<OperationId>,
    pub asked: Set<OperationId>,
}

impl View for BreakScope {
    type V = BreakScopeView;

    open spec fn view(&self) -> BreakScopeView {
        BreakScopeView {
            minted: self.minted as nat,
            running: self.running@,
            asked: self.asked@.to_set(),
        }
    }
}

/// The operations other than one, in order.
pub open spec fn without(operations: Seq<OperationId>, operation: OperationId) -> Seq<OperationId>
    decreases operations.len(),
{
    if operations.len() == 0 {
        Seq::empty()
    } else if operations.last() == operation {
        without(operations.drop_last(), operation)
    } else {
        without(operations.drop_last(), operation).push(operations.last())
    }
}

impl BreakScopeView {
    /// Whether an id was never handed out.
    pub open spec fn is_fresh(self, operation: OperationId) -> bool {
        operation.0 > self.minted
    }

    /// The operation a break issued now would stop: the innermost one running.
    pub open spec fn innermost(self) -> Option<OperationId> {
        if self.running.len() == 0 {
            None
        } else {
            Some(self.running.last())
        }
    }

    /// Opened one more operation.
    pub open spec fn begun(self) -> BreakScopeView {
        BreakScopeView {
            minted: self.minted + 1,
            running: self.running.push(OperationId((self.minted + 1) as u64)),
            ..self
        }
    }

    /// Filed a request against an operation.
    pub open spec fn recorded(self, operation: OperationId) -> BreakScopeView {
        BreakScopeView { asked: self.asked.insert(operation), ..self }
    }

    /// Accounted for an operation's request.
    pub open spec fn taken(self, operation: OperationId) -> BreakScopeView {
        BreakScopeView { asked: self.asked.remove(operation), ..self }
    }

    /// Closed an operation.
    pub open spec fn ended(self, operation: OperationId) -> BreakScopeView {
        BreakScopeView {
            running: without(self.running, operation),
            asked: self.asked.remove(operation),
            ..self
        }
    }
}

impl BreakScope {
    /// Every operation has an id that was handed out, running ones one of their own, and no
    /// request is held twice.
    pub open spec fn wf(&self) -> bool {
        &&& self.asked@.no_duplicates()
        &&& self.running@.no_duplicates()
        &&& forall|i: int|
            0 <= i < self.running@.len() ==> (#[trigger] self.running@[i]).0 <= self.minted
        &&& forall|i: int| 0 <= i < self.asked@.len() ==> (#[trigger] self.asked@[i]).0 <= self.minted
    }
}

fn position_of(operations: &Vec<OperationId>, operation: OperationId) -> (position: usize)
    ensures
        position <= operations@.len(),
        position < operations@.len() ==> operations@[position as int] == operation,
        position == operations@.len() ==> !operations@.contains(operation),
{
    let mut i: usize = 0;
    while i < operations.len()
        invariant
            i <= operations@.len(),
            forall|j: int| 0 <= j < i ==> operations@[j] != operation,
        decreases operations.len() - i,
    {
        if operations[i] == operation {
            return i;
        }
        i = i + 1;
    }
    i
}

proof fn lemma_removed(operations: Seq<OperationId>, position: int)
    requires
        operations.no_duplicates(),
        0 <= position < operations.len(),
    ensures
        operations.remove(position).no_duplicates(),
        operations.remove(position).to_set() == operations.to_set().remove(operations[position]),
{
    let rest = operations.remove(position);
    let gone = operations[position];
    assert forall|i: int, j: int|
        0 <= i < rest.len() && 0 <= j < rest.len() && i != j implies rest[i] != rest[j] by {
        let left = if i < position {
            i
        } else {
            i + 1
        };
        let right = if j < position {
            j
        } else {
            j + 1
        };
        assert(operations[left] != operations[right]);
    }
    assert forall|operation: OperationId| rest.to_set().contains(operation) == (
    operations.to_set().remove(gone)).contains(operation) by {
        if rest.contains(operation) {
            let i = rest.index_of(operation);
            let at = if i < position {
                i
            } else {
                i + 1
            };
            assert(operations[at] == operation);
            assert(at != position);
            assert(operation != gone);
        }
        if operations.contains(operation) && operation != gone {
            let at = operations.index_of(operation);
            let i = if at < position {
                at
            } else {
                at - 1
            };
            assert(rest[i] == operation);
        }
    }
    assert(rest.to_set() =~= operations.to_set().remove(gone));
}

proof fn lemma_without(operations: Seq<OperationId>, operation: OperationId)
    ensures
        !without(operations, operation).contains(operation),
        forall|other: OperationId|
            other != operation ==> #[trigger] without(operations, operation).contains(other)
                == operations.contains(other),
        operations.no_duplicates() ==> without(operations, operation).no_duplicates(),
        without(operations, operation).len() <= operations.len(),
    decreases operations.len(),
{
    if operations.len() > 0 {
        let before = operations.drop_last();
        lemma_without(before, operation);
        assert forall|other: OperationId| other != operation implies #[trigger] without(
            operations,
            operation,
        ).contains(other) == operations.contains(other) by {
            assert(without(before, operation).contains(other) == before.contains(other));
            if operations.contains(other) {
                let i = operations.index_of(other);
                if i < before.len() {
                    assert(before[i] == other);
                    assert(before.contains(other));
                    let k = without(before, operation).index_of(other);
                    assert(without(operations, operation)[k] == other);
                } else {
                    assert(without(operations, operation).last() == other);
                }
            }
            if without(operations, operation).contains(other) {
                let k = without(operations, operation).index_of(other);
                if k < without(before, operation).len() {
                    assert(without(before, operation)[k] == other);
                    assert(without(before, operation).contains(other));
                    let i = before.index_of(other);
                    assert(operations[i] == other);
                }
            }
        }
        if without(operations, operation).contains(operation) {
            let k = without(operations, operation).index_of(operation);
            if k < without(before, operation).len() {
                assert(without(before, operation)[k] == operation);
            }
        }
        if operations.no_duplicates() {
            assert(before.no_duplicates());
            let kept = without(operations, operation);
            assert forall|i: int, j: int|
                0 <= i < kept.len() && 0 <= j < kept.len() && i != j implies kept[i] != kept[j] by {
                let inner = without(before, operation);
                let last = operations.last();
                if i < inner.len() && j < inner.len() {
                    assert(inner[i] != inner[j]);
                } else {
                    assert(inner.contains(last) ==> before.contains(last));
                    if before.contains(last) {
                        let n = before.index_of(last);
                        assert(operations[n] == operations[operations.len() - 1]);
                    }
                    if i < inner.len() {
                        assert(inner.contains(inner[i]));
                    } else {
                        assert(inner.contains(inner[j]));
                    }
                }
            }
        }
    }
}

impl Default for BreakScope {
    fn default() -> (scope: BreakScope)
        ensures
            scope@ == (BreakScopeView { minted: 0, running: Seq::empty(), asked: Set::empty() }),
            scope.wf(),
    {
        let scope = BreakScope { minted: 0, running: Vec::new(), asked: Vec::new() };
        assert(scope@.asked =~= Set::empty());
        scope
    }
}

impl BreakScope {
    /// Opens an operation and returns its id, which names nothing before it.
    pub fn begin(&mut self) -> (operation: OperationId)
        requires
            old(self).wf(),
            old(self).minted < u64::MAX,
        ensures
            final(self).wf(),
            final(self)@ == old(self)@.begun(),
            operation.0 == old(self).minted + 1,
            old(self)@.is_fresh(operation),
    {
        self.minted = self.minted + 1;
        let operation = OperationId(self.minted);
        let ghost before = self.running@;
        self.running.push(operation);
        assert(self.running@ == before.push(operation));
        operation
    }

    /// The operation a break issued now would stop: the innermost one running.
    pub fn innermost(&self) -> (operation: Option<OperationId>)
        ensures
            operation == self@.innermost(),
    {
        if self.running.len() == 0 {
            None
        } else {
            Some(self.running[self.running.len() - 1])
        }
    }

    /// Files a request against `operation`.
    pub fn record(&mut self, operation: OperationId)
        requires
            old(self).wf(),
            operation.0 <= old(self).minted,
        ensures
            final(self).wf(),
            final(self)@ == old(self)@.recorded(operation),
    {
        let ghost before = self.asked@;
        let position: usize = position_of(&self.asked, operation);
        if position == self.asked.len() {
            self.asked.push(operation);
            proof {
                assert(self.asked@ == before.push(operation));
                assert forall|other: OperationId|
                    self.asked@.to_set().contains(other) == before.to_set().insert(
                        operation,
                    ).contains(other) by {
                    if before.contains(other) {
                        let i = before.index_of(other);
                        assert(self.asked@[i] == other);
                    }
                    if other == operation {
                        assert(self.asked@[before.len() as int] == other);
                    }
                    if self.asked@.contains(other) && other != operation {
                        let i = self.asked@.index_of(other);
                        assert(before[i] == other);
                    }
                }
                assert(self.asked@.to_set() =~= before.to_set().insert(operation));
            }
        } else {
            assert(before.to_set().contains(operation));
            assert(before.to_set() =~= before.to_set().insert(operation));
        }
    }

    fn forget_request(&mut self, operation: OperationId) -> (held: bool)
        requires
            old(self).wf(),
        ensures
            final(self).wf(),
            final(self)@ == old(self)@.taken(operation),
            held == old(self)@.asked.contains(operation),
    {
        let ghost before = self.asked@;
        let position: usize = position_of(&self.asked, operation);
        if position < self.asked.len() {
            proof {
                lemma_removed(before, position as int);
            }
            self.asked.remove(position);
            assert(self.asked@ == before.remove(position as int));
            assert(before.contains(operation));
            true
        } else {
            assert(!before.to_set().contains(operation));
            assert(before.to_set().remove(operation) =~= before.to_set());
            false
        }
    }

    /// Takes the request filed against `operation`, if any.
    pub fn take(&mut self, operation: OperationId) -> (asked: bool)
        requires
            old(self).wf(),
        ensures
            final(self).wf(),
            final(self)@ == old(self)@.taken(operation),
            asked == old(self)@.asked.contains(operation),
    {
        self.forget_request(operation)
    }

    /// Closes `operation`, and answers whether it left a request unread.
    ///
    /// By id rather than by popping, so an out-of-order close cannot leave a stale id behind for
    /// a later request to be filed against.
    pub fn end(&mut self, operation: OperationId) -> (unread: bool)
        requires
            old(self).wf(),
        ensures
            final(self).wf(),
            final(self)@ == old(self)@.ended(operation),
            unread == old(self)@.asked.contains(operation),
    {
        let ghost before = self.running@;
        let mut kept: Vec<OperationId> = Vec::new();
        let mut i: usize = 0;
        assert(before.take(0) =~= Seq::empty());
        while i < self.running.len()
            invariant
                i <= self.running@.len(),
                self.running@ == before,
                kept@ == without(before.take(i as int), operation),
                *self == *old(self),
            decreases self.running.len() - i,
        {
            assert(before.take(i + 1).drop_last() =~= before.take(i as int));
            if self.running[i] != operation {
                kept.push(self.running[i]);
            }
            i = i + 1;
        }
        assert(before.take(i as int) =~= before);
        proof {
            lemma_without(before, operation);
            assert forall|j: int| 0 <= j < kept@.len() implies (#[trigger] kept@[j]).0
                <= self.minted by {
                assert(kept@.contains(kept@[j]));
                let k = before.index_of(kept@[j]);
                assert(before[k].0 <= self.minted);
            }
        }
        self.running = kept;
        self.forget_request(operation)
    }

    /// Files a break that was delivered to the engine against the operation it stops, and says
    /// which that is. A break that could not be delivered is filed against nothing.
    pub fn interrupt(&mut self, delivered: Result<(), EngineFault>) -> (request: Result<
        BreakRequest,
        DbgEngError,
    >)
        requires
            old(self).wf(),
        ensures
            final(self).wf(),
            delivered matches Err(fault) ==> {
                &&& final(self)@ == old(self)@
                &&& request matches Err(DbgEngError::Context { operation, source }) && {
                    &&& operation@ == "requesting a debugger interrupt"@
                    &&& source == fault
                }
            },
            delivered is Ok ==> match old(self)@.innermost() {
                Some(operation) => {
                    &&& request == Ok::<BreakRequest, DbgEngError>(
                        BreakRequest::Raised { operation },
                    )
                    &&& final(self)@ == old(self)@.recorded(operation)
                },
                None => {
                    &&& request == Ok::<BreakRequest, DbgEngError>(BreakRequest::NothingRunning)
                    &&& final(self)@ == old(self)@
                },
            },
    {
        match delivered {
            Err(source) => Err(
                DbgEngError::Context {
                    operation: String::from_str("requesting a debugger interrupt"),
                    source,
                },
            ),
            Ok(()) => match self.innermost() {
                Some(operation) => {
                    assert(self.running@[self.running@.len() - 1].0 <= self.minted);
                    self.record(operation);
                    Ok(BreakRequest::Raised { operation })
                },
                None => Ok(BreakRequest::NothingRunning),
            },
        }
    }
}

/// What cut an operation short that did not wait: the watchdog's deadline where it passed, or
/// else the request a host filed against this operation.
pub fn cut_short_by(by_watchdog: bool, asked: bool, after_ms: u32) -> (cut_short: Option<
    Interruption,
>)
    ensures
        cut_short == if by_watchdog {
            Some(Interruption::Deadline { after_ms })
        } else if asked {
            Some(Interruption::OnRequest)
        } else {
            None
        },
{
    if by_watchdog {
        Some(Interruption::Deadline { after_ms })
    } else if asked {
        Some(Interruption::OnRequest)
    } else {
        None
    }
}

/// A new operation is running, innermost, and nobody has asked for it: no earlier request can be
/// charged to it.
pub proof fn a_new_operation_is_unasked(scope: BreakScope)
    requires
        scope.wf(),
        scope.minted < u64::MAX,
    ensures
        scope@.begun().innermost() == Some(OperationId((scope.minted + 1) as u64)),
        !scope@.begun().asked.contains(OperationId((scope.minted + 1) as u64)),
        !scope@.running.contains(OperationId((scope.minted + 1) as u64)),
{
    let id = OperationId((scope.minted + 1) as u64);
    if scope.asked@.contains(id) {
        let i = scope.asked@.index_of(id);
        assert(scope.asked@[i].0 <= scope.minted);
    }
    if scope.running@.contains(id) {
        let i = scope.running@.index_of(id);
        assert(scope.running@[i].0 <= scope.minted);
    }
}

/// A request names an operation, and only that operation can be charged with it: filing, taking
/// or closing one leaves every other operation's request as it was, and a request is taken once.
pub proof fn a_request_is_its_operations_alone(
    scope: BreakScopeView,
    operation: OperationId,
    other: OperationId,
)
    requires
        operation != other,
    ensures
        scope.recorded(operation).asked.contains(operation),
        !scope.taken(operation).asked.contains(operation),
        scope.recorded(operation).asked.contains(other) == scope.asked.contains(other),
        scope.taken(operation).asked.contains(other) == scope.asked.contains(other),
        scope.ended(operation).asked.contains(other) == scope.asked.contains(other),
        scope.begun().asked == scope.asked,
{
}

/// An operation's request dies with it: once closed, it neither runs nor is asked for, and the
/// others go on as they were.
pub proof fn a_closed_operation_leaves_nothing(
    scope: BreakScopeView,
    operation: OperationId,
    other: OperationId,
)
    requires
        operation != other,
    ensures
        !scope.ended(operation).running.contains(operation),
        !scope.ended(operation).asked.contains(operation),
        scope.ended(operation).running.contains(other) == scope.running.contains(other),
{
    lemma_without(scope.running, operation);
}

/// An operation begun and ended inside another leaves the outer one as it was: running, innermost
/// and with its own request.
pub proof fn a_nested_operation_leaves_its_parent(scope: BreakScope)
    requires
        scope.wf(),
        scope.minted < u64::MAX,
    ensures
        ({
            let inner = OperationId((scope.minted + 1) as u64);
            let after = scope@.begun().ended(inner);
            &&& after.running == scope@.running
            &&& after.asked == scope@.asked
            &&& after.innermost() == scope@.innermost()
        }),
{
    let inner = OperationId((scope.minted + 1) as u64);
    a_new_operation_is_unasked(scope);
    assert(scope@.begun().running.drop_last() =~= scope@.running);
    lemma_without_absent(scope@.running, inner);
    assert(scope@.asked.remove(inner) =~= scope@.asked);
}

proof fn lemma_without_absent(operations: Seq<OperationId>, operation: OperationId)
    requires
        !operations.contains(operation),
    ensures
        without(operations, operation) == operations,
    decreases operations.len(),
{
    if operations.len() > 0 {
        assert(operations[operations.len() - 1] != operation);
        assert forall|i: int| 0 <= i < operations.drop_last().len() implies operations.drop_last()[i]
            != operation by {
            assert(operations[i] != operation);
        }
        lemma_without_absent(operations.drop_last(), operation);
        assert(operations.drop_last().push(operations.last()) =~= operations);
    }
}

/// A scope is told as it is: its operations in the order they were opened in, and a request for
/// every operation that is held as asked for.
pub proof fn a_scope_is_told_as_it_is(scope: BreakScope, operation: OperationId)
    ensures
        scope@.minted == scope.minted,
        scope@.running == scope.running@,
        scope@.asked.contains(operation) <==> scope.asked@.contains(operation),
{
}

/// Opening an operation hands out the next id and puts it on top; filing, taking and closing move
/// neither the ids nor, but for the operation that is closed, the stack.
pub proof fn a_step_moves_only_its_own(scope: BreakScopeView, operation: OperationId)
    ensures
        scope.begun().minted == scope.minted + 1,
        scope.begun().running.len() == scope.running.len() + 1,
        scope.begun().running.drop_last() == scope.running,
        scope.begun().running.last().0 == (scope.minted + 1) as u64,
        scope.recorded(operation).minted == scope.minted,
        scope.recorded(operation).running == scope.running,
        scope.taken(operation).minted == scope.minted,
        scope.taken(operation).running == scope.running,
        scope.ended(operation).minted == scope.minted,
        scope.ended(operation).asked == scope.taken(operation).asked,
{
    assert(scope.begun().running.drop_last() =~= scope.running);
}

/// Closing an operation leaves every other where it stood, in the same order.
pub proof fn the_stack_keeps_its_order(operations: Seq<OperationId>, operation: OperationId)
    ensures
        without(operations, operation) == operations.filter(
            |other: OperationId| other != operation,
        ),
    decreases operations.len(),
{
    reveal(Seq::filter);
    if operations.len() > 0 {
        the_stack_keeps_its_order(operations.drop_last(), operation);
    }
}

/// A break issued now stops the operation opened last of those that run, and a fresh id is one
/// that neither runs nor was ever asked for.
pub proof fn a_break_stops_the_innermost(scope: BreakScope, operation: OperationId)
    requires
        scope.wf(),
    ensures
        scope@.innermost() is None <==> scope.running@.len() == 0,
        scope@.innermost() matches Some(inner) ==> inner == scope.running@[scope.running@.len()
            - 1],
        scope@.is_fresh(operation) <==> operation.0 > scope.minted,
        scope@.is_fresh(operation) ==> !scope.running@.contains(operation)
            && !scope.asked@.contains(operation),
{
    if scope.running@.contains(operation) {
        let i = scope.running@.index_of(operation);
        assert(scope.running@[i].0 <= scope.minted);
    }
    if scope.asked@.contains(operation) {
        let i = scope.asked@.index_of(operation);
        assert(scope.asked@[i].0 <= scope.minted);
    }
}

} // verus!
