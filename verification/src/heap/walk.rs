//! How a heap walk is asked for.
use vstd::prelude::*;
use vstd::std_specs::convert::{FromSpec, FromSpecImpl};

verus! {

/// How many nanoseconds a second has.
pub const NANOS_PER_SEC: u32 = 1_000_000_000;

/// A span of time: whole seconds, and nanoseconds short of another.
#[derive(Debug, Clone, Copy, PartialEq, Eq, Structural)]
pub struct Budget {
    pub secs: u64,
    pub nanos: u32,
}

impl Budget {
    /// Whether the nanoseconds are short of a second.
    pub open spec fn wf(self) -> bool {
        self.nanos < NANOS_PER_SEC
    }

    /// The whole span, in nanoseconds.
    pub open spec fn total(self) -> int {
        self.secs * NANOS_PER_SEC + self.nanos
    }

    /// So many seconds.
    pub fn from_secs(secs: u64) -> (budget: Budget)
        ensures
            budget == (Budget { secs, nanos: 0 }),
            budget.wf(),
    {
        Budget { secs, nanos: 0 }
    }

    /// What is left of this span after another, and nothing where the other is longer.
    pub fn saturating_sub(self, spent: Budget) -> (left: Budget)
        requires
            self.wf(),
            spent.wf(),
        ensures
            left.wf(),
            left.total() == if self.total() > spent.total() {
                self.total() - spent.total()
            } else {
                0
            },
    {
        if self.secs < spent.secs || (self.secs == spent.secs && self.nanos <= spent.nanos) {
            Budget { secs: 0, nanos: 0 }
        } else if self.nanos >= spent.nanos {
            Budget { secs: self.secs - spent.secs, nanos: self.nanos - spent.nanos }
        } else {
            Budget {
                secs: self.secs - spent.secs - 1,
                nanos: self.nanos + NANOS_PER_SEC - spent.nanos,
            }
        }
    }
}

/// The budget of a walk nobody gave another, in seconds.
pub const DEFAULT_WALK_BUDGET: u64 = 120;

/// The default budget, as a span of time.
pub open spec fn default_budget() -> Budget {
    Budget { secs: DEFAULT_WALK_BUDGET, nanos: 0 }
}

/// Whether a walk may answer from a cached snapshot, and how long it may take.
#[derive(Debug, Clone, Copy, PartialEq, Eq, Structural)]
pub struct HeapWalk {
    pub refresh: bool,
    pub budget: Option<Budget>,
}

impl HeapWalk {
    /// A walk that answers from a cached snapshot where there is one.
    pub fn cached() -> (walk: HeapWalk)
        ensures
            walk == (HeapWalk { refresh: false, budget: Some(default_budget()) }),
    {
        HeapWalk { refresh: false, budget: Some(Budget::from_secs(DEFAULT_WALK_BUDGET)) }
    }

    /// A walk that reads the target again.
    pub fn refreshed() -> (walk: HeapWalk)
        ensures
            walk == (HeapWalk { refresh: true, budget: Some(default_budget()) }),
    {
        HeapWalk { refresh: true, ..HeapWalk::cached() }
    }

    /// The same walk, with this budget.
    pub fn within(self, budget: Budget) -> (walk: HeapWalk)
        ensures
            walk == (HeapWalk { refresh: self.refresh, budget: Some(budget) }),
    {
        HeapWalk { budget: Some(budget), ..self }
    }
}

impl FromSpecImpl<bool> for HeapWalk {
    open spec fn obeys_from_spec() -> bool {
        true
    }

    open spec fn from_spec(refresh: bool) -> HeapWalk {
        HeapWalk { refresh, budget: Some(default_budget()) }
    }
}

impl From<bool> for HeapWalk {
    fn from(refresh: bool) -> (walk: HeapWalk) {
        if refresh {
            HeapWalk::refreshed()
        } else {
            HeapWalk::cached()
        }
    }
}

/// A span of time is its seconds and what is above them, so two that come to the same are the
/// same.
pub proof fn a_span_is_what_it_comes_to(left: Budget, right: Budget)
    requires
        left.wf(),
        right.wf(),
    ensures
        left.nanos < 1_000_000_000,
        left.total() == right.total() <==> left == right,
        left.secs < right.secs ==> left.total() < right.total(),
        left.secs == right.secs && left.nanos < right.nanos ==> left.total() < right.total(),
        (Budget { secs: 1, nanos: 0 }).total() == 1_000_000_000,
        (Budget { secs: 0, nanos: 1 }).total() == 1,
{
}

/// A walk is refreshed exactly where that was asked for, and has two minutes where nothing else
/// was said.
pub proof fn a_walk_does_what_was_asked(refresh: bool)
    ensures
        <HeapWalk as FromSpec<bool>>::from_spec(refresh).refresh == refresh,
        <HeapWalk as FromSpec<bool>>::from_spec(refresh).budget == Some(
            Budget { secs: 120, nanos: 0 },
        ),
        default_budget() == (Budget { secs: 120, nanos: 0 }),
{
}

/// A span of time is well formed exactly where what is above its seconds is less than one.
pub proof fn what_is_above_the_seconds_is_less_than_one(budget: Budget)
    ensures
        budget.wf() <==> budget.nanos <= 999_999_999,
{
}

} // verus!
