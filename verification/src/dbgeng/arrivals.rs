//! The opens waiting for a target to join the session and stop, and what each has been given.
use std::collections::HashSet;

use vstd::prelude::*;

verus! {

broadcast use vstd::std_specs::hash::group_hash_axioms;

/// Identifies one open waiting for its target. Never reused.
#[derive(Debug, Clone, Copy, PartialEq, Eq, Structural, PartialOrd, Ord, Hash)]
pub struct ArrivalId(pub u64);

/// The user-mode process a live open is waiting to see join the session and stop.
///
/// A launch is identified by elimination and an attach by name, because a launch is handed no
/// pid while an attach is given one.
#[derive(Debug)]
pub enum Arrival {
    /// A process this engine launched: one the session did not hold when the launch was issued
    /// and that this engine did not attach to. `None` when that could not be read, which leaves
    /// nothing to conclude from.
    Launched(Option<Vec<(u32, u32)>>),
    /// A process this engine attached to, by its pid.
    Attached(u32),
}

/// An [`Arrival`] with its processes as a sequence.
pub enum ArrivalView {
    Launched(Option<Seq<(u32, u32)>>),
    Attached(u32),
}

impl View for Arrival {
    type V = ArrivalView;

    open spec fn view(&self) -> ArrivalView {
        match self {
            Arrival::Launched(Some(before)) => ArrivalView::Launched(Some(before@)),
            Arrival::Launched(None) => ArrivalView::Launched(None),
            Arrival::Attached(pid) => ArrivalView::Attached(*pid),
        }
    }
}

/// Whether the target a live open is waiting for has joined the session and stopped yet.
#[derive(Debug, Clone, Copy, PartialEq, Eq, Structural)]
pub enum Presence {
    /// In the session, and seen to stop.
    Arrived,
    /// In the session, and not yet seen to stop.
    Listed,
    /// Not held by this session.
    Absent,
    /// Not answerable.
    Unknown,
}

/// One registered open.
#[derive(Debug)]
pub struct Pending {
    pub id: ArrivalId,
    pub what: Arrival,
    /// The process delivered to this open, once one has been: its engine id and its pid.
    pub arrived: Option<(u32, u32)>,
}

/// A [`Pending`] with its processes as a sequence.
pub struct PendingView {
    pub id: ArrivalId,
    pub what: ArrivalView,
    pub arrived: Option<(u32, u32)>,
}

impl View for Pending {
    type V = PendingView;

    open spec fn view(&self) -> PendingView {
        PendingView { id: self.id, what: self.what@, arrived: self.arrived }
    }
}

/// Each open of a sequence.
pub open spec fn pending_views(pending: Seq<Pending>) -> Seq<PendingView> {
    Seq::new(pending.len(), |i: int| pending[i]@)
}

/// Whether an open other than `id` waits for the process with this pid by name.
pub open spec fn spoken_for(pending: Seq<PendingView>, id: ArrivalId, pid: u32) -> bool {
    exists|i: int|
        0 <= i < pending.len() && (#[trigger] pending[i]).id != id && pending[i].what
            == ArrivalView::Attached(pid)
}

impl PendingView {
    /// Whether `entry` is the process this open is waiting for, among the opens pending with it.
    pub open spec fn wants(
        self,
        entry: (u32, u32),
        pending: Seq<PendingView>,
        attached: Set<u32>,
    ) -> bool {
        match self.what {
            ArrivalView::Attached(pid) => entry.1 == pid,
            ArrivalView::Launched(None) => false,
            ArrivalView::Launched(Some(before)) => {
                &&& !before.contains(entry)
                &&& !attached.contains(entry.1)
                &&& !spoken_for(pending, self.id, entry.1)
            },
        }
    }
}

fn holds_entry(entries: &Vec<(u32, u32)>, entry: (u32, u32)) -> (held: bool)
    ensures
        held == entries@.contains(entry),
{
    let mut i: usize = 0;
    while i < entries.len()
        invariant
            i <= entries@.len(),
            forall|j: int| 0 <= j < i ==> entries@[j] != entry,
        decreases entries.len() - i,
    {
        if entries[i].0 == entry.0 && entries[i].1 == entry.1 {
            assert(entries@[i as int] == entry);
            return true;
        }
        i = i + 1;
    }
    false
}

fn named_by_another(pending: &Vec<Pending>, id: ArrivalId, pid: u32) -> (named: bool)
    ensures
        named == spoken_for(pending_views(pending@), id, pid),
{
    let mut i: usize = 0;
    while i < pending.len()
        invariant
            i <= pending@.len(),
            forall|j: int|
                0 <= j < i ==> !((#[trigger] pending@[j]).id != id && pending@[j].what@
                    == ArrivalView::Attached(pid)),
        decreases pending.len() - i,
    {
        let named: bool = match &pending[i].what {
            Arrival::Attached(attached) => *attached == pid,
            Arrival::Launched(_) => false,
        };
        if named && pending[i].id != id {
            assert(pending_views(pending@)[i as int].id != id);
            return true;
        }
        i = i + 1;
    }
    assert forall|j: int| 0 <= j < pending_views(pending@).len() implies !((
    #[trigger] pending_views(pending@)[j]).id != id && pending_views(pending@)[j].what
        == ArrivalView::Attached(pid)) by {
        assert(!(pending@[j].id != id && pending@[j].what@ == ArrivalView::Attached(pid)));
    }
    false
}

impl Pending {
    /// Whether `entry` is the process this open is waiting for.
    ///
    /// `pending` is every open, and what keeps a launch and an attach pending together from
    /// satisfying each other: the process an attach is waiting for is new to the launch's
    /// snapshot and looks like the launch's own. `attached` also covers an attach whose open is
    /// gone.
    pub fn wants(&self, entry: (u32, u32), pending: &Vec<Pending>, attached: &HashSet<u32>) -> (
        wanted: bool)
        ensures
            wanted == self@.wants(entry, pending_views(pending@), attached@),
    {
        match &self.what {
            Arrival::Attached(pid) => entry.1 == *pid,
            Arrival::Launched(None) => false,
            Arrival::Launched(Some(before)) => {
                if holds_entry(before, entry) || attached.contains(&entry.1) {
                    return false;
                }
                !named_by_another(pending, self.id, entry.1)
            },
        }
    }
}

/// The opens waiting for a target to join the session and stop.
///
/// A register of deliveries: each stop goes to at most one open, and an open's entry lives
/// exactly as long as the open does, so there is no stale record for a reused number to match.
#[derive(Debug)]
pub struct Arrivals {
    /// Ids handed out so far.
    pub minted: u64,
    /// Registered in the order the opens were made, which is the order arrivals are offered in.
    pub pending: Vec<Pending>,
}

/// An [`Arrivals`] with its opens as a sequence.
#[verifier::ext_equal]
pub struct ArrivalsView {
    pub minted: nat,
    pub pending: Seq<PendingView>,
}

impl View for Arrivals {
    type V = ArrivalsView;

    open spec fn view(&self) -> ArrivalsView {
        ArrivalsView { minted: self.minted as nat, pending: pending_views(self.pending@) }
    }
}

impl ArrivalsView {
    /// Whether a process was already delivered to an open.
    pub open spec fn claimed(self, entry: (u32, u32)) -> bool {
        exists|i: int| 0 <= i < self.pending.len() && (#[trigger] self.pending[i]).arrived == Some(entry)
    }

    /// Whether the open at a position is waiting, and for this process.
    pub open spec fn takes(self, position: int, entry: (u32, u32), attached: Set<u32>) -> bool {
        &&& 0 <= position < self.pending.len()
        &&& self.pending[position].arrived is None
        &&& self.pending[position].wants(entry, self.pending, attached)
    }

    /// The same, with a process delivered to the open at a position.
    pub open spec fn delivered(self, position: int, entry: (u32, u32)) -> ArrivalsView {
        ArrivalsView {
            pending: self.pending.update(
                position,
                PendingView { arrived: Some(entry), ..self.pending[position] },
            ),
            ..self
        }
    }

    /// The same, without the open at a position.
    pub open spec fn without(self, position: int) -> ArrivalsView {
        ArrivalsView { pending: self.pending.remove(position), ..self }
    }

    /// Whether an id names a registered open.
    pub open spec fn names(self, id: ArrivalId) -> bool {
        exists|i: int| 0 <= i < self.pending.len() && (#[trigger] self.pending[i]).id == id
    }

    /// Ids are those handed out, each naming one open, and ascend in the order the opens were
    /// registered in. No process was delivered twice.
    pub open spec fn wf(self) -> bool {
        &&& forall|i: int| 0 <= i < self.pending.len() ==> (#[trigger] self.pending[i]).id.0 <= self.minted
        &&& forall|i: int, j: int|
            0 <= i < j < self.pending.len() ==> (#[trigger] self.pending[i]).id.0 < (
            #[trigger] self.pending[j]).id.0
        &&& forall|i: int, j: int|
            0 <= i < j < self.pending.len() && (#[trigger] self.pending[i]).arrived is Some ==> self.pending[i].arrived
                != (#[trigger] self.pending[j]).arrived
    }

    /// Where an open's target has got to, given the processes the session holds.
    pub open spec fn presence_at(
        self,
        position: int,
        held: Seq<(u32, u32)>,
        attached: Set<u32>,
    ) -> Presence {
        let pending = self.pending[position];
        if pending.arrived is Some {
            Presence::Arrived
        } else if pending.what == ArrivalView::Launched(None) {
            Presence::Unknown
        } else if exists|i: int|
            0 <= i < held.len() && pending.wants(#[trigger] held[i], self.pending, attached) {
            Presence::Listed
        } else {
            Presence::Absent
        }
    }
}

impl Default for Arrivals {
    fn default() -> (arrivals: Arrivals)
        ensures
            arrivals@ == (ArrivalsView { minted: 0, pending: Seq::empty() }),
            arrivals@.wf(),
    {
        let arrivals = Arrivals { minted: 0, pending: Vec::new() };
        assert(arrivals@.pending =~= Seq::empty());
        arrivals
    }
}

impl Arrivals {
    /// Registers an open, and answers the id that names it.
    pub fn register(&mut self, what: Arrival) -> (id: ArrivalId)
        requires
            old(self)@.wf(),
            old(self).minted < u64::MAX,
        ensures
            final(self)@.wf(),
            id.0 == old(self).minted + 1,
            final(self)@ == (ArrivalsView {
                minted: old(self)@.minted + 1,
                pending: old(self)@.pending.push(PendingView { id, what: what@, arrived: None }),
            }),
    {
        let ghost before = self@;
        self.minted = self.minted + 1;
        let id = ArrivalId(self.minted);
        self.pending.push(Pending { id, what, arrived: None });
        assert(self@.pending =~= before.pending.push(
            PendingView { id, what: what@, arrived: None },
        ));
        id
    }

    /// Forgets an open, when it ends.
    pub fn forget(&mut self, id: ArrivalId)
        requires
            old(self)@.wf(),
        ensures
            final(self)@.wf(),
            !old(self)@.names(id) ==> final(self)@ == old(self)@,
            forall|position: int|
                0 <= position < old(self)@.pending.len() && (
                #[trigger] old(self)@.pending[position]).id == id ==> final(self)@ == old(
                    self,
                )@.without(position),
    {
        let ghost before = self@;
        let mut i: usize = 0;
        while i < self.pending.len() && self.pending[i].id != id
            invariant
                i <= self.pending@.len(),
                forall|j: int| 0 <= j < i ==> (#[trigger] self.pending@[j]).id != id,
                *self == *old(self),
            decreases self.pending.len() - i,
        {
            i = i + 1;
        }
        assert forall|position: int|
            0 <= position < i && position < before.pending.len() implies (
        #[trigger] before.pending[position]).id != id by {
            assert(self.pending@[position].id != id);
        }
        if i < self.pending.len() {
            assert(before.pending[i as int].id == id);
            self.pending.remove(i);
            assert(self@.pending =~= before.pending.remove(i as int));
            proof {
                lemma_without_wf(before, i as int);
            }
        }
    }

    /// Forgets every open, when the session they were waiting on is replaced.
    pub fn forget_all(&mut self)
        ensures
            final(self)@ == (ArrivalsView { minted: old(self)@.minted, pending: Seq::empty() }),
    {
        self.pending.clear();
        assert(self@.pending =~= Seq::empty());
    }

    /// Routes a stop to the open that wants it, if any: the first registered that is still
    /// waiting. A process already delivered is offered to nobody.
    pub fn deliver(&mut self, entry: (u32, u32), attached: &HashSet<u32>)
        requires
            old(self)@.wf(),
        ensures
            final(self)@.wf(),
            old(self)@.claimed(entry) ==> final(self)@ == old(self)@,
            !old(self)@.claimed(entry) && (forall|i: int|
                0 <= i < old(self)@.pending.len() ==> !(#[trigger] old(self)@.takes(
                    i,
                    entry,
                    attached@,
                ))) ==> final(self)@ == old(self)@,
            forall|first: int|
                !old(self)@.claimed(entry) && (#[trigger] old(self)@.takes(first, entry, attached@))
                    && (forall|i: int|
                    0 <= i < first ==> !(#[trigger] old(self)@.takes(i, entry, attached@)))
                    ==> final(self)@ == old(self)@.delivered(first, entry),
    {
        let ghost before = self@;
        if self.is_claimed(entry) {
            return;
        }
        let first: usize = self.first_taker(entry, attached);
        if first == self.pending.len() {
            return;
        }
        assert forall|other: int|
            before.takes(other, entry, attached@) && (forall|i: int|
                0 <= i < other ==> !(#[trigger] before.takes(i, entry, attached@))) implies other
            == first by {}
        self.pending[first].arrived = Some(entry);
        proof {
            assert(self@.pending =~= before.delivered(first as int, entry).pending);
            assert forall|j: int| 0 <= j < self@.pending.len() implies #[trigger] self@.pending[j]
                == (if j == first {
                PendingView { arrived: Some(entry), ..before.pending[j] }
            } else {
                before.pending[j]
            }) by {}
            assert forall|j: int| 0 <= j < before.pending.len() implies (
            #[trigger] before.pending[j]).arrived != Some(entry) by {}
        }
    }

    fn is_claimed(&self, entry: (u32, u32)) -> (claimed: bool)
        ensures
            claimed == self@.claimed(entry),
    {
        let mut i: usize = 0;
        while i < self.pending.len()
            invariant
                i <= self.pending@.len(),
                forall|j: int| 0 <= j < i ==> (#[trigger] self.pending@[j]).arrived != Some(entry),
            decreases self.pending.len() - i,
        {
            let claimed: bool = match self.pending[i].arrived {
                Some(arrived) => arrived.0 == entry.0 && arrived.1 == entry.1,
                None => false,
            };
            if claimed {
                assert(self@.pending[i as int].arrived == Some(entry));
                return true;
            }
            i = i + 1;
        }
        assert forall|k: int| 0 <= k < self@.pending.len() implies (
        #[trigger] self@.pending[k]).arrived != Some(entry) by {
            assert(self.pending@[k].arrived != Some(entry));
        }
        false
    }

    fn first_taker(&self, entry: (u32, u32), attached: &HashSet<u32>) -> (first: usize)
        ensures
            first <= self@.pending.len(),
            first < self@.pending.len() ==> self@.takes(first as int, entry, attached@),
            forall|j: int| 0 <= j < first ==> !(#[trigger] self@.takes(j, entry, attached@)),
    {
        let mut first: usize = 0;
        while first < self.pending.len() && !(self.pending[first].arrived.is_none()
            && self.pending[first].wants(entry, &self.pending, attached))
            invariant
                first <= self.pending@.len(),
                forall|j: int| 0 <= j < first ==> !(#[trigger] self@.takes(j, entry, attached@)),
            decreases self.pending.len() - first,
        {
            first = first + 1;
        }
        first
    }

    fn wanted_among(&self, position: usize, held: &[(u32, u32)], attached: &HashSet<u32>) -> (
        wanted: bool)
        requires
            position < self@.pending.len(),
        ensures
            wanted == exists|i: int|
                0 <= i < held@.len() && self@.pending[position as int].wants(
                    #[trigger] held@[i],
                    self@.pending,
                    attached@,
                ),
    {
        let mut k: usize = 0;
        while k < held.len()
            invariant
                k <= held@.len(),
                position < self.pending@.len(),
                forall|j: int|
                    0 <= j < k ==> !self@.pending[position as int].wants(
                        #[trigger] held@[j],
                        self@.pending,
                        attached@,
                    ),
            decreases held.len() - k,
        {
            if self.pending[position].wants(held[k], &self.pending, attached) {
                return true;
            }
            k = k + 1;
        }
        false
    }

    /// Where the open `id` is waiting for has got to, given what the session currently holds. An
    /// id that names nothing is absent: the session was replaced under the open, or the open is
    /// gone.
    pub fn presence(&self, id: ArrivalId, held: &[(u32, u32)], attached: &HashSet<u32>) -> (
        presence: Presence)
        requires
            self@.wf(),
        ensures
            !self@.names(id) ==> presence is Absent,
            forall|position: int|
                0 <= position < self@.pending.len() && (#[trigger] self@.pending[position]).id == id
                    ==> presence == self@.presence_at(position, held@, attached@),
    {
        let mut i: usize = 0;
        while i < self.pending.len() && self.pending[i].id != id
            invariant
                i <= self.pending@.len(),
                forall|j: int| 0 <= j < i ==> (#[trigger] self.pending@[j]).id != id,
            decreases self.pending.len() - i,
        {
            i = i + 1;
        }
        if i == self.pending.len() {
            assert forall|position: int| 0 <= position < self@.pending.len() implies (
            #[trigger] self@.pending[position]).id != id by {
                assert(self.pending@[position].id != id);
            }
            return Presence::Absent;
        }
        assert(self@.pending[i as int].id == id);
        assert forall|position: int|
            0 <= position < self@.pending.len() && (#[trigger] self@.pending[position]).id
                == id implies position == i by {}
        if self.pending[i].arrived.is_some() {
            return Presence::Arrived;
        }
        let unknown: bool = matches!(self.pending[i].what, Arrival::Launched(None));
        if unknown {
            return Presence::Unknown;
        }
        if self.wanted_among(i, held, attached) {
            Presence::Listed
        } else {
            Presence::Absent
        }
    }
}

proof fn lemma_without_wf(arrivals: ArrivalsView, position: int)
    requires
        arrivals.wf(),
        0 <= position < arrivals.pending.len(),
    ensures
        arrivals.without(position).wf(),
        !arrivals.without(position).names(arrivals.pending[position].id),
{
    let after = arrivals.without(position);
    assert forall|j: int| 0 <= j < after.pending.len() implies #[trigger] after.pending[j]
        == arrivals.pending[if j < position {
        j
    } else {
        j + 1
    }] by {}
    assert forall|j: int| 0 <= j < after.pending.len() implies (#[trigger] after.pending[j]).id
        != arrivals.pending[position].id by {
        let k = if j < position {
            j
        } else {
            j + 1
        };
        assert(after.pending[j] == arrivals.pending[k]);
    }
}

/// A pending attach keeps its process from every pending launch, whichever was registered first.
pub proof fn an_attach_keeps_its_process(
    arrivals: ArrivalsView,
    launch: int,
    attach: int,
    entry: (u32, u32),
    attached: Set<u32>,
)
    requires
        arrivals.wf(),
        0 <= launch < arrivals.pending.len(),
        0 <= attach < arrivals.pending.len(),
        arrivals.pending[launch].what is Launched,
        arrivals.pending[attach].what == ArrivalView::Attached(entry.1),
    ensures
        !arrivals.takes(launch, entry, attached),
{
    if launch != attach {
        assert(arrivals.pending[attach].id != arrivals.pending[launch].id);
        assert(spoken_for(arrivals.pending, arrivals.pending[launch].id, entry.1));
    }
}

/// Opens pending at once are told apart: an open that was given a process takes no other, and
/// every other open still takes what it took before.
pub proof fn a_delivery_is_one_opens_alone(
    arrivals: ArrivalsView,
    first: int,
    other: int,
    entry: (u32, u32),
    next: (u32, u32),
    attached: Set<u32>,
)
    requires
        arrivals.takes(first, entry, attached),
        0 <= other < arrivals.pending.len(),
        other != first,
    ensures
        !arrivals.delivered(first, entry).takes(first, next, attached),
        arrivals.delivered(first, entry).takes(other, next, attached) == arrivals.takes(
            other,
            next,
            attached,
        ),
        arrivals.delivered(first, entry).claimed(entry),
        arrivals.delivered(first, entry).pending[other] == arrivals.pending[other],
{
    let after = arrivals.delivered(first, entry);
    assert(after.pending[first].arrived == Some(entry));
    let id = arrivals.pending[other].id;
    assert(spoken_for(after.pending, id, next.1) == spoken_for(arrivals.pending, id, next.1)) by {
        if spoken_for(after.pending, id, next.1) {
            let i = choose|i: int|
                0 <= i < after.pending.len() && (#[trigger] after.pending[i]).id != id
                    && after.pending[i].what == ArrivalView::Attached(next.1);
            assert(arrivals.pending[i].id != id);
        }
        if spoken_for(arrivals.pending, id, next.1) {
            let i = choose|i: int|
                0 <= i < arrivals.pending.len() && (#[trigger] arrivals.pending[i]).id != id
                    && arrivals.pending[i].what == ArrivalView::Attached(next.1);
            assert(after.pending[i].id != id);
        }
    }
}

/// A forgotten open names nothing any more, so nothing is answered about its process.
pub proof fn a_forgotten_open_is_gone(arrivals: ArrivalsView, position: int)
    requires
        arrivals.wf(),
        0 <= position < arrivals.pending.len(),
    ensures
        !arrivals.without(position).names(arrivals.pending[position].id),
{
    lemma_without_wf(arrivals, position);
}

/// An open wants the process it asked for: an attach the one of its pid, and a launch one that the
/// session did not hold before, that was not attached to, and that no other open asked for by its
/// pid. A launch with nothing to conclude from wants none.
pub proof fn an_open_wants_its_own(
    open: PendingView,
    entry: (u32, u32),
    pending: Seq<PendingView>,
    attached: Set<u32>,
    other: int,
)
    ensures
        open.what matches ArrivalView::Attached(pid) ==> (open.wants(entry, pending, attached)
            <==> entry.1 == pid),
        open.what == ArrivalView::Launched(None) ==> !open.wants(entry, pending, attached),
        open.what matches ArrivalView::Launched(Some(before)) ==> {
            &&& before.contains(entry) ==> !open.wants(entry, pending, attached)
            &&& attached.contains(entry.1) ==> !open.wants(entry, pending, attached)
            &&& 0 <= other < pending.len() && pending[other].id != open.id && pending[other].what
                == ArrivalView::Attached(entry.1) ==> !open.wants(entry, pending, attached)
            &&& !before.contains(entry) && !attached.contains(entry.1) && (forall|i: int|
                0 <= i < pending.len() && (#[trigger] pending[i]).id != open.id ==> pending[i].what
                    != ArrivalView::Attached(entry.1)) ==> open.wants(entry, pending, attached)
        },
{
}

/// Whether an open's process is there is told by what is known of it: it arrived where one was
/// delivered, is listed where the session holds one the open wants, and is absent where it holds
/// none; only a launch with nothing to conclude from cannot be answered.
pub proof fn presence_is_told_by_what_is_known(
    arrivals: ArrivalsView,
    position: int,
    held: Seq<(u32, u32)>,
    attached: Set<u32>,
    i: int,
)
    requires
        0 <= position < arrivals.pending.len(),
    ensures
        ({
            let open = arrivals.pending[position];
            let presence = arrivals.presence_at(position, held, attached);
            &&& presence is Arrived <==> open.arrived is Some
            &&& presence is Unknown <==> open.arrived is None && open.what
                == ArrivalView::Launched(None)
            &&& open.arrived is None && 0 <= i < held.len() && open.wants(
                held[i],
                arrivals.pending,
                attached,
            ) ==> presence is Listed
            &&& presence is Listed ==> exists|k: int|
                0 <= k < held.len() && open.wants(#[trigger] held[k], arrivals.pending, attached)
        }),
{
}

/// A delivery sets one open's process and nothing else.
pub proof fn a_delivery_moves_nothing_else(
    arrivals: ArrivalsView,
    position: int,
    entry: (u32, u32),
    other: int,
)
    requires
        0 <= position < arrivals.pending.len(),
        0 <= other < arrivals.pending.len(),
    ensures
        arrivals.delivered(position, entry).minted == arrivals.minted,
        arrivals.delivered(position, entry).pending.len() == arrivals.pending.len(),
        arrivals.delivered(position, entry).pending[position].arrived == Some(entry),
        arrivals.delivered(position, entry).pending[other].id == arrivals.pending[other].id,
        arrivals.delivered(position, entry).pending[other].what == arrivals.pending[other].what,
        other != position ==> arrivals.delivered(position, entry).pending[other]
            == arrivals.pending[other],
        arrivals.without(position).minted == arrivals.minted,
        arrivals.without(position).pending.len() == arrivals.pending.len() - 1,
        other < position ==> arrivals.without(position).pending[other] == arrivals.pending[other],
        other > position ==> arrivals.without(position).pending[other - 1]
            == arrivals.pending[other],
{
}

/// The opens are told as they are, in the order they were made.
pub proof fn the_opens_are_told_as_they_are(arrivals: Arrivals, i: int)
    requires
        0 <= i < arrivals.pending@.len(),
    ensures
        arrivals@.minted == arrivals.minted,
        arrivals@.pending.len() == arrivals.pending@.len(),
        arrivals@.pending[i].id == arrivals.pending@[i].id,
        arrivals@.pending[i].arrived == arrivals.pending@[i].arrived,
        arrivals.pending@[i].what matches Arrival::Attached(pid) ==> arrivals@.pending[i].what
            == ArrivalView::Attached(pid),
        arrivals.pending@[i].what matches Arrival::Launched(Some(before))
            ==> arrivals@.pending[i].what == ArrivalView::Launched(Some(before@)),
        arrivals.pending@[i].what matches Arrival::Launched(None) ==> arrivals@.pending[i].what
            == ArrivalView::Launched(None),
{
}

/// An open takes a process exactly where it has none yet and wants it, a process is claimed
/// exactly where some open has it, and an id names an open exactly where one is registered under
/// it.
pub proof fn an_open_takes_what_it_wants(
    arrivals: ArrivalsView,
    position: int,
    entry: (u32, u32),
    attached: Set<u32>,
    id: ArrivalId,
)
    requires
        0 <= position < arrivals.pending.len(),
    ensures
        arrivals.takes(position, entry, attached) <==> arrivals.pending[position].arrived is None
            && arrivals.pending[position].wants(entry, arrivals.pending, attached),
        arrivals.pending[position].arrived == Some(entry) ==> arrivals.claimed(entry),
        arrivals.delivered(position, entry).claimed(entry),
        arrivals.claimed(entry) ==> exists|i: int|
            0 <= i < arrivals.pending.len() && (#[trigger] arrivals.pending[i]).arrived == Some(
                entry,
            ),
        arrivals.names(arrivals.pending[position].id),
        arrivals.names(id) ==> exists|i: int|
            0 <= i < arrivals.pending.len() && (#[trigger] arrivals.pending[i]).id == id,
{
    let after = arrivals.delivered(position, entry);
    assert(after.pending[position].arrived == Some(entry));
}

} // verus!
