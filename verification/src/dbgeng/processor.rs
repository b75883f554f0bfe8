//! Which processor of a kernel target the debugger is on.
use vstd::prelude::*;
use vstd::string::*;

use super::error::{DbgEngError, EngineFault};

verus! {

/// A search for the processor whose thread is the current one. The one whose number is the
/// current thread's index is asked first, and then every other in turn.
pub struct ProcessorSearch {
    /// The current thread's index.
    pub current: u32,
    /// How many processors the target has.
    pub count: u32,
    /// How many were asked.
    pub asked: u32,
    /// The processor found.
    pub found: Option<u32>,
    /// The first lookup that failed.
    pub unreadable: Option<EngineFault>,
}

impl ProcessorSearch {
    /// The processor asked at a place of the search.
    pub open spec fn candidate(current: u32, place: int) -> int {
        if place == 0 {
            current as int
        } else if place <= current {
            place - 1
        } else {
            place
        }
    }

    /// The processor asked at a place, where the current thread's index is no processor number.
    pub open spec fn at(&self, place: int) -> int {
        if self.current < self.count {
            Self::candidate(self.current, place)
        } else {
            place
        }
    }

    /// The processor to ask next.
    pub open spec fn next_processor(&self) -> Option<u32> {
        if self.found is None && self.asked < self.count {
            Some(self.at(self.asked as int) as u32)
        } else {
            None
        }
    }

    /// The search once the processor asked has answered.
    pub open spec fn after(self, thread: Result<u32, EngineFault>) -> ProcessorSearch {
        match thread {
            Ok(thread) => if thread == self.current {
                ProcessorSearch {
                    asked: (self.asked + 1) as u32,
                    found: self.next_processor(),
                    ..self
                }
            } else {
                ProcessorSearch { asked: (self.asked + 1) as u32, ..self }
            },
            Err(fault) => ProcessorSearch {
                asked: (self.asked + 1) as u32,
                unreadable: if self.unreadable is Some {
                    self.unreadable
                } else {
                    Some(fault)
                },
                ..self
            },
        }
    }

    /// A search that has asked no processor yet.
    pub fn new(current: u32, count: u32) -> (search: ProcessorSearch)
        ensures
            search == (ProcessorSearch { current, count, asked: 0, found: None, unreadable: None }),
    {
        ProcessorSearch { current, count, asked: 0, found: None, unreadable: None }
    }

    /// The processor to ask next, or `None` where the search is over.
    pub fn next(&self) -> (processor: Option<u32>)
        ensures
            processor == self.next_processor(),
            processor matches Some(number) ==> number < self.count,
    {
        if self.found.is_some() || self.asked >= self.count {
            return None;
        }
        if self.current >= self.count {
            return Some(self.asked);
        }
        if self.asked == 0 {
            Some(self.current)
        } else if self.asked <= self.current {
            Some(self.asked - 1)
        } else {
            Some(self.asked)
        }
    }

    /// Takes the thread of the processor asked. One whose thread is the current one ends the
    /// search, whatever failed before.
    pub fn take(self, thread: Result<u32, EngineFault>) -> (search: ProcessorSearch)
        requires
            self.next_processor() is Some,
        ensures
            search == self.after(thread),
    {
        let processor = self.next();
        let asked: u32 = self.asked + 1;
        match thread {
            Ok(thread) => if thread == self.current {
                ProcessorSearch { asked, found: processor, ..self }
            } else {
                ProcessorSearch { asked, ..self }
            },
            Err(fault) => match self.unreadable {
                Some(first) => ProcessorSearch { asked, unreadable: Some(first), ..self },
                None => ProcessorSearch { asked, unreadable: Some(fault), ..self },
            },
        }
    }

    /// What the search came to: a match, none at all, or an answer that a failed lookup keeps
    /// unknown.
    pub fn finish(self) -> (processor: Result<Option<u32>, DbgEngError>)
        requires
            self.next_processor() is None,
        ensures
            match (self.found, self.unreadable) {
                (Some(number), _) => processor == Ok::<Option<u32>, DbgEngError>(Some(number)),
                (None, None) => processor == Ok::<Option<u32>, DbgEngError>(None),
                (None, Some(fault)) => processor matches Err(error) && error.is_context(
                    "reading which processor the debugger is on"@,
                    fault,
                ),
            },
    {
        if self.found.is_some() {
            return Ok(self.found);
        }
        match self.unreadable {
            None => Ok(None),
            Some(source) => Err(
                DbgEngError::Context {
                    operation: String::from_str("reading which processor the debugger is on"),
                    source,
                },
            ),
        }
    }
}

/// Every processor of the target is asked, and none of them twice.
pub proof fn every_processor_is_asked_once(search: ProcessorSearch, number: u32)
    requires
        number < search.count,
    ensures
        exists|place: int| 0 <= place < search.count && #[trigger] search.at(place) == number,
        forall|left: int, right: int|
            0 <= left < right < search.count ==> #[trigger] search.at(left) != #[trigger] search.at(
                right,
            ),
        forall|place: int|
            0 <= place < search.count ==> 0 <= #[trigger] search.at(place) < search.count,
{
    let place = if search.current >= search.count || number > search.current {
        number as int
    } else if number == search.current {
        0
    } else {
        number + 1
    };
    assert(search.at(place) == number);
}

/// What a whole search comes to, over what each processor's thread is said to be.
pub open spec fn search_of(search: ProcessorSearch, threads: spec_fn(int) -> Result<
    u32,
    EngineFault,
>) -> ProcessorSearch
    decreases search.count - search.asked,
{
    match search.next_processor() {
        None => search,
        Some(number) => search_of(search.after(threads(number as int)), threads),
    }
}

/// Whether a processor is the one whose thread is the current one.
pub open spec fn is_on(
    search: ProcessorSearch,
    threads: spec_fn(int) -> Result<u32, EngineFault>,
    number: int,
) -> bool {
    threads(number) matches Ok(thread) && thread == search.current
}

proof fn lemma_search(
    search: ProcessorSearch,
    threads: spec_fn(int) -> Result<u32, EngineFault>,
)
    requires
        search.found is None,
        search.asked <= search.count,
        forall|place: int|
            0 <= place < search.asked ==> !is_on(search, threads, #[trigger] search.at(place)),
        search.unreadable is None ==> forall|place: int|
            0 <= place < search.asked ==> threads(#[trigger] search.at(place)) is Ok,
    ensures
        ({
            let over = search_of(search, threads);
            &&& over.next_processor() is None
            &&& over.current == search.current && over.count == search.count
            &&& over.found matches Some(number) ==> number < search.count && is_on(
                search,
                threads,
                number as int,
            )
            &&& over.found is None ==> forall|place: int|
                0 <= place < search.count ==> !is_on(search, threads, #[trigger] search.at(place))
            &&& over.found is None && over.unreadable is None ==> forall|place: int|
                0 <= place < search.count ==> threads(#[trigger] search.at(place)) is Ok
        }),
    decreases search.count - search.asked,
{
    if search.asked < search.count {
        let number = search.at(search.asked as int) as u32;
        every_processor_is_asked_once(search, number);
        let next = search.after(threads(number as int));
        if next.found is None {
            assert forall|place: int| 0 <= place < next.asked implies !is_on(
                next,
                threads,
                #[trigger] next.at(place),
            ) && (next.unreadable is None ==> threads(next.at(place)) is Ok) by {
                assert(next.at(place) == search.at(place));
            }
            lemma_search(next, threads);
            assert forall|place: int| search.at(place) == next.at(place) by {}
        }
    }
}

/// A search answers with a processor only where that processor's thread is the current one, and
/// answers that there is none only where every lookup was answered and none matched. A lookup
/// that fails is not a processor that does not match.
pub proof fn unknown_is_not_absent(
    current: u32,
    count: u32,
    threads: spec_fn(int) -> Result<u32, EngineFault>,
)
    ensures
        ({
            let search = ProcessorSearch {
                current,
                count,
                asked: 0,
                found: None,
                unreadable: None,
            };
            let over = search_of(search, threads);
            &&& over.next_processor() is None
            &&& over.found matches Some(number) ==> number < count && (threads(number as int)
                matches Ok(thread) && thread == current)
            &&& over.found is None ==> forall|number: u32|
                number < count ==> !(#[trigger] threads(number as int) matches Ok(thread) && thread
                    == current)
            &&& over.found is None && over.unreadable is None ==> forall|number: u32|
                number < count ==> #[trigger] threads(number as int) is Ok
        }),
{
    let search = ProcessorSearch { current, count, asked: 0, found: None, unreadable: None };
    lemma_search(search, threads);
    let over = search_of(search, threads);
    assert forall|number: u32| number < count && over.found is None implies !(#[trigger] threads(
        number as int,
    ) matches Ok(thread) && thread == current) by {
        every_processor_is_asked_once(search, number);
        let place = choose|place: int| 0 <= place < count && #[trigger] search.at(place) == number;
        assert(!is_on(search, threads, search.at(place)));
    }
    assert forall|number: u32|
        number < count && over.found is None && over.unreadable is None implies #[trigger] threads(
        number as int,
    ) is Ok by {
        every_processor_is_asked_once(search, number);
        let place = choose|place: int| 0 <= place < count && #[trigger] search.at(place) == number;
        assert(threads(search.at(place)) is Ok);
    }
}

/// Whether a lookup is the first that failed, in the order they were made.
pub open spec fn first_to_fail(
    search: ProcessorSearch,
    threads: spec_fn(int) -> Result<u32, EngineFault>,
    place: int,
) -> bool {
    &&& threads(search.at(place)) is Err
    &&& forall|earlier: int|
        0 <= earlier < place ==> threads(#[trigger] search.at(earlier)) is Ok
}

/// Whether a search keeps the fault of the first lookup that failed, and one only where one did.
pub open spec fn keeps_the_first_fault(
    search: ProcessorSearch,
    threads: spec_fn(int) -> Result<u32, EngineFault>,
) -> bool {
    match search.unreadable {
        None => forall|place: int|
            0 <= place < search.asked ==> threads(#[trigger] search.at(place)) is Ok,
        Some(fault) => exists|place: int|
            0 <= place < search.asked && #[trigger] first_to_fail(search, threads, place)
                && threads(search.at(place))->Err_0 == fault,
    }
}

proof fn lemma_keeps_the_first_fault(
    search: ProcessorSearch,
    threads: spec_fn(int) -> Result<u32, EngineFault>,
)
    requires
        keeps_the_first_fault(search, threads),
    ensures
        keeps_the_first_fault(search_of(search, threads), threads),
    decreases search.count - search.asked,
{
    if let Some(number) = search.next_processor() {
        let next = search.after(threads(number as int));
        assert forall|place: int| search.at(place) == #[trigger] next.at(place) by {}
        assert(search.at(search.asked as int) == number);
        match search.unreadable {
            None => {
                assert forall|place: int| 0 <= place < search.asked implies threads(
                    #[trigger] next.at(place),
                ) is Ok by {
                    assert(threads(search.at(place)) is Ok);
                }
                if next.unreadable is Some {
                    assert(first_to_fail(next, threads, search.asked as int));
                }
            },
            Some(fault) => {
                let place = choose|place: int|
                    0 <= place < search.asked && #[trigger] first_to_fail(search, threads, place)
                        && threads(search.at(place))->Err_0 == fault;
                assert forall|earlier: int| 0 <= earlier < place implies threads(
                    #[trigger] next.at(earlier),
                ) is Ok by {
                    assert(threads(search.at(earlier)) is Ok);
                }
                assert(first_to_fail(next, threads, place));
            },
        }
        lemma_keeps_the_first_fault(next, threads);
    }
}

/// A search that is over keeps the fault of the first lookup that failed, in the order they were
/// made, and keeps one only where a lookup failed.
pub proof fn the_first_fault_is_kept(
    current: u32,
    count: u32,
    threads: spec_fn(int) -> Result<u32, EngineFault>,
)
    ensures
        keeps_the_first_fault(
            search_of(
                ProcessorSearch { current, count, asked: 0, found: None, unreadable: None },
                threads,
            ),
            threads,
        ),
{
    lemma_keeps_the_first_fault(
        ProcessorSearch { current, count, asked: 0, found: None, unreadable: None },
        threads,
    );
}

/// The processor of the current thread's own number is asked first, and the others in ascending
/// order; where there is none of that number all are asked in ascending order.
pub proof fn the_likeliest_processor_is_asked_first(
    search: ProcessorSearch,
    earlier: int,
    later: int,
)
    requires
        0 <= earlier < later < search.count,
    ensures
        search.current < search.count ==> search.at(0) == search.current,
        search.current < search.count && earlier > 0 ==> search.at(earlier) < search.at(later),
        search.current < search.count ==> search.at(later) != search.current,
        search.current >= search.count ==> search.at(earlier) == earlier,
        0 <= search.at(earlier) < search.count,
        0 <= search.at(later) < search.count,
{
}

/// A processor is the current thread's exactly where the engine says so, and each is asked once;
/// a lookup that failed says nothing of where the thread is, and the first is kept.
pub proof fn a_lookup_says_one_thing(search: ProcessorSearch, thread: Result<u32, EngineFault>)
    requires
        search.next_processor() is Some,
    ensures
        search.found is None && search.asked < search.count,
        search.after(thread).asked == search.asked + 1,
        search.after(thread).count == search.count,
        search.after(thread).current == search.current,
        search.after(thread).found is Some <==> thread == Ok::<u32, EngineFault>(search.current),
        search.after(thread).found is Some ==> search.after(thread).found
            == search.next_processor(),
        thread is Ok ==> search.after(thread).unreadable == search.unreadable,
        search.unreadable is Some ==> search.after(thread).unreadable == search.unreadable,
        search.unreadable is None && thread is Err ==> search.after(thread).unreadable == Some(
            thread->Err_0,
        ),
        search.next_processor()->0 == search.at(search.asked as int),
{
}

} // verus!
