//! The stack, the code and the bug check a target stopped with.
use vstd::prelude::*;
use vstd::string::*;

use super::error::{in_context, DbgEngError, EngineFault};
use super::scope::FrameRecord;
use super::text::{instruction_parts, is_blank, split_instruction, trimmed, Instruction};
use crate::text::{hex, hex_text, joined};

verus! {

/// One frame of a stack walk.
#[derive(Debug, Clone, PartialEq, Eq)]
pub struct StackFrame {
    /// Its position in the walk: 0 is the innermost frame, where the target is stopped.
    pub index: u32,
    /// The instruction this frame is executing at.
    pub instruction_offset: u64,
    pub return_offset: u64,
    pub frame_offset: u64,
    pub stack_offset: u64,
    /// The symbol the instruction resolves to, or `None` when nothing resolves.
    pub symbol: Option<String>,
    /// How far past the symbol the instruction is; zero when there is no symbol.
    pub displacement: u64,
}

/// The symbol an address resolves to and how far past it the address is.
pub open spec fn resolved_symbol(name: Option<String>, displacement: u64) -> (Option<String>, u64) {
    match name {
        Some(name) => if name@.len() > 0 {
            (Some(name), displacement)
        } else {
            (None, 0)
        },
        None => (None, 0),
    }
}

/// The symbol an address resolves to and how far past it the address is. An address that resolves
/// to nothing, or to no name, has no symbol.
pub fn symbol_at(name: Option<String>, displacement: u64) -> (symbol: (Option<String>, u64))
    ensures
        symbol == resolved_symbol(name, displacement),
{
    match name {
        Some(name) => if name.as_str().is_empty() {
            (None, 0)
        } else {
            (Some(name), displacement)
        },
        None => (None, 0),
    }
}

/// The frame of a record at a place of the walk, with the symbol its instruction resolves to.
pub open spec fn frame_of(
    index: int,
    record: FrameRecord,
    name: Option<String>,
    displacement: u64,
) -> StackFrame {
    let (symbol, displacement) = resolved_symbol(name, displacement);
    StackFrame {
        index: index as u32,
        instruction_offset: record.instruction_offset,
        return_offset: record.return_offset,
        frame_offset: record.frame_offset,
        stack_offset: record.stack_offset,
        symbol,
        displacement,
    }
}

/// A walk over the frames the engine filled in.
pub struct StackWalk {
    pub records: Vec<FrameRecord>,
    /// How many of the records are frames.
    pub count: usize,
    /// The frames named so far, each at its place.
    pub frames: Vec<StackFrame>,
}

impl StackWalk {
    /// Whether the walk stays within what was filled in.
    pub open spec fn wf(&self) -> bool {
        &&& self.frames@.len() <= self.count <= self.records@.len()
        &&& self.count <= u32::MAX
    }

    /// The address whose symbol to look up next.
    pub open spec fn next_address(&self) -> Option<u64> {
        if self.frames@.len() < self.count {
            Some(self.records@[self.frames@.len() as int].instruction_offset)
        } else {
            None
        }
    }

    /// How many frames the engine is asked for, or `None` where none are wanted: it is then not
    /// asked at all.
    pub fn room(max_frames: usize) -> (room: Option<usize>)
        ensures
            room == if max_frames == 0 {
                None::<usize>
            } else {
                Some(max_frames)
            },
    {
        if max_frames == 0 {
            None
        } else {
            Some(max_frames)
        }
    }

    /// A walk over as many records as the engine says it filled in, and over no more than there
    /// are. An engine that was not asked has none.
    pub fn begin(reply: Option<Result<(Vec<FrameRecord>, u32), EngineFault>>) -> (walk: Result<
        StackWalk,
        DbgEngError,
    >)
        ensures
            match reply {
                None => {
                    &&& walk matches Ok(walk)
                    &&& walk.wf()
                    &&& walk.count == 0
                    &&& walk.frames@ == Seq::<StackFrame>::empty()
                },
                Some(Ok((records, filled))) => {
                    &&& walk matches Ok(walk)
                    &&& walk.wf()
                    &&& walk.records == records
                    &&& walk.count == if filled <= records@.len() {
                        filled as int
                    } else {
                        records@.len() as int
                    }
                    &&& walk.frames@ == Seq::<StackFrame>::empty()
                },
                Some(Err(fault)) => walk matches Err(error) && error.is_context(
                    "walking the current thread's stack"@,
                    fault,
                ),
            },
    {
        match reply {
            None => Ok(StackWalk { records: Vec::new(), count: 0, frames: Vec::new() }),
            Some(Ok((records, filled))) => {
                let room: usize = records.len();
                let count: usize = if (filled as usize) < room {
                    filled as usize
                } else {
                    room
                };
                Ok(StackWalk { records, count, frames: Vec::new() })
            },
            Some(Err(source)) => Err(
                DbgEngError::Context {
                    operation: String::from_str("walking the current thread's stack"),
                    source,
                },
            ),
        }
    }

    /// The address whose symbol to look up next, or `None` where every frame is named.
    pub fn next(&self) -> (address: Option<u64>)
        requires
            self.wf(),
        ensures
            address == self.next_address(),
    {
        if self.frames.len() < self.count {
            Some(self.records[self.frames.len()].instruction_offset)
        } else {
            None
        }
    }

    /// Takes the symbol of the frame asked for, where it has one.
    pub fn take(&mut self, name: Option<String>, displacement: u64)
        requires
            old(self).wf(),
            old(self).next_address() is Some,
        ensures
            final(self).wf(),
            final(self).records == old(self).records,
            final(self).count == old(self).count,
            final(self).frames@ == old(self).frames@.push(
                frame_of(
                    old(self).frames@.len() as int,
                    old(self).records@[old(self).frames@.len() as int],
                    name,
                    displacement,
                ),
            ),
    {
        let place: usize = self.frames.len();
        let record = self.records[place];
        let (symbol, displacement) = symbol_at(name, displacement);
        self.frames.push(
            StackFrame {
                index: place as u32,
                instruction_offset: record.instruction_offset,
                return_offset: record.return_offset,
                frame_offset: record.frame_offset,
                stack_offset: record.stack_offset,
                symbol,
                displacement,
            },
        );
    }
}

/// A walk over instructions: each one's end is the next one's start.
pub struct Disassembly {
    /// Where the next instruction is.
    pub at: u64,
    /// How many instructions may still be rendered.
    pub left: usize,
    pub instructions: Vec<Instruction>,
    /// Whether the walk stopped short.
    pub over: bool,
}

impl Disassembly {
    /// The address to render next.
    pub open spec fn next_address(&self) -> Option<u64> {
        if !self.over && self.left > 0 {
            Some(self.at)
        } else {
            None
        }
    }

    /// Whether the instructions so far go forward, and the walk with them.
    pub open spec fn forward(&self) -> bool {
        &&& forall|i: int, j: int|
            0 <= i < j < self.instructions@.len() ==> (#[trigger] self.instructions@[i]).address < (
            #[trigger] self.instructions@[j]).address
        &&& !self.over ==> forall|i: int|
            0 <= i < self.instructions@.len() ==> (#[trigger] self.instructions@[i]).address
                < self.at
    }

    /// A walk over `count` instructions from `address` on.
    pub fn new(address: u64, count: usize) -> (walk: Disassembly)
        ensures
            walk.at == address,
            walk.left == count,
            walk.instructions@ == Seq::<Instruction>::empty(),
            !walk.over,
            walk.forward(),
    {
        Disassembly { at: address, left: count, instructions: Vec::new(), over: false }
    }

    /// The address to render next, or `None` where the walk is over.
    pub fn next(&self) -> (address: Option<u64>)
        ensures
            address == self.next_address(),
    {
        if !self.over && self.left > 0 {
            Some(self.at)
        } else {
            None
        }
    }

    /// Takes the line rendered for the address asked for, and where the engine says the next
    /// instruction is. A first address that renders to nothing fails the walk; a later one ends
    /// it, and so does an engine that does not advance. `nothing` is what the system says of a
    /// call that succeeded with nothing to report.
    pub fn take(self, line: Result<String, EngineFault>, next: u64, nothing: EngineFault) -> (walk:
        Result<Disassembly, DbgEngError>)
        requires
            self.next_address() is Some,
            self.forward(),
        ensures
            match line {
                Ok(line) if trimmed(line@).len() > 0 => {
                    &&& walk matches Ok(walk)
                    &&& walk.instructions@.len() == self.instructions@.len() + 1
                    &&& walk.instructions@.drop_last() == self.instructions@
                    &&& walk.instructions@.last().address == self.at
                    &&& (walk.instructions@.last().bytes@, walk.instructions@.last().text@)
                        == instruction_parts(line@)
                    &&& walk.left == self.left - 1
                    &&& walk.over == (next <= self.at)
                    &&& !walk.over ==> walk.at == next
                },
                _ => if self.instructions@.len() > 0 {
                    walk == Ok::<Disassembly, DbgEngError>(Disassembly { over: true, ..self })
                } else {
                    walk matches Err(error) && error.is_context(
                        "disassembling "@ + hex_text(self.at as nat),
                        match line {
                            Ok(_) => nothing,
                            Err(fault) => fault,
                        },
                    )
                },
            },
            walk matches Ok(walk) ==> walk.forward(),
    {
        let (text, source) = match line {
            Ok(line) => if is_blank(line.as_str()) {
                (None, nothing)
            } else {
                (Some(line), nothing)
            },
            Err(fault) => (None, fault),
        };
        match text {
            Some(line) => {
                let ghost before = self.instructions@;
                let instruction = split_instruction(self.at, line.as_str());
                let mut instructions = self.instructions;
                instructions.push(instruction);
                assert(instructions@.drop_last() =~= before);
                let over: bool = next <= self.at;
                Ok(
                    Disassembly {
                        at: if over {
                            self.at
                        } else {
                            next
                        },
                        left: self.left - 1,
                        instructions,
                        over,
                    },
                )
            },
            None => if self.instructions.len() > 0 {
                Ok(Disassembly { over: true, ..self })
            } else {
                Err(
                    DbgEngError::Context {
                        operation: joined("disassembling ", hex(self.at).as_str()),
                        source,
                    },
                )
            },
        }
    }
}

/// The bug check a target stopped on.
#[derive(Debug, Clone, Copy, PartialEq, Eq)]
pub struct BugCheck {
    pub code: u32,
    /// The four parameters, in order.
    pub parameters: [u64; 4],
}

/// The bug check the engine read, or `None` for the code that is none.
pub fn bug_check(reply: Result<BugCheck, EngineFault>) -> (check: Result<
    Option<BugCheck>,
    DbgEngError,
>)
    ensures
        match reply {
            Ok(read) => check == Ok::<Option<BugCheck>, DbgEngError>(
                if read.code == 0 {
                    None
                } else {
                    Some(read)
                },
            ),
            Err(fault) => check matches Err(error) && error.is_context(
                "reading the target's bug check data"@,
                fault,
            ),
        },
{
    let read = in_context(String::from_str("reading the target's bug check data"), reply)?;
    if read.code == 0 {
        return Ok(None);
    }
    Ok(Some(read))
}

/// A frame is the engine's record at its own place: its instruction, return, frame and stack
/// offset are the record's of the same name, and its index is where it stands.
pub proof fn a_frame_is_its_own_record(
    index: int,
    record: FrameRecord,
    name: Option<String>,
    displacement: u64,
)
    requires
        0 <= index <= u32::MAX,
    ensures
        frame_of(index, record, name, displacement).index == index,
        frame_of(index, record, name, displacement).instruction_offset == record.instruction_offset,
        frame_of(index, record, name, displacement).return_offset == record.return_offset,
        frame_of(index, record, name, displacement).frame_offset == record.frame_offset,
        frame_of(index, record, name, displacement).stack_offset == record.stack_offset,
        name is None || name->0@.len() == 0 ==> frame_of(
            index,
            record,
            name,
            displacement,
        ).symbol is None && frame_of(index, record, name, displacement).displacement == 0,
        name is Some && name->0@.len() > 0 ==> frame_of(index, record, name, displacement).symbol
            == name && frame_of(index, record, name, displacement).displacement == displacement,
{
}

/// What a stack walk has named by its answers, in order: each is the symbol and the displacement
/// the frame at its place was given.
pub open spec fn walked(records: Seq<FrameRecord>, answers: Seq<(Option<String>, u64)>) -> Seq<
    StackFrame,
>
    decreases answers.len(),
{
    if answers.len() == 0 {
        Seq::empty()
    } else {
        let place = answers.len() - 1;
        walked(records, answers.drop_last()).push(
            frame_of(place, records[place], answers.last().0, answers.last().1),
        )
    }
}

/// Every frame of a walk is the record at its own index, field by field, with the symbol that was
/// answered for that record and no other.
pub proof fn every_frame_is_its_own_record(
    records: Seq<FrameRecord>,
    answers: Seq<(Option<String>, u64)>,
    i: int,
)
    requires
        0 <= i < answers.len() <= records.len(),
        answers.len() <= u32::MAX,
    ensures
        walked(records, answers).len() == answers.len(),
        walked(records, answers)[i].index == i,
        walked(records, answers)[i].instruction_offset == records[i].instruction_offset,
        walked(records, answers)[i].return_offset == records[i].return_offset,
        walked(records, answers)[i].frame_offset == records[i].frame_offset,
        walked(records, answers)[i].stack_offset == records[i].stack_offset,
        walked(records, answers)[i].symbol matches Some(symbol) ==> answers[i].0 == Some(symbol)
            && walked(records, answers)[i].displacement == answers[i].1,
        walked(records, answers)[i].symbol is None ==> walked(records, answers)[i].displacement
            == 0,
    decreases answers.len(),
{
    if i < answers.len() - 1 {
        every_frame_is_its_own_record(records, answers.drop_last(), i);
    } else if answers.len() > 1 {
        every_frame_is_its_own_record(records, answers.drop_last(), 0);
    }
}

/// A stack walk asks for the symbol of every frame's own instruction, one after the other, and of
/// nothing else.
pub proof fn a_stack_is_asked_for_in_order(walk: StackWalk)
    requires
        walk.wf(),
    ensures
        walk.next_address() is None <==> walk.frames@.len() == walk.count,
        walk.next_address() matches Some(address) ==> address
            == walk.records@[walk.frames@.len() as int].instruction_offset,
{
}

/// A name is a symbol where there is any of it, and an address that has none is displaced from
/// nothing.
pub proof fn no_symbol_no_displacement(name: Option<String>, displacement: u64)
    ensures
        resolved_symbol(name, displacement).0 is Some <==> name is Some && name->0@.len() > 0,
        resolved_symbol(name, displacement).0 is Some ==> resolved_symbol(name, displacement) == (
            name,
            displacement,
        ),
        resolved_symbol(name, displacement).0 is None ==> resolved_symbol(name, displacement).1
            == 0,
{
}

/// A disassembly goes on exactly where it is not over and instructions are still wanted, at the
/// address the last one ended at.
pub proof fn a_disassembly_goes_on_where_it_was(walk: Disassembly)
    ensures
        walk.next_address() is None <==> walk.over || walk.left == 0,
        walk.next_address() matches Some(address) ==> address == walk.at,
{
}

} // verus!
