//! The registers of a target's context.
use vstd::prelude::*;
use vstd::string::*;

use super::codes::{
    DEBUG_REGISTER_SUB_REGISTER, DEBUG_VALUE_FLOAT128, DEBUG_VALUE_FLOAT32, DEBUG_VALUE_FLOAT64,
    DEBUG_VALUE_FLOAT80, DEBUG_VALUE_FLOAT82, DEBUG_VALUE_INT16, DEBUG_VALUE_INT32,
    DEBUG_VALUE_INT64, DEBUG_VALUE_INT8, DEBUG_VALUE_VECTOR128, DEBUG_VALUE_VECTOR64,
};
use super::error::{DbgEngError, EngineFault};
use crate::bytes::{le32, le64, read_le32, read_le64};
use crate::text::{decimal, decimal_text, joined};

verus! {

/// What one register holds.
#[derive(Debug, Clone, PartialEq, Eq)]
pub enum RegisterValue {
    /// An integer register, zero-extended to 64 bits from whatever width the engine reported.
    Int(u64),
    /// A 32-bit floating-point register, as its bits.
    Single(u32),
    /// A 64-bit floating-point register, as its bits.
    Double(u64),
    /// A wider floating-point or a vector register, in the engine's byte order.
    Bytes(Vec<u8>),
    /// The engine holds no value for this register, or one of a type this build does not decode.
    Unavailable,
}

/// A value as the engine writes it: a tag, and the bytes the tag says how to read.
#[derive(Debug, Clone, Copy, PartialEq, Eq)]
pub struct RawValue {
    pub tag: u32,
    pub bytes: [u8; 24],
}

/// A [`RegisterValue`] with its bytes as a sequence.
#[verifier::ext_equal]
pub ghost enum ValueView {
    Int(u64),
    Single(u32),
    Double(u64),
    Bytes(Seq<u8>),
    Unavailable,
}

impl View for RegisterValue {
    type V = ValueView;

    open spec fn view(&self) -> ValueView {
        match self {
            RegisterValue::Int(value) => ValueView::Int(*value),
            RegisterValue::Single(bits) => ValueView::Single(*bits),
            RegisterValue::Double(bits) => ValueView::Double(*bits),
            RegisterValue::Bytes(bytes) => ValueView::Bytes(bytes@),
            RegisterValue::Unavailable => ValueView::Unavailable,
        }
    }
}

/// What a tagged value holds. Only the bytes the tag names are read.
pub open spec fn value_of(raw: RawValue) -> ValueView {
    let bytes = raw.bytes@;
    if raw.tag == DEBUG_VALUE_INT8 {
        ValueView::Int(bytes[0] as u64)
    } else if raw.tag == DEBUG_VALUE_INT16 {
        ValueView::Int((bytes[0] + 0x100 * bytes[1]) as u64)
    } else if raw.tag == DEBUG_VALUE_INT32 {
        ValueView::Int(le32(bytes, 0) as u64)
    } else if raw.tag == DEBUG_VALUE_INT64 {
        ValueView::Int(le64(bytes, 0))
    } else if raw.tag == DEBUG_VALUE_FLOAT32 {
        ValueView::Single(le32(bytes, 0))
    } else if raw.tag == DEBUG_VALUE_FLOAT64 {
        ValueView::Double(le64(bytes, 0))
    } else if raw.tag == DEBUG_VALUE_FLOAT80 {
        ValueView::Bytes(bytes.take(10))
    } else if raw.tag == DEBUG_VALUE_FLOAT82 {
        ValueView::Bytes(bytes.take(11))
    } else if raw.tag == DEBUG_VALUE_FLOAT128 || raw.tag == DEBUG_VALUE_VECTOR128 {
        ValueView::Bytes(bytes.take(16))
    } else if raw.tag == DEBUG_VALUE_VECTOR64 {
        ValueView::Bytes(bytes.take(8))
    } else {
        ValueView::Unavailable
    }
}

fn front(bytes: &[u8], count: usize) -> (front: Vec<u8>)
    requires
        count <= bytes@.len(),
    ensures
        front@ == bytes@.take(count as int),
{
    let mut front: Vec<u8> = Vec::new();
    let mut i: usize = 0;
    while i < count
        invariant
            i <= count <= bytes@.len(),
            front@ == bytes@.take(i as int),
        decreases count - i,
    {
        front.push(bytes[i]);
        i += 1;
    }
    front
}

impl RegisterValue {
    /// Decodes one value by its own tag.
    pub fn decode(raw: &RawValue) -> (value: RegisterValue)
        ensures
            value@ == value_of(*raw),
    {
        let bytes = raw.bytes.as_slice();
        match raw.tag {
            DEBUG_VALUE_INT8 => RegisterValue::Int(bytes[0] as u64),
            DEBUG_VALUE_INT16 => RegisterValue::Int(bytes[0] as u64 + 0x100 * (bytes[1] as u64)),
            DEBUG_VALUE_INT32 => RegisterValue::Int(read_le32(bytes, 0) as u64),
            DEBUG_VALUE_INT64 => RegisterValue::Int(read_le64(bytes, 0)),
            DEBUG_VALUE_FLOAT32 => RegisterValue::Single(read_le32(bytes, 0)),
            DEBUG_VALUE_FLOAT64 => RegisterValue::Double(read_le64(bytes, 0)),
            DEBUG_VALUE_FLOAT80 => RegisterValue::Bytes(front(bytes, 10)),
            DEBUG_VALUE_FLOAT82 => RegisterValue::Bytes(front(bytes, 11)),
            DEBUG_VALUE_FLOAT128 => RegisterValue::Bytes(front(bytes, 16)),
            DEBUG_VALUE_VECTOR64 => RegisterValue::Bytes(front(bytes, 8)),
            DEBUG_VALUE_VECTOR128 => RegisterValue::Bytes(front(bytes, 16)),
            _ => RegisterValue::Unavailable,
        }
    }
}

/// A value is decoded from the bytes its tag names and from no others.
pub proof fn only_the_tagged_bytes_count(left: RawValue, right: RawValue)
    requires
        left.tag == right.tag,
        forall|i: int| 0 <= i < 16 ==> left.bytes@[i] == right.bytes@[i],
    ensures
        value_of(left) == value_of(right),
        left.tag == DEBUG_VALUE_INT8 ==> value_of(left) == ValueView::Int(left.bytes@[0] as u64),
{
    assert(left.bytes@.take(8) =~= right.bytes@.take(8));
    assert(left.bytes@.take(10) =~= right.bytes@.take(10));
    assert(left.bytes@.take(11) =~= right.bytes@.take(11));
    assert(left.bytes@.take(16) =~= right.bytes@.take(16));
}

/// What the engine says a register is, as distinct from what it holds.
#[derive(Debug, Clone, PartialEq, Eq)]
pub struct RegisterDescription {
    /// The engine's own name for it.
    pub name: String,
    /// The type the engine reports this register's value as.
    pub kind: u32,
    pub flags: u32,
    /// The index of the register this one is a piece of, where the flags say it is one.
    pub subreg_master: u32,
    /// How many bits of the master this register covers, under the same condition.
    pub subreg_length: u32,
    pub subreg_mask: u64,
    pub subreg_shift: u32,
}

/// One register of the target's context.
#[derive(Debug, Clone, PartialEq, Eq)]
pub struct Register {
    /// The engine's own name for it.
    pub name: String,
    pub value: RegisterValue,
    /// Whether this register is a view of another rather than storage of its own.
    pub subregister: bool,
}

/// A walk over the registers the engine counts, by index.
pub struct RegisterWalk {
    pub count: u32,
    /// The descriptions read so far, each at its index.
    pub described: Vec<RegisterDescription>,
}

impl RegisterWalk {
    /// The index of the register to describe next.
    pub open spec fn next_index(&self) -> Option<u32> {
        if self.described@.len() < self.count {
            Some(self.described@.len() as u32)
        } else {
            None
        }
    }

    /// A walk over as many registers as the engine counts.
    pub fn begin(count: Result<u32, EngineFault>) -> (walk: Result<RegisterWalk, DbgEngError>)
        ensures
            match count {
                Ok(count) => walk matches Ok(walk) && walk.count == count && walk.described@
                    == Seq::<RegisterDescription>::empty(),
                Err(fault) => walk matches Err(error) && error.is_context(
                    "counting the target's registers"@,
                    fault,
                ),
            },
    {
        match count {
            Ok(count) => Ok(RegisterWalk { count, described: Vec::new() }),
            Err(source) => Err(
                DbgEngError::Context {
                    operation: String::from_str("counting the target's registers"),
                    source,
                },
            ),
        }
    }

    /// The index of the register to describe next, or `None` where every one is described.
    pub fn next(&self) -> (index: Option<u32>)
        ensures
            index == self.next_index(),
    {
        if self.described.len() < self.count as usize {
            Some(self.described.len() as u32)
        } else {
            None
        }
    }

    /// Takes the description of the register asked for. One that cannot be had fails the walk.
    pub fn take(self, description: Result<RegisterDescription, EngineFault>) -> (walk: Result<
        RegisterWalk,
        DbgEngError,
    >)
        requires
            self.next_index() is Some,
        ensures
            match description {
                Ok(description) => walk matches Ok(walk) && walk.count == self.count
                    && walk.described@ == self.described@.push(description),
                Err(fault) => walk matches Err(error) && error.is_context(
                    "describing register "@ + decimal_text(self.described@.len()),
                    fault,
                ),
            },
    {
        match description {
            Ok(description) => {
                let mut described = self.described;
                described.push(description);
                Ok(RegisterWalk { count: self.count, described })
            },
            Err(source) => Err(
                DbgEngError::Context {
                    operation: joined(
                        "describing register ",
                        decimal(self.described.len() as u64).as_str(),
                    ),
                    source,
                },
            ),
        }
    }
}

/// A described register with what it holds. One the engine produces no value for is unavailable:
/// it fails nothing.
pub fn register(description: &RegisterDescription, value: Option<RawValue>) -> (register: Register)
    ensures
        register.name == description.name,
        register.value@ == match value {
            Some(raw) => value_of(raw),
            None => ValueView::Unavailable,
        },
        register.subregister == (description.flags & DEBUG_REGISTER_SUB_REGISTER != 0),
{
    Register {
        name: description.name.clone(),
        value: match &value {
            Some(raw) => RegisterValue::decode(raw),
            None => RegisterValue::Unavailable,
        },
        subregister: description.flags & DEBUG_REGISTER_SUB_REGISTER != 0,
    }
}

/// A register's value is what its tag says its bytes are: an integer of the width, a
/// floating-point number of the width, or so many bytes; of any other tag there is none.
pub proof fn a_value_is_what_its_tag_says(raw: RawValue)
    ensures
        raw.tag == 1 ==> value_of(raw) == ValueView::Int(raw.bytes@[0] as u64),
        raw.tag == 2 ==> {
            &&& value_of(raw) matches ValueView::Int(value)
            &&& value as int % 0x100 == raw.bytes@[0]
            &&& value as int / 0x100 == raw.bytes@[1]
        },
        raw.tag == 3 ==> value_of(raw) == ValueView::Int(le32(raw.bytes@, 0) as u64),
        raw.tag == 4 ==> value_of(raw) == ValueView::Int(le64(raw.bytes@, 0)),
        raw.tag == 5 ==> value_of(raw) == ValueView::Single(le32(raw.bytes@, 0)),
        raw.tag == 6 ==> value_of(raw) == ValueView::Double(le64(raw.bytes@, 0)),
        7 <= raw.tag <= 11 <==> value_of(raw) is Bytes,
        value_of(raw) matches ValueView::Bytes(bytes) ==> {
            &&& bytes.is_prefix_of(raw.bytes@)
            &&& raw.tag == 7 ==> bytes.len() == 10
            &&& raw.tag == 8 ==> bytes.len() == 11
            &&& raw.tag == 9 || raw.tag == 11 ==> bytes.len() == 16
            &&& raw.tag == 10 ==> bytes.len() == 8
        },
        value_of(raw) is Unavailable <==> raw.tag == 0 || raw.tag > 11,
{
}

/// A value is told as what it is.
pub proof fn a_value_is_told_as_it_is(value: RegisterValue)
    ensures
        value matches RegisterValue::Int(number) ==> value@ == ValueView::Int(number),
        value matches RegisterValue::Single(bits) ==> value@ == ValueView::Single(bits),
        value matches RegisterValue::Double(bits) ==> value@ == ValueView::Double(bits),
        value matches RegisterValue::Bytes(bytes) ==> value@ == ValueView::Bytes(bytes@),
        value is Unavailable <==> value@ is Unavailable,
{
}

/// Registers are described one after another, each at its index, until all are.
pub proof fn registers_are_described_in_order(walk: RegisterWalk, index: u32)
    ensures
        walk.next_index() == Some(index) ==> index == walk.described@.len() && index < walk.count,
        walk.next_index() is None ==> walk.described@.len() >= walk.count,
{
}

} // verus!
