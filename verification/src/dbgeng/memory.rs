//! Reading a target: its memory, its types and what kind of target it is.
use vstd::prelude::*;
use vstd::string::*;

use super::codes::{DEBUG_CLASS_KERNEL, DEBUG_KERNEL_SMALL_DUMP, S_FALSE, S_OK};
use super::error::{in_context, DbgEngError, EngineFault};
use super::text::{before_nul, nul_terminated, utf8_lossy};
use crate::text::{decimal, decimal_text, hex, hex_text, joined};

verus! {

/// A buffer's size as the engine's own length fields hold it.
pub fn engine_size(size: usize) -> (length: Result<u32, DbgEngError>)
    ensures
        match length {
            Ok(length) => length == size,
            Err(error) => size > u32::MAX && error == DbgEngError::BufferTooLarge(size),
        },
{
    if size > u32::MAX as usize {
        return Err(DbgEngError::BufferTooLarge(size));
    }
    Ok(size as u32)
}

/// What reading `size` bytes of virtual memory came to: the buffer and how many bytes of it the
/// engine filled. A read that comes back short fails.
pub fn read_memory(address: u64, size: usize, reply: Result<(Vec<u8>, u32), EngineFault>) -> (bytes:
    Result<Vec<u8>, DbgEngError>)
    ensures
        match reply {
            Err(fault) => bytes matches Err(error) && error.is_context(
                "reading "@ + decimal_text(size as nat) + " bytes of virtual memory at "@
                    + hex_text(address as nat),
                fault,
            ),
            Ok((buffer, read)) => bytes == if read == size {
                Ok::<Vec<u8>, DbgEngError>(buffer)
            } else {
                Err::<Vec<u8>, DbgEngError>(
                    DbgEngError::ShortRead { address, requested: size, actual: read as usize },
                )
            },
        },
{
    match reply {
        Err(source) => {
            let mut operation = joined("reading ", decimal(size as u64).as_str());
            operation.append(" bytes of virtual memory at ");
            operation.append(hex(address).as_str());
            Err(DbgEngError::Context { operation, source })
        },
        Ok((buffer, read)) => {
            if read as usize != size {
                return Err(
                    DbgEngError::ShortRead { address, requested: size, actual: read as usize },
                );
            }
            Ok(buffer)
        },
    }
}

/// What asking for the valid region from a base on came to.
pub fn valid_virtual_region(base: u64, reply: Result<(u64, u32), EngineFault>) -> (region: Result<
    (u64, usize),
    DbgEngError,
>)
    ensures
        match reply {
            Ok((start, size)) => region == Ok::<(u64, usize), DbgEngError>((start, size as usize)),
            Err(fault) => region matches Err(error) && error.is_context(
                "querying valid virtual region at "@ + hex_text(base as nat),
                fault,
            ),
        },
{
    match reply {
        Ok((start, size)) => Ok((start, size as usize)),
        Err(source) => Err(
            DbgEngError::Context {
                operation: joined("querying valid virtual region at ", hex(base).as_str()),
                source,
            },
        ),
    }
}

/// Whether a break was requested, by the code of the poll: success says so, and success with
/// nothing to report says it was not.
pub fn interrupted(reply: EngineFault) -> (asked: Result<bool, DbgEngError>)
    ensures
        if reply.code == S_OK {
            asked == Ok::<bool, DbgEngError>(true)
        } else if reply.code == S_FALSE {
            asked == Ok::<bool, DbgEngError>(false)
        } else {
            asked matches Err(error) && error.is_context("polling debugger interrupt"@, reply)
        },
{
    if reply.code == S_OK {
        Ok(true)
    } else if reply.code == S_FALSE {
        Ok(false)
    } else {
        Err(
            DbgEngError::Context {
                operation: String::from_str("polling debugger interrupt"),
                source: reply,
            },
        )
    }
}

/// What the engine says its target is: a class, and a qualifier within it.
#[derive(Debug, Clone, Copy, PartialEq, Eq, Structural)]
pub struct TargetType {
    pub class: u32,
    pub qualifier: u32,
}

/// Whether the target is a kernel.
pub fn is_kernel_target(reply: Result<TargetType, EngineFault>) -> (kernel: Result<
    bool,
    DbgEngError,
>)
    ensures
        match reply {
            Ok(target) => kernel == Ok::<bool, DbgEngError>(target.class == DEBUG_CLASS_KERNEL),
            Err(fault) => kernel matches Err(error) && error.is_context(
                "querying target type"@,
                fault,
            ),
        },
{
    let target = in_context(String::from_str("querying target type"), reply)?;
    Ok(target.class == DEBUG_CLASS_KERNEL)
}

/// Whether the target is a live kernel connection rather than a dump of one or a process. A
/// target that cannot say is none.
pub fn is_live_kernel(target: Option<TargetType>) -> (live: bool)
    ensures
        live == (target matches Some(target) && target.class == DEBUG_CLASS_KERNEL
            && target.qualifier < DEBUG_KERNEL_SMALL_DUMP),
{
    match target {
        Some(target) => target.class == DEBUG_CLASS_KERNEL && target.qualifier
            < DEBUG_KERNEL_SMALL_DUMP,
        None => false,
    }
}

/// What resolving a symbol came to.
pub fn symbol_offset(name: &str, reply: Result<u64, EngineFault>) -> (offset: Result<
    u64,
    DbgEngError,
>)
    ensures
        match reply {
            Ok(value) => offset == Ok::<u64, DbgEngError>(value),
            Err(fault) => offset matches Err(error) && error.is_context(
                "resolving symbol "@ + name@,
                fault,
            ),
        },
{
    in_context(joined("resolving symbol ", name), reply)
}

/// What resolving a type came to.
pub fn type_id(name: &str, reply: Result<u32, EngineFault>) -> (id: Result<u32, DbgEngError>)
    ensures
        match reply {
            Ok(value) => id == Ok::<u32, DbgEngError>(value),
            Err(fault) => id matches Err(error) && error.is_context(
                "resolving type "@ + name@,
                fault,
            ),
        },
{
    in_context(joined("resolving type ", name), reply)
}

/// What resolving a type's size came to.
pub fn type_size(type_id: u32, reply: Result<u32, EngineFault>) -> (size: Result<u32, DbgEngError>)
    ensures
        match reply {
            Ok(value) => size == Ok::<u32, DbgEngError>(value),
            Err(fault) => size matches Err(error) && error.is_context(
                "resolving size of type id "@ + decimal_text(type_id as nat),
                fault,
            ),
        },
{
    in_context(joined("resolving size of type id ", decimal(type_id as u64).as_str()), reply)
}

/// What resolving a field's offset came to.
pub fn field_offset(field: &str, reply: Result<u32, EngineFault>) -> (offset: Result<
    u32,
    DbgEngError,
>)
    ensures
        match reply {
            Ok(value) => offset == Ok::<u32, DbgEngError>(value),
            Err(fault) => offset matches Err(error) && error.is_context(
                "resolving field "@ + field@,
                fault,
            ),
        },
{
    in_context(joined("resolving field ", field), reply)
}

/// What resolving a field's type and offset came to.
pub fn field_type_and_offset(field: &str, reply: Result<(u32, u32), EngineFault>) -> (resolved:
    Result<(u32, u32), DbgEngError>)
    ensures
        match reply {
            Ok(value) => resolved == Ok::<(u32, u32), DbgEngError>(value),
            Err(fault) => resolved matches Err(error) && error.is_context(
                "resolving type and offset of field "@ + field@,
                fault,
            ),
        },
{
    in_context(joined("resolving type and offset of field ", field), reply)
}

/// How many fields a type is asked for at most.
pub const MAX_FIELDS: u32 = 4096;

/// A walk over the fields of a type: the engine has no count of them, and the first index without
/// a name ends it.
pub struct FieldWalk {
    pub names: Vec<String>,
    pub over: bool,
}

impl FieldWalk {
    /// The index of the field to name next.
    pub open spec fn next_index(&self) -> Option<u32> {
        if !self.over && self.names@.len() < MAX_FIELDS {
            Some(self.names@.len() as u32)
        } else {
            None
        }
    }

    /// A walk that has named no field yet.
    pub fn new() -> (walk: FieldWalk)
        ensures
            walk.names@ == Seq::<String>::empty(),
            !walk.over,
    {
        FieldWalk { names: Vec::new(), over: false }
    }

    /// The index of the field to name next, or `None` where the walk is over.
    pub fn next(&self) -> (index: Option<u32>)
        ensures
            index == self.next_index(),
    {
        if !self.over && self.names.len() < MAX_FIELDS as usize {
            Some(self.names.len() as u32)
        } else {
            None
        }
    }

    /// Takes the name of the field asked for, where the engine has one.
    pub fn take(&mut self, name: Option<String>)
        requires
            old(self).next_index() is Some,
        ensures
            match name {
                Some(name) if name@.len() > 0 => final(self).names@ == old(self).names@.push(name)
                    && !final(self).over,
                _ => final(self).names@ == old(self).names@ && final(self).over,
            },
    {
        match name {
            Some(name) => if name.as_str().is_empty() {
                self.over = true;
            } else {
                self.names.push(name);
            },
            None => {
                self.over = true;
            },
        }
    }
}

/// What one of the engine's strings takes to read: it is asked for its size first, and then for
/// as much.
pub enum StringStep {
    /// A buffer of this many bytes, to be filled.
    Fill(usize),
    Done(Result<String, EngineFault>),
}

/// What to do once the engine has said how large a string is, its terminator included. An empty
/// one is not asked for again.
pub fn string_sized(needed: Result<u32, EngineFault>) -> (step: StringStep)
    ensures
        match needed {
            Err(fault) => step == StringStep::Done(Err::<String, EngineFault>(fault)),
            Ok(needed) => if needed <= 1 {
                step matches StringStep::Done(Ok(text)) && text@ == Seq::<char>::empty()
            } else {
                step == StringStep::Fill(needed as usize)
            },
        },
{
    match needed {
        Err(fault) => StringStep::Done(Err(fault)),
        Ok(needed) => if needed <= 1 {
            StringStep::Done(Ok(String::new()))
        } else {
            StringStep::Fill(needed as usize)
        },
    }
}

/// The string in a buffer the engine filled, up to its terminator.
pub fn string_filled(filled: Result<Vec<u8>, EngineFault>) -> (text: Result<String, EngineFault>)
    ensures
        match filled {
            Err(fault) => text == Err::<String, EngineFault>(fault),
            Ok(buffer) => text matches Ok(text) && text@ == utf8_lossy(before_nul(buffer@)),
        },
{
    match filled {
        Err(fault) => Err(fault),
        Ok(buffer) => Ok(nul_terminated(buffer.as_slice())),
    }
}

/// Fields are read one after another from the first, until the engine has no more or there are as
/// many as are read at most.
pub proof fn fields_are_read_in_order(walk: FieldWalk, index: u32)
    ensures
        walk.next_index() == Some(index) ==> index == walk.names@.len() && index < 4096
            && !walk.over,
        walk.next_index() is None ==> walk.over || walk.names@.len() >= 4096,
        walk.over ==> walk.next_index() is None,
{
}

} // verus!
