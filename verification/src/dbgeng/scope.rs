//! The engine's current scope: which instruction, which frame, and the register context those are
//! read through.
use vstd::prelude::*;
use vstd::string::*;

use super::codes::E_INVALIDARG;
use super::error::{in_context, DbgEngError, EngineFault};
use super::identity::{identities_never_return, issued, Identities};
use crate::text::{decimal, decimal_text, hex, hex_text, joined};

verus! {

/// One frame of a stack, as the engine walked it.
#[derive(Debug, Clone, Copy, PartialEq, Eq)]
pub struct FrameRecord {
    pub instruction_offset: u64,
    pub return_offset: u64,
    pub frame_offset: u64,
    pub stack_offset: u64,
    pub func_table_entry: u64,
    pub params: [u64; 4],
    pub reserved: [u64; 6],
    pub virtual_frame: i32,
    pub frame_number: u32,
}

/// A scope that was read, to be handed back to the engine.
#[derive(Clone, PartialEq, Eq)]
pub struct Scope {
    pub instruction: u64,
    pub frame: FrameRecord,
    /// The target's register context, verbatim. Empty where the scope carries none.
    pub context: Vec<u8>,
    /// Which target this was read from.
    pub target: u64,
}

impl Scope {
    /// The instruction the scope is on.
    pub fn instruction_offset(&self) -> (offset: u64)
        ensures
            offset == self.instruction,
    {
        self.instruction
    }

    /// The frame the scope names, as the engine walked it.
    pub fn frame(&self) -> (frame: &FrameRecord)
        ensures
            *frame == self.frame,
    {
        &self.frame
    }

    /// Whether the scope carries a register context. One that carries none is a scope all the
    /// same.
    pub fn has_context(&self) -> (has: bool)
        ensures
            has == (self.context@.len() > 0),
    {
        self.context.len() > 0
    }

    /// What the scope says of itself, as [`Self::to_text`] spells it.
    pub open spec fn summary(&self) -> Seq<char> {
        "Scope { instruction: "@ + hex_text(self.instruction as nat) + ", frame: "@ + decimal_text(
            self.frame.frame_number as nat,
        ) + ", frame_offset: "@ + hex_text(self.frame.frame_offset as nat) + ", context: "@
            + decimal_text(self.context@.len()) + " bytes, target: "@ + decimal_text(
            self.target as nat,
        ) + " }"@
    }

    /// A summary for a log line. The context is counted and not printed: its bytes mean nothing
    /// outside the engine.
    pub fn to_text(&self) -> (text: String)
        ensures
            text@ == self.summary(),
    {
        let mut text = joined("Scope { instruction: ", hex(self.instruction).as_str());
        text.append(", frame: ");
        text.append(decimal(self.frame.frame_number as u64).as_str());
        text.append(", frame_offset: ");
        text.append(hex(self.frame.frame_offset).as_str());
        text.append(", context: ");
        text.append(decimal(self.context.len() as u64).as_str());
        text.append(" bytes, target: ");
        text.append(decimal(self.target).as_str());
        text.append(" }");
        text
    }

    /// Whether the scope was read from the target of this identity.
    pub open spec fn is_of(&self, identity: u64) -> bool {
        self.target == identity
    }

    /// Whether the scope may be put back: the engine still holds the target it was read from.
    pub fn check_target(&self, identity: u64) -> (checked: Result<(), DbgEngError>)
        ensures
            checked == if self.is_of(identity) {
                Ok::<(), DbgEngError>(())
            } else {
                Err::<(), DbgEngError>(DbgEngError::ScopeFromAnotherTarget)
            },
    {
        if self.target != identity {
            return Err(DbgEngError::ScopeFromAnotherTarget);
        }
        Ok(())
    }
}

/// What putting a scope back came to.
pub fn restored(reply: Result<(), EngineFault>) -> (result: Result<(), DbgEngError>)
    ensures
        match reply {
            Ok(value) => result == Ok::<(), DbgEngError>(value),
            Err(fault) => result matches Err(error) && error.is_context(
                "restoring the debugger's scope"@,
                fault,
            ),
        },
{
    in_context(String::from_str("restoring the debugger's scope"), reply)
}

/// How many sizes of a register context are tried.
pub const SCOPE_CONTEXT_FORMS: usize = 9;

/// The sizes a register context is asked for with, smallest first.
pub open spec fn context_size(form: int) -> u32 {
    if form == 0 {
        716
    } else if form == 1 {
        912
    } else if form == 2 {
        1232
    } else if form == 3 {
        2048
    } else if form == 4 {
        4096
    } else if form == 5 {
        8192
    } else if form == 6 {
        16384
    } else if form == 7 {
        32768
    } else {
        65536
    }
}

/// A bigger context is asked for only after every smaller one.
pub proof fn contexts_grow(left: int, right: int)
    requires
        0 <= left < right < SCOPE_CONTEXT_FORMS,
    ensures
        context_size(left) < context_size(right),
{
}

/// Reading the scope: the context's sizes are tried upward, since the engine refuses a buffer
/// that is too small and says no more, and the scope without a context is asked for last.
pub struct ScopeRead {
    /// Which size is tried next, or all of them are behind.
    pub form: usize,
    /// Why the last form did not work.
    pub refusal: Option<EngineFault>,
}

/// What the engine answered to one form of the question.
pub struct ScopeAnswer {
    pub instruction: u64,
    pub frame: FrameRecord,
    pub context: Vec<u8>,
}

/// Where reading the scope stands after an answer.
pub enum ScopeStep {
    Again(ScopeRead),
    Done(Result<Scope, DbgEngError>),
}

impl ScopeRead {
    /// The size of the context to ask for, or `None` for no context.
    pub open spec fn size(&self) -> Option<u32> {
        if self.form < SCOPE_CONTEXT_FORMS {
            Some(context_size(self.form as int))
        } else {
            None
        }
    }

    /// A reading that has asked nothing yet.
    pub fn new() -> (read: ScopeRead)
        ensures
            read.form == 0,
            read.refusal is None,
    {
        ScopeRead { form: 0, refusal: None }
    }

    /// The size of the context to ask for, or `None` for no context.
    pub fn ask(&self) -> (size: Option<u32>)
        ensures
            size == self.size(),
    {
        match self.form {
            0 => Some(716),
            1 => Some(912),
            2 => Some(1232),
            3 => Some(2048),
            4 => Some(4096),
            5 => Some(8192),
            6 => Some(16384),
            7 => Some(32768),
            8 => Some(65536),
            _ => None,
        }
    }

    /// Takes the answer to the question asked. The first form that is answered is the scope. A
    /// context that does not fit is asked for again with more room, one that is declined
    /// otherwise not at all, and where no form works the failure of the context is reported.
    pub fn take(self, reply: Result<ScopeAnswer, EngineFault>, target: u64) -> (step: ScopeStep)
        ensures
            match reply {
                Ok(answer) => {
                    &&& step matches ScopeStep::Done(Ok(scope))
                    &&& scope.instruction == answer.instruction
                    &&& scope.frame == answer.frame
                    &&& scope.context@ == if self.size() is Some {
                        answer.context@
                    } else {
                        Seq::empty()
                    }
                    &&& scope.target == target
                },
                Err(fault) => if self.size() is Some {
                    step == ScopeStep::Again(
                        ScopeRead {
                            form: if fault.code == E_INVALIDARG {
                                (self.form + 1) as usize
                            } else {
                                SCOPE_CONTEXT_FORMS
                            },
                            refusal: Some(fault),
                        },
                    )
                } else {
                    step matches ScopeStep::Done(Err(error)) && error.is_context(
                        "reading the debugger's scope"@,
                        match self.refusal {
                            Some(refusal) => refusal,
                            None => fault,
                        },
                    )
                },
            },
    {
        let sized: bool = self.form < SCOPE_CONTEXT_FORMS;
        match reply {
            Ok(answer) => ScopeStep::Done(
                Ok(
                    Scope {
                        instruction: answer.instruction,
                        frame: answer.frame,
                        context: if sized {
                            answer.context
                        } else {
                            Vec::new()
                        },
                        target,
                    },
                ),
            ),
            Err(fault) => if sized {
                let form: usize = if fault.code == E_INVALIDARG {
                    self.form + 1
                } else {
                    SCOPE_CONTEXT_FORMS
                };
                ScopeStep::Again(ScopeRead { form, refusal: Some(fault) })
            } else {
                let source = match self.refusal {
                    Some(refusal) => refusal,
                    None => fault,
                };
                ScopeStep::Done(
                    Err(
                        DbgEngError::Context {
                            operation: String::from_str("reading the debugger's scope"),
                            source,
                        },
                    ),
                )
            },
        }
    }
}

/// A scope is refused once its client's target was let go, whatever the client holds by then.
pub proof fn a_scope_does_not_outlive_its_target(
    scope: Scope,
    key: u64,
    read_under: Identities,
    let_go: Identities,
    reissued: u64,
    reopened: Identities,
    later: u64,
    now: Identities,
)
    requires
        issued(read_under, key, scope.target, let_go),
        issued(let_go, key, reissued, reopened),
        reissued >= let_go.next,
        issued(reopened, key, later, now),
    ensures
        !scope.is_of(later),
{
    identities_never_return(
        read_under,
        key,
        scope.target,
        let_go,
        reissued,
        reopened,
        later,
        now,
    );
}

/// The sizes tried are those of the processors' own contexts first, and then whole powers of two,
/// each twice the one before.
pub proof fn every_context_has_its_size(form: int)
    ensures
        context_size(0) == 716 && context_size(1) == 912 && context_size(2) == 1232,
        context_size(3) == 2048,
        3 <= form < 8 ==> context_size(form + 1) == 2 * context_size(form),
        SCOPE_CONTEXT_FORMS == 9,
{
}

/// Sizes are asked for in order until all are behind, and a scope is of the target whose identity
/// it carries, and of no other.
pub proof fn a_scope_is_asked_for_in_order(read: ScopeRead, scope: Scope, identity: u64)
    ensures
        read.size() is None <==> read.form >= 9,
        read.form < 9 ==> read.size() == Some(context_size(read.form as int)),
        scope.is_of(identity) <==> scope.target == identity,
{
}

/// What a scope says of itself starts with where it is, and then with its frame.
pub proof fn a_scope_says_where_it_is(scope: Scope)
    ensures
        ("Scope { instruction: "@ + hex_text(scope.instruction as nat) + ", frame: "@
            + decimal_text(scope.frame.frame_number as nat) + ", frame_offset: "@ + hex_text(
            scope.frame.frame_offset as nat,
        ) + ", context: "@ + decimal_text(scope.context@.len()) + " bytes, target: "@
            + decimal_text(scope.target as nat)).is_prefix_of(scope.summary()),
{
    let head = "Scope { instruction: "@ + hex_text(scope.instruction as nat) + ", frame: "@
        + decimal_text(scope.frame.frame_number as nat) + ", frame_offset: "@ + hex_text(
        scope.frame.frame_offset as nat,
    ) + ", context: "@ + decimal_text(scope.context@.len()) + " bytes, target: "@ + decimal_text(
        scope.target as nat,
    );
    assert(scope.summary().take(head.len() as int) =~= head);
}

} // verus!
