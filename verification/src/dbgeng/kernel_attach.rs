//! The announcement-driven attach to a running kernel: one break, upon the text the engine prints
//! when its link comes up.
//!
//! The announcement is text that was observed and not a contract, so a session in which it does
//! not come fails rather than falling back.
use vstd::prelude::*;

use super::codes::{DEBUG_OUTPUT_NORMAL, DEBUG_STATUS_BREAK, S_OK};
use super::error::{DbgEngError, EngineFault};
use super::text::{characters, has_nul};
use super::wait::WaitOutcome;

verus! {

/// What the engine prints at the start of a line when its link comes up.
pub open spec fn announcement() -> Seq<u8> {
    seq![
        0x43u8,
        0x6f,
        0x6e,
        0x6e,
        0x65,
        0x63,
        0x74,
        0x65,
        0x64,
        0x20,
        0x74,
        0x6f,
        0x20,
        0x74,
        0x61,
        0x72,
        0x67,
        0x65,
        0x74,
        0x20,
    ]
}

/// How long the announcement is.
pub const ANNOUNCEMENT_LENGTH: usize = 20;

/// The end of a line.
pub const NEWLINE: u8 = 0x0a;

fn announcement_byte(at: usize) -> (byte: u8)
    requires
        at < ANNOUNCEMENT_LENGTH,
    ensures
        byte == announcement()[at as int],
{
    match at {
        0 => 0x43,
        1 => 0x6f,
        2 => 0x6e,
        3 => 0x6e,
        4 => 0x65,
        5 => 0x63,
        6 => 0x74,
        7 => 0x65,
        8 => 0x64,
        9 => 0x20,
        10 => 0x74,
        11 => 0x6f,
        12 => 0x20,
        13 => 0x74,
        14 => 0x61,
        15 => 0x72,
        16 => 0x67,
        17 => 0x65,
        18 => 0x74,
        _ => 0x20,
    }
}

/// Whether a line of a text begins at a place.
pub open spec fn begins_line(text: Seq<u8>, start: int) -> bool {
    0 <= start <= text.len() && (start == 0 || text[start - 1] == NEWLINE)
}

/// Whether a line of a text begins with the announcement.
pub open spec fn announced(text: Seq<u8>) -> bool {
    exists|start: int|
        #[trigger] begins_line(text, start) && start + ANNOUNCEMENT_LENGTH <= text.len()
            && text.subrange(start, start + ANNOUNCEMENT_LENGTH) == announcement()
}

/// Where the last line of a text begins.
pub open spec fn last_line(text: Seq<u8>) -> int
    decreases text.len(),
{
    if text.len() == 0 || text.last() == NEWLINE {
        text.len() as int
    } else {
        last_line(text.drop_last())
    }
}

/// How much of the announcement the line being printed has matched.
#[derive(Debug, Clone, Copy, PartialEq, Eq, Structural)]
pub struct Notice {
    pub matched: usize,
    /// Whether the line is already known not to be the announcement.
    pub skip_line: bool,
    /// Whether the announcement was seen.
    pub fired: bool,
}

impl Notice {
    /// Whether this is where a notice stands once it has seen a text.
    pub open spec fn has_seen(&self, text: Seq<u8>) -> bool {
        let line = text.skip(last_line(text));
        &&& self.fired == announced(text)
        &&& self.matched <= ANNOUNCEMENT_LENGTH
        &&& !self.fired && !self.skip_line ==> self.matched < ANNOUNCEMENT_LENGTH && line
            == announcement().take(self.matched as int)
        &&& !self.fired && self.skip_line ==> self.matched == 0 && !line.is_prefix_of(
            announcement(),
        ) && line.len() > 0
    }

    /// Whether a notice is one that some text leads to.
    pub open spec fn wf(&self) -> bool {
        exists|text: Seq<u8>| self.has_seen(text)
    }
}

impl Default for Notice {
    fn default() -> (notice: Notice)
        ensures
            notice.has_seen(Seq::empty()),
            notice == (Notice { matched: 0, skip_line: false, fired: false }),
    {
        let notice = Notice { matched: 0, skip_line: false, fired: false };
        proof {
            let nothing = Seq::<u8>::empty();
            assert(nothing.skip(0) =~= announcement().take(0));
            assert(!announced(nothing));
        }
        notice
    }
}

proof fn lemma_last_line(text: Seq<u8>)
    ensures
        begins_line(text, last_line(text)),
        forall|start: int| #[trigger] begins_line(text, start) ==> start <= last_line(text),
    decreases text.len(),
{
    if text.len() > 0 && text.last() != NEWLINE {
        lemma_last_line(text.drop_last());
        assert forall|start: int| #[trigger] begins_line(text, start) implies start <= last_line(
            text,
        ) by {
            assert(start < text.len());
            assert(begins_line(text.drop_last(), start));
        }
    }
}

proof fn lemma_still_announced(text: Seq<u8>, more: Seq<u8>)
    requires
        announced(text),
    ensures
        announced(text + more),
{
    let start = choose|start: int|
        #[trigger] begins_line(text, start) && start + ANNOUNCEMENT_LENGTH <= text.len()
            && text.subrange(start, start + ANNOUNCEMENT_LENGTH) == announcement();
    assert(begins_line(text + more, start));
    assert((text + more).subrange(start, start + ANNOUNCEMENT_LENGTH) =~= text.subrange(
        start,
        start + ANNOUNCEMENT_LENGTH,
    ));
}

/// One byte more announces only where the last line has become the announcement.
proof fn lemma_announced_by(text: Seq<u8>, byte: u8)
    requires
        !announced(text),
    ensures
        announced(text.push(byte)) <==> text.push(byte).skip(last_line(text)) == announcement(),
{
    let grown = text.push(byte);
    lemma_last_line(text);
    let line = last_line(text);
    if grown.skip(line) == announcement() {
        assert(begins_line(grown, line));
        assert(grown.skip(line).len() == ANNOUNCEMENT_LENGTH);
        assert(grown.subrange(line, line + ANNOUNCEMENT_LENGTH) =~= grown.skip(line));
    }
    if announced(grown) {
        let start = choose|start: int|
            #[trigger] begins_line(grown, start) && start + ANNOUNCEMENT_LENGTH <= grown.len()
                && grown.subrange(start, start + ANNOUNCEMENT_LENGTH) == announcement();
        assert(begins_line(text, start));
        if start + ANNOUNCEMENT_LENGTH <= text.len() {
            assert(text.subrange(start, start + ANNOUNCEMENT_LENGTH) =~= grown.subrange(
                start,
                start + ANNOUNCEMENT_LENGTH,
            ));
            assert(false);
        }
        if start < line {
            // The line's own start is within what was taken for the announcement.
            assert(text[line - 1] == NEWLINE);
            assert(grown.subrange(start, start + ANNOUNCEMENT_LENGTH)[line - 1 - start]
                == NEWLINE);
            assert(announcement()[line - 1 - start] != NEWLINE);
        }
        assert(grown.subrange(start, start + ANNOUNCEMENT_LENGTH) =~= grown.skip(line));
    }
}

/// What a byte does to a notice that has seen a text.
proof fn lemma_byte(notice: Notice, text: Seq<u8>, byte: u8, after: Notice)
    requires
        notice.has_seen(text),
        !notice.fired,
        after == if byte == NEWLINE {
            Notice { matched: 0, skip_line: false, fired: false }
        } else if notice.skip_line {
            notice
        } else if byte == announcement()[notice.matched as int] {
            Notice {
                matched: (notice.matched + 1) as usize,
                skip_line: false,
                fired: notice.matched + 1 == ANNOUNCEMENT_LENGTH,
            }
        } else {
            Notice { matched: 0, skip_line: true, fired: false }
        },
    ensures
        after.has_seen(text.push(byte)),
{
    let grown = text.push(byte);
    let line = text.skip(last_line(text));
    lemma_last_line(text);
    lemma_announced_by(text, byte);
    assert(grown.skip(last_line(text)) =~= line.push(byte));
    assert(grown.drop_last() =~= text);
    if byte == NEWLINE {
        assert(last_line(grown) == grown.len());
        assert(grown.skip(grown.len() as int) =~= announcement().take(0));
        assert(line.push(byte).last() == NEWLINE);
        assert(announcement().last() != NEWLINE);
    } else {
        assert(last_line(grown) == last_line(text));
        let longer = line.push(byte);
        if notice.skip_line {
            if longer.is_prefix_of(announcement()) {
                assert(line =~= announcement().take(line.len() as int)) by {
                    assert(longer =~= announcement().take(longer.len() as int));
                    assert(longer.take(line.len() as int) =~= line);
                }
                assert(line.is_prefix_of(announcement()));
            }
            if longer == announcement() {
                assert(line =~= announcement().take(line.len() as int)) by {
                    assert(longer.take(line.len() as int) =~= line);
                }
                assert(line.is_prefix_of(announcement()));
            }
        } else if byte == announcement()[notice.matched as int] {
            assert(longer =~= announcement().take(notice.matched + 1));
            if notice.matched + 1 == ANNOUNCEMENT_LENGTH {
                assert(announcement().take(notice.matched + 1) =~= announcement());
            }
        } else {
            let at = notice.matched as int;
            assert(longer[at] == byte);
            if longer.is_prefix_of(announcement()) {
                assert(longer[at] == announcement()[at]);
            }
        }
    }
}

impl Notice {
    /// Takes a piece of output, and says whether it brought the announcement: a line of all the
    /// ordinary output so far that begins with it. Other output is not read, and the announcement
    /// is brought once.
    pub fn feed(&mut self, mask: u32, bytes: &[u8]) -> (fire: bool)
        requires
            old(self).wf(),
        ensures
            mask != DEBUG_OUTPUT_NORMAL || old(self).fired ==> !fire && *final(self) == *old(self),
            mask == DEBUG_OUTPUT_NORMAL && !old(self).fired ==> fire == final(self).fired
                && forall|text: Seq<u8>| #[trigger]
                old(self).has_seen(text) ==> final(self).has_seen(text + bytes@) && fire
                    == announced(text + bytes@),
            final(self).wf(),
    {
        let ghost start = *self;
        let ghost seen = choose|text: Seq<u8>| self.has_seen(text);
        if mask != DEBUG_OUTPUT_NORMAL || self.fired {
            return false;
        }
        let mut i: usize = 0;
        proof {
            assert forall|text: Seq<u8>| #[trigger] start.has_seen(text) implies self.has_seen(
                text + bytes@.take(0),
            ) by {
                assert(text + bytes@.take(0) =~= text);
            }
        }
        while i < bytes.len()
            invariant
                i <= bytes@.len(),
                !self.fired,
                start.has_seen(seen),
                forall|text: Seq<u8>| #[trigger]
                    start.has_seen(text) ==> self.has_seen(text + bytes@.take(i as int)),
                start == *old(self),
                !start.fired,
                mask == DEBUG_OUTPUT_NORMAL,
            decreases bytes@.len() - i,
        {
            let byte: u8 = bytes[i];
            let ghost before = *self;
            assert(before.has_seen(seen + bytes@.take(i as int)));
            if byte == NEWLINE {
                self.matched = 0;
                self.skip_line = false;
            } else if !self.skip_line {
                if byte == announcement_byte(self.matched) {
                    self.matched = self.matched + 1;
                    if self.matched == ANNOUNCEMENT_LENGTH {
                        self.fired = true;
                    }
                } else {
                    self.matched = 0;
                    self.skip_line = true;
                }
            }
            proof {
                assert forall|text: Seq<u8>| #[trigger] start.has_seen(text) implies self.has_seen(
                    text + bytes@.take(i + 1),
                ) by {
                    lemma_byte(before, text + bytes@.take(i as int), byte, *self);
                    assert((text + bytes@.take(i as int)).push(byte) =~= text + bytes@.take(i + 1));
                }
            }
            i += 1;
            if self.fired {
                proof {
                    assert forall|text: Seq<u8>| #[trigger] start.has_seen(
                        text,
                    ) implies self.has_seen(text + bytes@) && announced(text + bytes@) by {
                        let part = text + bytes@.take(i as int);
                        assert(announced(part));
                        lemma_still_announced(part, bytes@.skip(i as int));
                        assert(part + bytes@.skip(i as int) =~= text + bytes@);
                    }
                    assert(self.has_seen(seen + bytes@));
                }
                return true;
            }
        }
        assert(bytes@.take(bytes@.len() as int) =~= bytes@);
        assert(self.has_seen(seen + bytes@));
        false
    }
}

/// The pieces a text arrives in make no difference: what has been seen is the text they join to.
pub proof fn pieces_make_no_difference(notice: Notice, other: Notice, text: Seq<u8>)
    requires
        notice.has_seen(text),
        other.has_seen(text),
    ensures
        notice.fired == other.fired,
        !notice.fired ==> notice == other,
{
    if !notice.fired {
        let line = text.skip(last_line(text));
        if notice.skip_line != other.skip_line {
            let matched = if notice.skip_line {
                other.matched as int
            } else {
                notice.matched as int
            };
            assert(line == announcement().take(matched));
            assert(line.is_prefix_of(announcement()));
        }
        if !notice.skip_line {
            assert(line.len() == notice.matched && line.len() == other.matched);
        }
    }
}

/// Whether a connection is one over the network: it begins with the transport's name, in letters
/// of either case.
pub open spec fn over_network(connection: Seq<char>) -> bool {
    &&& connection.len() >= 4
    &&& connection[0] == 'n' || connection[0] == 'N'
    &&& connection[1] == 'e' || connection[1] == 'E'
    &&& connection[2] == 't' || connection[2] == 'T'
    &&& connection[3] == ':'
}

/// Refuses a connection this attach cannot be made over.
pub fn check_connection(connection: &str) -> (checked: Result<(), DbgEngError>)
    ensures
        checked == if !over_network(connection@) {
            Err::<(), DbgEngError>(
                DbgEngError::ExperimentalKernelAttach("KDNET connection required"),
            )
        } else if connection@.contains('\0') {
            Err::<(), DbgEngError>(DbgEngError::InvalidCommand)
        } else {
            Ok::<(), DbgEngError>(())
        },
{
    let chars = characters(connection);
    let network: bool = chars.len() >= 4 && (chars[0] == 'n' || chars[0] == 'N') && (chars[1] == 'e'
        || chars[1] == 'E') && (chars[2] == 't' || chars[2] == 'T') && chars[3] == ':';
    if !network {
        return Err(DbgEngError::ExperimentalKernelAttach("KDNET connection required"));
    }
    if has_nul(connection) {
        return Err(DbgEngError::InvalidCommand);
    }
    Ok(())
}

/// The output that has to be delivered while the announcement is watched for: what was delivered
/// before, and ordinary output.
pub fn watched_mask(mask: u32) -> (watched: u32)
    ensures
        watched == mask | DEBUG_OUTPUT_NORMAL,
{
    mask | DEBUG_OUTPUT_NORMAL
}

/// Whether a piece of output goes on to the callbacks that were there before: one they had asked
/// for.
pub fn is_forwarded(mask: u32, previous_mask: u32) -> (forwarded: bool)
    ensures
        forwarded == (mask & previous_mask != 0),
{
    mask & previous_mask != 0
}

/// Ordinary output is delivered while the announcement is watched for, and the callbacks that were
/// there before get what they got before.
pub proof fn watching_takes_nothing_away(mask: u32, previous: u32)
    ensures
        DEBUG_OUTPUT_NORMAL & (previous | DEBUG_OUTPUT_NORMAL) != 0,
        mask & previous != 0 ==> mask & (previous | DEBUG_OUTPUT_NORMAL) != 0,
{
    assert(1u32 & (previous | 1u32) != 0) by (bit_vector);
    assert(mask & previous != 0 ==> mask & (previous | 1u32) != 0) by (bit_vector);
}

/// What was observed of the one break: the code its request came back with, or nothing where the
/// announcement never came.
pub open spec fn observation(requested: Option<i32>) -> Result<(), DbgEngError> {
    match requested {
        Some(code) => if code == S_OK {
            Ok(())
        } else {
            Err(DbgEngError::ExperimentalKernelAttach("one-shot interrupt request failed"))
        },
        None => Err(
            DbgEngError::ExperimentalKernelAttach("connection announcement was not observed"),
        ),
    }
}

/// Whether the announcement was observed and the break it asks for was requested.
pub fn validate_observation(requested: Option<i32>) -> (valid: Result<(), DbgEngError>)
    ensures
        valid == observation(requested),
{
    match requested {
        Some(code) => if code == S_OK {
            Ok(())
        } else {
            Err(DbgEngError::ExperimentalKernelAttach("one-shot interrupt request failed"))
        },
        None => Err(
            DbgEngError::ExperimentalKernelAttach("connection announcement was not observed"),
        ),
    }
}

/// What the wait behind the attach came to, before its target's status is asked for.
pub open spec fn attach_wait(
    restored: Result<(), EngineFault>,
    requested: Option<i32>,
    pumped: Result<WaitOutcome, DbgEngError>,
) -> Result<(), DbgEngError> {
    match (restored, observation(requested), pumped) {
        (Err(fault), _, _) => Err(DbgEngError::CommandFailed(fault)),
        (_, Err(error), _) => Err(error),
        (_, _, Err(error)) => Err(error),
        (_, _, Ok(outcome)) => if outcome is Stopped {
            Ok(())
        } else {
            Err(DbgEngError::ExperimentalKernelAttach("attach wait was interrupted or expired"))
        },
    }
}

/// What the wait behind the attach came to: the output callbacks were put back, the announcement
/// was observed, the wait went well and it ended at a stop of the target's own. The first of these
/// that does not hold is the failure.
pub fn waited(
    restored: Result<(), EngineFault>,
    requested: Option<i32>,
    pumped: Result<WaitOutcome, DbgEngError>,
) -> (result: Result<(), DbgEngError>)
    ensures
        result == attach_wait(restored, requested, pumped),
{
    if let Err(fault) = restored {
        return Err(DbgEngError::CommandFailed(fault));
    }
    if let Err(error) = validate_observation(requested) {
        return Err(error);
    }
    match pumped {
        Err(error) => Err(error),
        Ok(WaitOutcome::Stopped { .. }) => Ok(()),
        Ok(_) => Err(
            DbgEngError::ExperimentalKernelAttach("attach wait was interrupted or expired"),
        ),
    }
}

/// Whether the target is where the attach leaves it: broken in.
pub fn confirmed(status: Result<u32, EngineFault>) -> (result: Result<(), DbgEngError>)
    ensures
        result == match status {
            Err(fault) => Err::<(), DbgEngError>(DbgEngError::CommandFailed(fault)),
            Ok(status) => if status == DEBUG_STATUS_BREAK {
                Ok::<(), DbgEngError>(())
            } else {
                Err::<(), DbgEngError>(
                    DbgEngError::ExperimentalKernelAttach("target stop was not confirmed"),
                )
            },
        },
{
    match status {
        Err(fault) => Err(DbgEngError::CommandFailed(fault)),
        Ok(status) => if status == DEBUG_STATUS_BREAK {
            Ok(())
        } else {
            Err(DbgEngError::ExperimentalKernelAttach("target stop was not confirmed"))
        },
    }
}

/// An attach never succeeds without its announcement, or with a break that could not be
/// requested, whatever the wait came to.
pub proof fn no_announcement_no_attach(
    restored: Result<(), EngineFault>,
    requested: Option<i32>,
    pumped: Result<WaitOutcome, DbgEngError>,
)
    requires
        attach_wait(restored, requested, pumped) is Ok,
    ensures
        requested == Some(S_OK),
        pumped matches Ok(outcome) && outcome is Stopped,
{
}

/// What is waited for is the engine's own words.
pub proof fn the_announcement_is_the_engines_words(i: int)
    ensures
        announcement().len() == "Connected to target "@.len(),
        announcement().len() == ANNOUNCEMENT_LENGTH,
        0 <= i < announcement().len() ==> announcement()[i] as int == "Connected to target "@[i] as int,
{
    reveal_strlit("Connected to target ");
}

/// An announcement is one wherever it begins a line, and nowhere else: a text of one line is
/// announced exactly where it begins with it, and a line that follows another is as good as one
/// that follows none.
pub proof fn an_announcement_begins_a_line(text: Seq<u8>, rest: Seq<u8>)
    ensures
        announced(announcement() + rest),
        announced(text.push(10u8) + announcement() + rest),
        !text.contains(10u8) ==> (announced(text) <==> announcement().is_prefix_of(text)),
        !text.contains(10u8) && !rest.contains(10u8) ==> (announced(text.push(10u8) + rest) <==> (
        announcement().is_prefix_of(text) || announcement().is_prefix_of(rest))),
{
    let words = announcement();
    let length: int = 20;
    assert(words.len() == length);
    let first = words + rest;
    assert(begins_line(first, 0));
    assert(first.subrange(0, 0 + ANNOUNCEMENT_LENGTH) =~= words);
    let later = text.push(10u8) + words + rest;
    let start: int = text.len() as int + 1;
    assert(begins_line(later, start));
    assert(later.subrange(start, start + ANNOUNCEMENT_LENGTH) =~= words);
    if !text.contains(10u8) {
        if announced(text) {
            let at = choose|at: int|
                #[trigger] begins_line(text, at) && at + ANNOUNCEMENT_LENGTH <= text.len()
                    && text.subrange(at, at + ANNOUNCEMENT_LENGTH) == words;
            assert(at == 0) by {
                if at > 0 {
                    assert(text[at - 1] == 10u8);
                }
            }
            assert(words =~= text.take(length));
        }
        if words.is_prefix_of(text) {
            assert(begins_line(text, 0));
            assert(text.subrange(0, 0 + ANNOUNCEMENT_LENGTH) =~= words);
        }
    }
    if !text.contains(10u8) && !rest.contains(10u8) {
        let both = text.push(10u8) + rest;
        assert(forall|k: int| 0 <= k < text.len() ==> both[k] == #[trigger] text[k]);
        assert(both[text.len() as int] == 10u8);
        assert(forall|k: int| 0 <= k < rest.len() ==> both[start + k] == #[trigger] rest[k]);
        assert(!words.contains(10u8));
        if announced(both) {
            let at = choose|at: int|
                #[trigger] begins_line(both, at) && at + ANNOUNCEMENT_LENGTH <= both.len()
                    && both.subrange(at, at + ANNOUNCEMENT_LENGTH) == words;
            let cut = both.subrange(at, at + ANNOUNCEMENT_LENGTH);
            if at == 0 {
                if text.len() < length {
                    assert(cut[text.len() as int] == 10u8);
                    assert(words.contains(10u8));
                }
                assert(words =~= text.take(length)) by {
                    assert forall|k: int| 0 <= k < length implies words[k] == text[k] by {
                        assert(cut[k] == both[k]);
                    }
                }
            } else {
                if at - 1 < text.len() {
                    assert(text[at - 1] == 10u8);
                } else if at - 1 > text.len() {
                    assert(rest[at - 1 - start] == 10u8);
                }
                assert(at == start);
                assert(words =~= rest.take(length)) by {
                    assert forall|k: int| 0 <= k < length implies words[k] == rest[k] by {
                        assert(cut[k] == both[start + k]);
                    }
                }
            }
        }
        if words.is_prefix_of(text) {
            assert(begins_line(both, 0));
            assert(both.subrange(0, 0 + ANNOUNCEMENT_LENGTH) =~= words) by {
                assert(words =~= text.take(length));
                assert forall|k: int| 0 <= k < length implies both[k] == words[k] by {
                    assert(text.take(length)[k] == text[k]);
                }
            }
        }
        if words.is_prefix_of(rest) {
            assert(begins_line(both, start));
            assert(both.subrange(start, start + ANNOUNCEMENT_LENGTH) =~= words) by {
                assert(words =~= rest.take(length));
                assert forall|k: int| 0 <= k < length implies both[start + k] == words[k] by {
                    assert(rest.take(length)[k] == rest[k]);
                }
            }
        }
    }
}

/// A connection is over a network exactly where it begins with that transport's name, in letters
/// of any case, and whatever follows.
pub proof fn a_network_connection_says_so(connection: Seq<char>, rest: Seq<char>)
    ensures
        over_network("net:"@ + rest),
        over_network("NET:"@ + rest),
        over_network("Net:"@ + rest),
        over_network(connection) <==> over_network(connection.take(4)) && connection.len() >= 4,
        over_network(connection) ==> {
            &&& connection.len() >= 4
            &&& connection[0] == 'n' || connection[0] == 'N'
            &&& connection[1] == 'e' || connection[1] == 'E'
            &&& connection[2] == 't' || connection[2] == 'T'
            &&& connection[3] == ':'
        },
{
    reveal_strlit("net:");
    reveal_strlit("NET:");
    reveal_strlit("Net:");
    if connection.len() >= 4 {
        let head = connection.take(4);
        assert(head[0] == connection[0] && head[1] == connection[1] && head[2] == connection[2]
            && head[3] == connection[3]);
    }
}

/// An attach over a connection went well exactly where the output was set back, the break was
/// asked for upon the announcement and taken, and the wait ended in a stop; and else tells the
/// first of these that failed.
pub proof fn an_attach_tells_the_first_that_failed(
    restored: Result<(), EngineFault>,
    requested: Option<i32>,
    pumped: Result<WaitOutcome, DbgEngError>,
)
    ensures
        (observation(requested) matches Ok(_)) <==> requested == Some(0i32),
        requested is None ==> observation(requested) == Err::<(), DbgEngError>(
            DbgEngError::ExperimentalKernelAttach("connection announcement was not observed"),
        ),
        requested is Some && requested != Some(0i32) ==> observation(requested) == Err::<
            (),
            DbgEngError,
        >(DbgEngError::ExperimentalKernelAttach("one-shot interrupt request failed")),
        (attach_wait(restored, requested, pumped) matches Ok(_)) <==> (restored matches Ok(_))
            && requested == Some(0i32) && (pumped matches Ok(outcome) && outcome is Stopped),
        restored matches Err(fault) ==> attach_wait(restored, requested, pumped) == Err::<
            (),
            DbgEngError,
        >(DbgEngError::CommandFailed(fault)),
        (restored matches Ok(_)) && requested == Some(0i32) ==> (pumped matches Err(error)
            ==> attach_wait(restored, requested, pumped) == Err::<(), DbgEngError>(error)),
        (restored matches Ok(_)) && requested == Some(0i32) && (pumped matches Ok(outcome)
            && outcome !is Stopped) ==> attach_wait(restored, requested, pumped) == Err::<
            (),
            DbgEngError,
        >(DbgEngError::ExperimentalKernelAttach("attach wait was interrupted or expired")),
{
}

} // verus!
