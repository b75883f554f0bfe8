//! The image name of a kernel target's current process.
//!
//! The process's own name field holds fifteen bytes and cuts a longer name short, so the full
//! path the process was audited under is read first and its leaf taken. It is several
//! dereferences deep, and each of them may be absent from a partial dump: then the short field
//! is the answer.
use vstd::prelude::*;
use vstd::string::*;

use super::text::{
    before_nul, characters, from_utf16_lossy, nul_terminated, text_between, trim_bounds, trimmed,
    utf16_lossy, utf8_lossy,
};
use crate::bytes::{le64, read_le64};

verus! {

/// The size of the process's name field, where its type does not say.
pub const EPROCESS_IMAGE_NAME_LEN: u32 = 15;

/// The longest audited path that is read, in bytes.
pub const MAX_AUDIT_NAME: usize = 2048;

/// Where reading the audited name stands.
pub enum AuditName {
    /// The pointer to the name's record.
    Pointer { address: u64 },
    /// The record: a length, and a pointer to the text.
    Record { address: u64 },
    /// The text.
    Text { address: u64, length: usize },
    Done(Option<String>),
}

/// Sixteen-bit units out of bytes, least significant byte first. An odd byte at the end is left
/// out.
pub open spec fn units_in(bytes: Seq<u8>) -> Seq<u16> {
    Seq::new(bytes.len() / 2, |i: int| (bytes[2 * i] + 0x100 * bytes[2 * i + 1]) as u16)
}

/// Whether a character separates the parts of a path.
pub open spec fn separates(ch: char) -> bool {
    ch == '\\' || ch == '/'
}

/// What follows the last separator of a path.
pub open spec fn leaf(path: Seq<char>) -> Seq<char>
    decreases path.len(),
{
    if path.len() == 0 || separates(path.last()) {
        Seq::empty()
    } else {
        leaf(path.drop_last()).push(path.last())
    }
}

/// The image's name in an audited path.
pub open spec fn image_name(path: Seq<char>) -> Option<Seq<char>> {
    let name = trimmed(leaf(path));
    if name.len() > 0 {
        Some(name)
    } else {
        None
    }
}

impl AuditName {
    /// What to read next: an address, and how many bytes.
    pub open spec fn read(&self) -> Option<(u64, usize)> {
        match self {
            AuditName::Pointer { address } => Some((*address, 8)),
            AuditName::Record { address } => Some((*address, 16)),
            AuditName::Text { address, length } => Some((*address, *length)),
            AuditName::Done(_) => None,
        }
    }
}

fn units(bytes: &Vec<u8>) -> (units: Vec<u16>)
    ensures
        units@ == units_in(bytes@),
{
    let mut units: Vec<u16> = Vec::new();
    let length: usize = bytes.len();
    let count: usize = length / 2;
    let mut i: usize = 0;
    while i < count
        invariant
            i <= count,
            length == bytes@.len(),
            count == length / 2,
            units@.len() == i,
            forall|j: int| 0 <= j < i ==> units@[j] == units_in(bytes@)[j],
        decreases count - i,
    {
        units.push(bytes[2 * i] as u16 + 0x100 * (bytes[2 * i + 1] as u16));
        i += 1;
    }
    assert(units@ =~= units_in(bytes@));
    units
}

proof fn lemma_leaf(path: Seq<char>, start: int)
    requires
        0 <= start <= path.len(),
        start > 0 ==> separates(path[start - 1]),
        forall|i: int| start <= i < path.len() ==> !separates(#[trigger] path[i]),
    ensures
        leaf(path) == path.skip(start),
    decreases path.len(),
{
    if start < path.len() {
        lemma_leaf(path.drop_last(), start);
        assert(path.drop_last().skip(start).push(path.last()) =~= path.skip(start));
    } else {
        assert(path.skip(start) =~= Seq::<char>::empty());
    }
}

/// The image's name in a path: what follows the last separator, without the white space around
/// it, where anything is left.
pub fn leaf_name(path: &str) -> (name: Option<String>)
    ensures
        match name {
            Some(name) => image_name(path@) == Some(name@),
            None => image_name(path@) is None,
        },
{
    let chars = characters(path);
    let mut start: usize = chars.len();
    while start > 0 && !(chars[start - 1] == '\\' || chars[start - 1] == '/')
        invariant
            start <= chars@.len(),
            forall|i: int| start <= i < chars@.len() ==> !separates(#[trigger] chars@[i]),
        decreases start,
    {
        start = start - 1;
    }
    proof {
        lemma_leaf(chars@, start as int);
    }
    let last = text_between(&chars, start, chars.len());
    assert(last@ =~= chars@.skip(start as int));
    let chars = characters(last.as_str());
    let (first, end) = trim_bounds(&chars);
    if first == end {
        return None;
    }
    Some(text_between(&chars, first, end))
}

impl AuditName {
    /// Where reading begins: the offset of the name in the process, where the type has one.
    pub open spec fn from(process: u64, offset: Option<u32>) -> AuditName {
        match offset {
            Some(offset) => if process + offset <= u64::MAX {
                AuditName::Pointer { address: (process + offset) as u64 }
            } else {
                AuditName::Done(None)
            },
            None => AuditName::Done(None),
        }
    }

    /// Begins at the process, with the offset of the name in it where the type has one.
    pub fn begin(process: u64, offset: Option<u32>) -> (audit: AuditName)
        ensures
            audit == AuditName::from(process, offset),
    {
        match offset {
            Some(offset) => match process.checked_add(offset as u64) {
                Some(address) => AuditName::Pointer { address },
                None => AuditName::Done(None),
            },
            None => AuditName::Done(None),
        }
    }

    /// What to read next: an address, and how many bytes. `None` where the name is settled.
    pub fn next(&self) -> (read: Option<(u64, usize)>)
        ensures
            read == self.read(),
    {
        match self {
            AuditName::Pointer { address } => Some((*address, 8)),
            AuditName::Record { address } => Some((*address, 16)),
            AuditName::Text { address, length } => Some((*address, *length)),
            AuditName::Done(_) => None,
        }
    }

    /// Whether an audit is where one stands after the bytes asked for, or none of them.
    pub open spec fn follows(&self, bytes: Option<Seq<u8>>, after: AuditName) -> bool {
        match (self, bytes) {
            (AuditName::Pointer { .. }, Some(bytes)) => if le64(bytes, 0) == 0 {
                after == AuditName::Done(None)
            } else {
                after == AuditName::Record { address: le64(bytes, 0) }
            },
            (AuditName::Record { .. }, Some(bytes)) => {
                let length = (bytes[0] + 0x100 * bytes[1]) as usize;
                if le64(bytes, 8) == 0 || length == 0 || length > MAX_AUDIT_NAME {
                    after == AuditName::Done(None)
                } else {
                    after == AuditName::Text { address: le64(bytes, 8), length }
                }
            },
            (AuditName::Text { .. }, Some(bytes)) => match image_name(
                utf16_lossy(units_in(bytes)),
            ) {
                Some(name) => after matches AuditName::Done(Some(said)) && said@ == name,
                None => after == AuditName::Done(None),
            },
            _ => after == AuditName::Done(None),
        }
    }

    /// Takes the bytes asked for, or nothing where they could not be read.
    pub fn take(self, bytes: Option<Vec<u8>>) -> (after: AuditName)
        requires
            self.read() is Some,
            bytes matches Some(bytes) ==> self.read() matches Some((_, size)) && bytes@.len()
                == size,
        ensures
            self.follows(
                match bytes {
                    Some(bytes) => Some(bytes@),
                    None => None,
                },
                after,
            ),
    {
        let bytes = match bytes {
            Some(bytes) => bytes,
            None => return AuditName::Done(None),
        };
        match self {
            AuditName::Pointer { .. } => {
                let record: u64 = read_le64(bytes.as_slice(), 0);
                if record == 0 {
                    AuditName::Done(None)
                } else {
                    AuditName::Record { address: record }
                }
            },
            AuditName::Record { .. } => {
                let length: usize = bytes[0] as usize + 0x100 * (bytes[1] as usize);
                let address: u64 = read_le64(bytes.as_slice(), 8);
                if address == 0 || length == 0 || length > MAX_AUDIT_NAME {
                    AuditName::Done(None)
                } else {
                    AuditName::Text { address, length }
                }
            },
            AuditName::Text { .. } => {
                let path = from_utf16_lossy(units(&bytes).as_slice());
                AuditName::Done(leaf_name(path.as_str()))
            },
            AuditName::Done(_) => AuditName::Done(None),
        }
    }
}

/// Where the process's own name field is, and how many bytes of it there are: as many as its type
/// says, or the usual ones where it does not say.
pub fn short_name_field(process: u64, offset: u32, size: Option<u32>) -> (field: (u64, usize))
    ensures
        field.0 == if process + offset <= u64::MAX {
            process + offset
        } else {
            u64::MAX as int
        },
        field.1 == match size {
            Some(size) => size,
            None => EPROCESS_IMAGE_NAME_LEN,
        },
{
    (process.saturating_add(offset as u64), size.unwrap_or(EPROCESS_IMAGE_NAME_LEN) as usize)
}

/// The name in the process's own field: it is padded rather than terminated, so a name that fills
/// it ends with it.
pub fn short_name(field: &Vec<u8>) -> (name: String)
    ensures
        name@ == utf8_lossy(before_nul(field@)),
{
    nul_terminated(field.as_slice())
}

/// The name of a process: the audited one where there is one, since it is whole, and else the
/// short one.
pub fn process_name(audited: Option<String>, short: String) -> (name: String)
    ensures
        name == match audited {
            Some(audited) => audited,
            None => short,
        },
{
    match audited {
        Some(audited) => audited,
        None => short,
    }
}

/// No read of an audited name is of more than the longest path, whatever length the target
/// claims.
pub proof fn an_audited_read_is_bounded(
    process: u64,
    offset: Option<u32>,
    pointer: Seq<u8>,
    record: Seq<u8>,
    second: AuditName,
    third: AuditName,
)
    requires
        AuditName::from(process, offset).follows(Some(pointer), second),
        second.follows(Some(record), third),
    ensures
        AuditName::from(process, offset).read() matches Some((_, size)) ==> size <= MAX_AUDIT_NAME,
        second.read() matches Some((_, size)) ==> size <= MAX_AUDIT_NAME,
        third.read() matches Some((_, size)) ==> size <= MAX_AUDIT_NAME,
{
}

/// A text's units are its bytes in pairs, the lower first, and an odd byte at its end is none.
pub proof fn units_are_pairs_of_bytes(bytes: Seq<u8>, i: int)
    requires
        0 <= i < bytes.len() / 2,
    ensures
        units_in(bytes).len() == bytes.len() / 2,
        units_in(bytes)[i] as int % 256 == bytes[2 * i],
        units_in(bytes)[i] as int / 256 == bytes[2 * i + 1],
{
}

/// A leaf is the end of its path, after the last separator: it holds none, and what is before it
/// is nothing or ends in one.
pub proof fn a_leaf_follows_the_last_separator(path: Seq<char>)
    ensures
        leaf(path).len() <= path.len(),
        leaf(path) == path.skip(path.len() - leaf(path).len()),
        !leaf(path).contains('\\') && !leaf(path).contains('/'),
        leaf(path).len() < path.len() ==> path[path.len() - leaf(path).len() - 1] == '\\'
            || path[path.len() - leaf(path).len() - 1] == '/',
    decreases path.len(),
{
    if path.len() > 0 && !separates(path.last()) {
        let front = path.drop_last();
        a_leaf_follows_the_last_separator(front);
        let name = leaf(path);
        assert(name =~= path.skip(path.len() - name.len()));
        assert forall|i: int| 0 <= i < name.len() implies !separates(#[trigger] name[i]) by {
            if i < leaf(front).len() {
                assert(leaf(front)[i] == name[i]);
                assert(leaf(front).contains(name[i]));
            }
        }
    } else {
        assert(leaf(path) =~= path.skip(path.len() as int));
    }
}

/// An image's name is its path's leaf without the white space around it, and there is one exactly
/// where anything is left.
pub proof fn an_image_is_named_by_its_leaf(path: Seq<char>, name: Seq<char>)
    ensures
        image_name(path) == Some(name) <==> name == trimmed(leaf(path)) && name.len() > 0,
        image_name(path) is None <==> trimmed(leaf(path)).len() == 0,
{
}

/// A name is read in three steps, each of which is as long as what it reads: a pointer, a record
/// of a length and a pointer, and the text.
pub proof fn a_name_is_read_step_by_step(
    process: u64,
    offset: u32,
    audit: AuditName,
    bytes: Seq<u8>,
    after: AuditName,
    address: u64,
    length: usize,
)
    requires
        audit.follows(Some(bytes), after),
    ensures
        process + offset <= u64::MAX ==> AuditName::from(process, Some(offset))
            == (AuditName::Pointer { address: (process + offset) as u64 }),
        process + offset > u64::MAX ==> AuditName::from(process, Some(offset)) == AuditName::Done(
            None,
        ),
        AuditName::from(process, None) == AuditName::Done(None),
        (AuditName::Pointer { address }).read() == Some((address, 8usize)),
        (AuditName::Record { address }).read() == Some((address, 16usize)),
        (AuditName::Text { address, length }).read() == Some((address, length)),
        AuditName::Done(None).read() is None,
        audit is Pointer ==> (after is Record || after == AuditName::Done(None)),
        audit is Pointer ==> (after is Record <==> le64(bytes, 0) != 0),
        audit is Pointer && after is Record ==> after.read() == Some((le64(bytes, 0), 16usize)),
        audit is Record ==> (after is Text || after == AuditName::Done(None)),
        audit is Record ==> (after is Text <==> {
            &&& le64(bytes, 8) != 0
            &&& 0 < bytes[0] + 256 * bytes[1] <= 2048
        }),
        audit is Record && after is Text ==> after.read() == Some(
            (le64(bytes, 8), (bytes[0] + 256 * bytes[1]) as usize),
        ),
        audit is Text ==> after is Done,
        audit is Text ==> (after->Done_0 matches Some(name) ==> name@ == trimmed(
            leaf(utf16_lossy(units_in(bytes))),
        ) && name@.len() > 0),
        audit is Text && trimmed(leaf(utf16_lossy(units_in(bytes)))).len() > 0
            ==> after->Done_0 is Some,
{
}

} // verus!
