//! The engine's texts: buffers it fills, lines it renders and strings it takes.
use vstd::arithmetic::power::pow;
use vstd::prelude::*;
use vstd::string::*;
use vstd::utf8::encode_utf8;

use super::codes::{DEBUG_OUTCTL_DML, DEBUG_OUTCTL_THIS_CLIENT};
use super::error::DbgEngError;
use crate::text::{a_padded_number_reads_back, append_upper_hex, number_of, upper_hex};

verus! {

/// The text bytes decode to, with a replacement character for what is not UTF-8.
pub uninterp spec fn utf8_lossy(bytes: Seq<u8>) -> Seq<char>;

/// `String::from_utf8_lossy`: a text of the bytes alone, and the text itself where the bytes
/// encode one. What takes the place of bytes that encode none is not stated.
#[verifier::external_body]
pub(crate) fn from_utf8_lossy(bytes: &[u8]) -> (text: String)
    ensures
        text@ == utf8_lossy(bytes@),
        forall|encoded: Seq<char>| #[trigger] encode_utf8(encoded) == bytes@ ==> text@ == encoded,
{
    String::from_utf8_lossy(bytes).into_owned()
}

/// Whether a unit is the first of a surrogate pair.
pub open spec fn leads(unit: u16) -> bool {
    0xd800 <= unit < 0xdc00
}

/// Whether a unit is the second of a surrogate pair.
pub open spec fn trails(unit: u16) -> bool {
    0xdc00 <= unit < 0xe000
}

/// The character a surrogate pair stands for.
pub open spec fn paired(first: u16, second: u16) -> char {
    (0x1_0000 + (first - 0xd800) * 0x400 + (second - 0xdc00)) as char
}

/// The text 16-bit units decode to, with a replacement character for each unpaired surrogate.
pub open spec fn utf16_lossy(units: Seq<u16>) -> Seq<char>
    decreases units.len(),
{
    if units.len() == 0 {
        Seq::empty()
    } else if leads(units[0]) && units.len() > 1 && trails(units[1]) {
        seq![paired(units[0], units[1])] + utf16_lossy(units.skip(2))
    } else if leads(units[0]) || trails(units[0]) {
        seq!['\u{fffd}'] + utf16_lossy(units.skip(1))
    } else {
        seq![units[0] as char] + utf16_lossy(units.skip(1))
    }
}

/// `String::from_utf16_lossy`: every unit outside the surrogates is its character, every surrogate
/// pair is the character it stands for, and every other surrogate is a replacement character.
#[verifier::external_body]
pub(crate) fn from_utf16_lossy(units: &[u16]) -> (text: String)
    ensures
        text@ == utf16_lossy(units@),
{
    String::from_utf16_lossy(units)
}

/// The one or two 16-bit units a character is encoded as.
pub open spec fn units_of(ch: char) -> Seq<u16> {
    let code = ch as int;
    if code < 0x1_0000 {
        seq![code as u16]
    } else {
        seq![
            (0xd800 + (code - 0x1_0000) / 0x400) as u16,
            (0xdc00 + (code - 0x1_0000) % 0x400) as u16,
        ]
    }
}

/// A text in 16-bit units.
pub open spec fn encode_utf16(text: Seq<char>) -> Seq<u16>
    decreases text.len(),
{
    if text.len() == 0 {
        Seq::empty()
    } else {
        encode_utf16(text.drop_last()) + units_of(text.last())
    }
}

proof fn lemma_char_range(ch: char)
    ensures
        0 <= ch as int <= 0x10_ffff,
{
}

fn push_units(wide: &mut Vec<u16>, ch: char)
    ensures
        final(wide)@ == old(wide)@ + units_of(ch),
{
    let code: u32 = ch as u32;
    if code < 0x1_0000 {
        wide.push(code as u16);
    } else {
        wide.push((0xd800 + (code - 0x1_0000) / 0x400) as u16);
        wide.push((0xdc00 + (code - 0x1_0000) % 0x400) as u16);
    }
    assert(wide@ =~= old(wide)@ + units_of(ch));
}

/// Encodes a text as a NUL-terminated wide buffer.
pub fn to_wide(text: &str) -> (wide: Vec<u16>)
    ensures
        wide@ == encode_utf16(text@).push(0),
{
    let mut wide: Vec<u16> = Vec::new();
    for ch in it: text.chars()
        invariant
            it.seq() == text@,
            wide@ == encode_utf16(text@.take(it.index())),
    {
        let ghost at = it.index();
        assert(text@.take(at + 1).drop_last() =~= text@.take(at));
        assert(text@.take(at + 1).last() == ch);
        push_units(&mut wide, ch);
    }
    assert(text@.take(text@.len() as int) =~= text@);
    wide.push(0);
    wide
}

/// The units before the first NUL, or all of them where there is none.
pub open spec fn wide_before_nul(units: Seq<u16>) -> Seq<u16>
    decreases units.len(),
{
    if units.len() == 0 || units[0] == 0 {
        Seq::empty()
    } else {
        seq![units[0]] + wide_before_nul(units.skip(1))
    }
}

/// The bytes before the first NUL, or all of them where there is none.
pub open spec fn before_nul(bytes: Seq<u8>) -> Seq<u8>
    decreases bytes.len(),
{
    if bytes.len() == 0 || bytes[0] == 0 {
        Seq::empty()
    } else {
        seq![bytes[0]] + before_nul(bytes.skip(1))
    }
}

proof fn lemma_before_nul(bytes: Seq<u8>, end: int)
    requires
        0 <= end <= bytes.len(),
        forall|i: int| 0 <= i < end ==> bytes[i] != 0,
        end < bytes.len() ==> bytes[end] == 0,
    ensures
        before_nul(bytes) == bytes.take(end),
    decreases bytes.len(),
{
    if bytes.len() > 0 && end > 0 {
        assert forall|i: int| 0 <= i < end - 1 implies bytes.skip(1)[i] != 0 by {
            assert(bytes[i + 1] != 0);
        }
        lemma_before_nul(bytes.skip(1), end - 1);
        assert(bytes.take(end) =~= seq![bytes[0]] + bytes.skip(1).take(end - 1));
    } else {
        assert(bytes.take(end) =~= Seq::empty());
    }
}

proof fn lemma_wide_before_nul(units: Seq<u16>, end: int)
    requires
        0 <= end <= units.len(),
        forall|i: int| 0 <= i < end ==> units[i] != 0,
        end < units.len() ==> units[end] == 0,
    ensures
        wide_before_nul(units) == units.take(end),
    decreases units.len(),
{
    if units.len() > 0 && end > 0 {
        assert forall|i: int| 0 <= i < end - 1 implies units.skip(1)[i] != 0 by {
            assert(units[i + 1] != 0);
        }
        lemma_wide_before_nul(units.skip(1), end - 1);
        assert(units.take(end) =~= seq![units[0]] + units.skip(1).take(end - 1));
    } else {
        assert(units.take(end) =~= Seq::empty());
    }
}

/// A NUL-terminated wide string out of a fixed engine buffer.
pub fn wide_to_string(buffer: &[u16]) -> (text: String)
    ensures
        text@ == utf16_lossy(wide_before_nul(buffer@)),
{
    let mut end: usize = 0;
    while end < buffer.len() && buffer[end] != 0
        invariant
            end <= buffer@.len(),
            forall|i: int| 0 <= i < end ==> buffer@[i] != 0,
        decreases buffer.len() - end,
    {
        end = end + 1;
    }
    proof {
        lemma_wide_before_nul(buffer@, end as int);
    }
    let text = vstd::slice::slice_subrange(buffer, 0, end);
    assert(text@ =~= buffer@.take(end as int));
    from_utf16_lossy(text)
}

/// The text up to the first NUL in an engine-filled buffer.
pub fn nul_terminated(buffer: &[u8]) -> (text: String)
    ensures
        text@ == utf8_lossy(before_nul(buffer@)),
        forall|encoded: Seq<char>| #[trigger]
            encode_utf8(encoded) == before_nul(buffer@) ==> text@ == encoded,
{
    let mut end: usize = 0;
    while end < buffer.len() && buffer[end] != 0
        invariant
            end <= buffer@.len(),
            forall|i: int| 0 <= i < end ==> buffer@[i] != 0,
        decreases buffer.len() - end,
    {
        end = end + 1;
    }
    proof {
        lemma_before_nul(buffer@, end as int);
    }
    let text = vstd::slice::slice_subrange(buffer, 0, end);
    assert(text@ =~= buffer@.take(end as int));
    from_utf8_lossy(text)
}

proof fn lemma_no_zero_unit(text: Seq<char>)
    requires
        forall|i: int| 0 <= i < text.len() ==> text[i] != '\0',
    ensures
        forall|i: int| 0 <= i < encode_utf16(text).len() ==> encode_utf16(text)[i] != 0,
    decreases text.len(),
{
    if text.len() > 0 {
        let before = text.drop_last();
        assert forall|i: int| 0 <= i < before.len() implies before[i] != '\0' by {
            assert(text[i] != '\0');
        }
        lemma_no_zero_unit(before);
        assert(text[text.len() - 1] != '\0');
        let code = text.last() as int;
        lemma_char_range(text.last());
        assert(code != 0);
        if code >= 0x1_0000 {
            assert((code - 0x1_0000) / 0x400 < 0x400);
        }
        assert forall|i: int| 0 <= i < units_of(text.last()).len() implies units_of(text.last())[i]
            != 0 by {}
        assert forall|i: int| 0 <= i < encode_utf16(text).len() implies encode_utf16(text)[i] != 0 by {
            let head = encode_utf16(before);
            if i < head.len() {
                assert(encode_utf16(text)[i] == head[i]);
            } else {
                assert(encode_utf16(text)[i] == units_of(text.last())[i - head.len()]);
            }
        }
    }
}

proof fn lemma_encode_first(text: Seq<char>)
    requires
        text.len() > 0,
    ensures
        encode_utf16(text) == units_of(text[0]) + encode_utf16(text.skip(1)),
    decreases text.len(),
{
    if text.len() == 1 {
        assert(text.drop_last() =~= Seq::empty());
        assert(text.skip(1) =~= Seq::empty());
    } else {
        let before = text.drop_last();
        lemma_encode_first(before);
        assert(text.skip(1).drop_last() =~= before.skip(1));
        assert(encode_utf16(text) =~= units_of(text[0]) + (encode_utf16(before.skip(1))
            + units_of(text.last())));
    }
}

proof fn lemma_decode_first(ch: char, rest: Seq<u16>)
    ensures
        utf16_lossy(units_of(ch) + rest) == seq![ch] + utf16_lossy(rest),
{
    lemma_char_range(ch);
    let units = units_of(ch) + rest;
    let code = ch as int;
    if code < 0x1_0000 {
        assert(units.skip(1) =~= rest);
        assert(units[0] == code);
    } else {
        let above = code - 0x1_0000;
        assert(0 <= above / 0x400 < 0x400);
        assert(units[0] == 0xd800 + above / 0x400);
        assert(units[1] == 0xdc00 + above % 0x400);
        assert(above == above / 0x400 * 0x400 + above % 0x400);
        assert(units.skip(2) =~= rest);
    }
}

/// Decoding undoes encoding.
pub proof fn an_encoded_text_reads_back(text: Seq<char>)
    ensures
        utf16_lossy(encode_utf16(text)) == text,
    decreases text.len(),
{
    if text.len() > 0 {
        lemma_encode_first(text);
        lemma_decode_first(text[0], encode_utf16(text.skip(1)));
        an_encoded_text_reads_back(text.skip(1));
        assert(seq![text[0]] + text.skip(1) =~= text);
    }
}

/// A text without NULs handed over as a wide buffer reads back as itself, whatever the buffer
/// holds behind the terminator.
pub proof fn a_wide_buffer_reads_back(text: Seq<char>, rest: Seq<u16>)
    requires
        forall|i: int| 0 <= i < text.len() ==> text[i] != '\0',
    ensures
        wide_before_nul(encode_utf16(text).push(0) + rest) == encode_utf16(text),
        utf16_lossy(wide_before_nul(encode_utf16(text).push(0) + rest)) == text,
{
    lemma_no_zero_unit(text);
    let wide = encode_utf16(text).push(0) + rest;
    let end = encode_utf16(text).len() as int;
    assert forall|i: int| 0 <= i < end implies wide[i] != 0 by {
        assert(wide[i] == encode_utf16(text)[i]);
    }
    lemma_wide_before_nul(wide, end);
    assert(wide.take(end) =~= encode_utf16(text));
    an_encoded_text_reads_back(text);
}

/// The characters Unicode counts as white space.
pub open spec fn white(ch: char) -> bool {
    let code = ch as int;
    ||| 0x9 <= code <= 0xd
    ||| code == 0x20
    ||| code == 0x85
    ||| code == 0xa0
    ||| code == 0x1680
    ||| 0x2000 <= code <= 0x200a
    ||| code == 0x2028
    ||| code == 0x2029
    ||| code == 0x202f
    ||| code == 0x205f
    ||| code == 0x3000
}

/// Whether a character is white space.
pub fn is_white(ch: char) -> (is: bool)
    ensures
        is == white(ch),
{
    let code: u32 = ch as u32;
    (0x9 <= code && code <= 0xd) || code == 0x20 || code == 0x85 || code == 0xa0 || code == 0x1680
        || (0x2000 <= code && code <= 0x200a) || code == 0x2028 || code == 0x2029 || code == 0x202f
        || code == 0x205f || code == 0x3000
}

/// The words of a text: its longest runs without white space, in order.
pub open spec fn words(text: Seq<char>) -> Seq<Seq<char>>
    decreases text.len(),
{
    if text.len() == 0 {
        Seq::empty()
    } else {
        let before = words(text.drop_last());
        if white(text.last()) {
            before
        } else if text.len() == 1 || white(text[text.len() - 2]) {
            before.push(seq![text.last()])
        } else {
            before.drop_last().push(before.last().push(text.last()))
        }
    }
}

/// Words with one space between each two.
pub open spec fn spaced(words: Seq<Seq<char>>) -> Seq<char>
    decreases words.len(),
{
    if words.len() == 0 {
        Seq::empty()
    } else if words.len() == 1 {
        words[0]
    } else {
        spaced(words.drop_last()).push(' ') + words.last()
    }
}

/// A text with its white space collapsed: none at the ends, and one space between words.
pub open spec fn collapsed(text: Seq<char>) -> Seq<char> {
    spaced(words(text))
}

proof fn lemma_words_nonempty(text: Seq<char>)
    requires
        text.len() > 0,
        !white(text.last()),
    ensures
        words(text).len() > 0,
    decreases text.len(),
{
    if text.len() > 1 && !white(text[text.len() - 2]) {
        lemma_words_nonempty(text.drop_last());
    }
}

proof fn lemma_spaced_grows(words: Seq<Seq<char>>, ch: char)
    ensures
        words.len() == 0 ==> spaced(words.push(seq![ch])) == seq![ch],
        words.len() > 0 ==> spaced(words.push(seq![ch])) == spaced(words).push(' ').push(ch),
        words.len() > 0 ==> spaced(words.drop_last().push(words.last().push(ch))) == spaced(
            words,
        ).push(ch),
{
    assert(words.push(seq![ch]).drop_last() =~= words);
    if words.len() == 0 {
        assert(words.push(seq![ch])[0] == seq![ch]);
    } else {
        assert(spaced(words.push(seq![ch])) =~= spaced(words).push(' ').push(ch));
        let grown = words.drop_last().push(words.last().push(ch));
        assert(grown.drop_last() =~= words.drop_last());
        assert(spaced(grown) =~= spaced(words).push(ch));
    }
}

/// Runs of white space as one space, and none at the ends.
pub fn collapse_spaces(text: &str) -> (out: String)
    ensures
        out@ == collapsed(text@),
{
    let mut out = String::new();
    let mut in_word: bool = false;
    let mut any: bool = false;
    for ch in it: text.chars()
        invariant
            it.seq() == text@,
            out@ == collapsed(text@.take(it.index())),
            in_word == (it.index() > 0 && !white(text@[it.index() - 1])),
            any == (words(text@.take(it.index())).len() > 0),
    {
        let ghost at = it.index();
        let ghost before = text@.take(at);
        proof {
            assert(text@.take(at + 1).drop_last() =~= before);
            assert(text@.take(at + 1).last() == ch);
            if at > 0 {
                assert(text@.take(at + 1)[at - 1] == text@[at - 1]);
                if in_word {
                    lemma_words_nonempty(before);
                }
            }
            lemma_spaced_grows(words(before), ch);
        }
        if is_white(ch) {
            in_word = false;
        } else {
            if !in_word && any {
                out.push(' ');
            }
            out.push(ch);
            in_word = true;
            any = true;
            proof {
                lemma_words_nonempty(text@.take(at + 1));
            }
        }
    }
    assert(text@.take(text@.len() as int) =~= text@);
    out
}

/// How many characters precede the first white space, or the end.
pub open spec fn until_white(text: Seq<char>) -> nat
    decreases text.len(),
{
    if text.len() == 0 || white(text[0]) {
        0
    } else {
        1 + until_white(text.skip(1))
    }
}

/// A text without the white space it starts with.
pub open spec fn trim_start(text: Seq<char>) -> Seq<char>
    decreases text.len(),
{
    if text.len() > 0 && white(text[0]) {
        trim_start(text.skip(1))
    } else {
        text
    }
}

/// A text without the white space it ends with.
pub open spec fn trim_end(text: Seq<char>) -> Seq<char>
    decreases text.len(),
{
    if text.len() > 0 && white(text.last()) {
        trim_end(text.drop_last())
    } else {
        text
    }
}

/// A text without the white space around it.
pub open spec fn trimmed(text: Seq<char>) -> Seq<char> {
    trim_end(trim_start(text))
}

/// The second and the third column of a line: what follows its first white space up to the
/// next, and what follows that.
pub open spec fn columns(line: Seq<char>) -> (Option<Seq<char>>, Option<Seq<char>>) {
    let first = until_white(line);
    if first >= line.len() {
        (None, None)
    } else {
        let rest = line.skip(first as int + 1);
        let second = until_white(rest);
        if second >= rest.len() {
            (Some(rest), None)
        } else {
            (Some(rest.take(second as int)), Some(rest.skip(second as int + 1)))
        }
    }
}

/// One disassembled instruction: the engine's rendered line split at its two column boundaries,
/// with the address taken from the walk rather than parsed back out of it.
#[derive(Debug, Clone, PartialEq, Eq)]
pub struct Instruction {
    pub address: u64,
    /// The encoding, as the engine prints it. Empty when the line carried no byte column.
    pub bytes: String,
    /// The mnemonic and its operands, with the engine's column padding collapsed.
    pub text: String,
}

/// The encoding and the mnemonic of a rendered line. A line of fewer than three columns keeps
/// everything it has as text.
pub open spec fn instruction_parts(line: Seq<char>) -> (Seq<char>, Seq<char>) {
    match columns(trimmed(line)) {
        (Some(bytes), Some(rest)) => (bytes, collapsed(rest)),
        (Some(only), None) => (Seq::empty(), collapsed(only)),
        _ => (Seq::empty(), collapsed(line)),
    }
}

pub(crate) fn characters(text: &str) -> (chars: Vec<char>)
    ensures
        chars@ == text@,
{
    let mut chars: Vec<char> = Vec::new();
    for ch in it: text.chars()
        invariant
            it.seq() == text@,
            chars@ == text@.take(it.index()),
    {
        chars.push(ch);
    }
    chars
}

pub(crate) fn text_between(chars: &Vec<char>, from: usize, to: usize) -> (text: String)
    requires
        from <= to <= chars@.len(),
    ensures
        text@ == chars@.subrange(from as int, to as int),
{
    let mut text = String::new();
    let mut i: usize = from;
    while i < to
        invariant
            from <= i <= to <= chars@.len(),
            text@ == chars@.subrange(from as int, i as int),
        decreases to - i,
    {
        text.push(chars[i]);
        i = i + 1;
        assert(text@ =~= chars@.subrange(from as int, i as int));
    }
    text
}

proof fn lemma_until_white(text: Seq<char>, end: int)
    requires
        0 <= end <= text.len(),
        forall|i: int| 0 <= i < end ==> !white(#[trigger] text[i]),
        end < text.len() ==> white(text[end]),
    ensures
        until_white(text) == end,
    decreases text.len(),
{
    if text.len() > 0 && end > 0 {
        assert(!white(text[0]));
        assert forall|i: int| 0 <= i < end - 1 implies !white(#[trigger] text.skip(1)[i]) by {
            assert(!white(text[i + 1]));
        }
        lemma_until_white(text.skip(1), end - 1);
    }
}

fn next_white(chars: &Vec<char>, from: usize, to: usize) -> (at: usize)
    requires
        from <= to <= chars@.len(),
    ensures
        from <= at <= to,
        at - from == until_white(chars@.subrange(from as int, to as int)),
{
    let ghost text = chars@.subrange(from as int, to as int);
    let mut at: usize = from;
    while at < to && !is_white(chars[at])
        invariant
            from <= at <= to <= chars@.len(),
            text == chars@.subrange(from as int, to as int),
            forall|i: int| 0 <= i < at - from ==> !white(#[trigger] text[i]),
        decreases to - at,
    {
        at = at + 1;
    }
    proof {
        if at < to {
            assert(text[at - from] == chars@[at as int]);
        }
        lemma_until_white(text, at - from);
    }
    at
}

proof fn lemma_trim_start(text: Seq<char>, start: int)
    requires
        0 <= start <= text.len(),
        forall|i: int| 0 <= i < start ==> white(#[trigger] text[i]),
        start < text.len() ==> !white(text[start]),
    ensures
        trim_start(text) == text.skip(start),
    decreases text.len(),
{
    if start > 0 {
        assert(white(text[0]));
        assert forall|i: int| 0 <= i < start - 1 implies white(#[trigger] text.skip(1)[i]) by {
            assert(white(text[i + 1]));
        }
        lemma_trim_start(text.skip(1), start - 1);
        assert(text.skip(1).skip(start - 1) =~= text.skip(start));
    } else {
        assert(text.skip(0) =~= text);
    }
}

proof fn lemma_trim_end(text: Seq<char>, end: int)
    requires
        0 <= end <= text.len(),
        forall|i: int| end <= i < text.len() ==> white(#[trigger] text[i]),
        end > 0 ==> !white(text[end - 1]),
    ensures
        trim_end(text) == text.take(end),
    decreases text.len(),
{
    if end < text.len() {
        assert(white(text[text.len() - 1]));
        assert forall|i: int| end <= i < text.drop_last().len() implies white(
            #[trigger] text.drop_last()[i],
        ) by {
            assert(white(text[i]));
        }
        lemma_trim_end(text.drop_last(), end);
        assert(text.drop_last().take(end) =~= text.take(end));
    } else {
        assert(text.take(end) =~= text);
    }
}

/// The ends of a text's trimmed part.
pub(crate) fn trim_bounds(chars: &Vec<char>) -> (bounds: (usize, usize))
    ensures
        bounds.0 <= bounds.1 <= chars@.len(),
        trimmed(chars@) == chars@.subrange(bounds.0 as int, bounds.1 as int),
{
    let mut start: usize = 0;
    while start < chars.len() && is_white(chars[start])
        invariant
            start <= chars@.len(),
            forall|i: int| 0 <= i < start ==> white(#[trigger] chars@[i]),
        decreases chars.len() - start,
    {
        start = start + 1;
    }
    let mut end: usize = chars.len();
    while end > start && is_white(chars[end - 1])
        invariant
            start <= end <= chars@.len(),
            forall|i: int| end <= i < chars@.len() ==> white(#[trigger] chars@[i]),
        decreases end,
    {
        end = end - 1;
    }
    proof {
        let text = chars@;
        lemma_trim_start(text, start as int);
        let rest = text.skip(start as int);
        assert forall|i: int| end - start <= i < rest.len() implies white(#[trigger] rest[i]) by {
            assert(white(text[i + start]));
        }
        if end > start {
            assert(rest[end - start - 1] == text[end - 1]);
        }
        lemma_trim_end(rest, end - start);
        assert(rest.take(end - start) =~= text.subrange(start as int, end as int));
    }
    (start, end)
}

/// Whether a text is white space throughout.
pub fn is_blank(text: &str) -> (blank: bool)
    ensures
        blank == (trimmed(text@).len() == 0),
{
    let chars = characters(text);
    let (start, end) = trim_bounds(&chars);
    start == end
}

/// Splits one rendered disassembly line into its byte and mnemonic columns.
pub fn split_instruction(address: u64, line: &str) -> (instruction: Instruction)
    ensures
        instruction.address == address,
        (instruction.bytes@, instruction.text@) == instruction_parts(line@),
{
    let chars = characters(line);
    let (start, end) = trim_bounds(&chars);
    let ghost whole = chars@.subrange(start as int, end as int);
    let first: usize = next_white(&chars, start, end);
    if first == end {
        return Instruction { address, bytes: String::new(), text: collapse_spaces(line) };
    }
    let ghost rest = chars@.subrange(first + 1, end as int);
    assert(whole.skip(first - start + 1) =~= rest);
    let second: usize = next_white(&chars, first + 1, end);
    if second == end {
        let only = text_between(&chars, first + 1, end);
        return Instruction {
            address,
            bytes: String::new(),
            text: collapse_spaces(only.as_str()),
        };
    }
    let bytes = text_between(&chars, first + 1, second);
    let tail = text_between(&chars, second + 1, end);
    assert(rest.take(second - first - 1) =~= bytes@);
    assert(rest.skip(second - first) =~= tail@);
    Instruction { address, bytes, text: collapse_spaces(tail.as_str()) }
}

/// A PDB signature.
#[derive(Debug, Clone, Copy, PartialEq, Eq)]
pub struct PdbGuid {
    pub data1: u32,
    pub data2: u16,
    pub data3: u16,
    pub data4: [u8; 8],
}

/// Bytes as two upper-case hexadecimal digits each.
pub open spec fn hex_bytes(bytes: Seq<u8>) -> Seq<char>
    decreases bytes.len(),
{
    if bytes.len() == 0 {
        Seq::empty()
    } else {
        hex_bytes(bytes.drop_last()) + upper_hex(bytes.last() as nat, 2)
    }
}

/// A PDB signature as a symbol server path spells it: the first three fields as the numbers they
/// are, and the trailing eight bytes in order.
pub open spec fn guid_text(guid: PdbGuid) -> Seq<char> {
    upper_hex(guid.data1 as nat, 8) + upper_hex(guid.data2 as nat, 4) + upper_hex(
        guid.data3 as nat,
        4,
    ) + hex_bytes(guid.data4@)
}

/// A PDB signature as a symbol server path spells it: 32 upper-case hexadecimal digits.
pub fn format_pdb_guid(guid: &PdbGuid) -> (text: String)
    ensures
        text@ == guid_text(*guid),
        text@.len() == 32,
{
    let mut text = String::new();
    append_upper_hex(&mut text, guid.data1 as u64, 8);
    append_upper_hex(&mut text, guid.data2 as u64, 4);
    append_upper_hex(&mut text, guid.data3 as u64, 4);
    let ghost head = text@;
    assert(head =~= upper_hex(guid.data1 as nat, 8) + upper_hex(guid.data2 as nat, 4) + upper_hex(
        guid.data3 as nat,
        4,
    ));
    let mut i: usize = 0;
    assert(guid.data4@.take(0) =~= Seq::empty());
    assert(head + hex_bytes(guid.data4@.take(0)) =~= head);
    while i < 8
        invariant
            i <= 8,
            text@ == head + hex_bytes(guid.data4@.take(i as int)),
        decreases 8 - i,
    {
        assert(guid.data4@.take(i + 1).drop_last() =~= guid.data4@.take(i as int));
        append_upper_hex(&mut text, guid.data4[i] as u64, 2);
        i = i + 1;
        assert(text@ =~= head + hex_bytes(guid.data4@.take(i as int)));
    }
    assert(guid.data4@.take(8) =~= guid.data4@);
    proof {
        lemma_upper_hex_len(guid.data1 as nat, 8);
        lemma_upper_hex_len(guid.data2 as nat, 4);
        lemma_upper_hex_len(guid.data3 as nat, 4);
        lemma_hex_bytes_len(guid.data4@);
    }
    text
}

proof fn lemma_upper_hex_len(n: nat, width: nat)
    ensures
        upper_hex(n, width).len() == width,
    decreases width,
{
    if width > 0 {
        lemma_upper_hex_len(n / 16, (width - 1) as nat);
    }
}

proof fn lemma_hex_bytes_len(bytes: Seq<u8>)
    ensures
        hex_bytes(bytes).len() == 2 * bytes.len(),
    decreases bytes.len(),
{
    if bytes.len() > 0 {
        lemma_hex_bytes_len(bytes.drop_last());
        lemma_upper_hex_len(bytes.last() as nat, 2);
    }
}

/// Whether a text holds a NUL, which the engine would take for its end.
pub fn has_nul(text: &str) -> (found: bool)
    ensures
        found == text@.contains('\0'),
{
    let chars = characters(text);
    let mut i: usize = 0;
    while i < chars.len()
        invariant
            i <= chars@.len(),
            chars@ == text@,
            forall|j: int| 0 <= j < i ==> chars@[j] != '\0',
        decreases chars.len() - i,
    {
        if chars[i] == '\0' {
            return true;
        }
        i = i + 1;
    }
    false
}

/// Refuses a text the engine would cut short: one that holds a NUL.
pub fn check_command(text: &str) -> (checked: Result<(), DbgEngError>)
    ensures
        checked == if text@.contains('\0') {
            Err::<(), DbgEngError>(DbgEngError::InvalidCommand)
        } else {
            Ok::<(), DbgEngError>(())
        },
{
    if has_nul(text) {
        Err(DbgEngError::InvalidCommand)
    } else {
        Ok(())
    }
}

/// A text with every percent sign doubled, so that the engine prints it rather than reading
/// directives out of it.
pub open spec fn escaped(text: Seq<char>) -> Seq<char>
    decreases text.len(),
{
    if text.len() == 0 {
        Seq::empty()
    } else if text.last() == '%' {
        escaped(text.drop_last()).push('%').push('%')
    } else {
        escaped(text.drop_last()).push(text.last())
    }
}

/// A text as the engine's printf-style output takes it.
pub fn escape_output(text: &str) -> (out: Result<String, DbgEngError>)
    ensures
        out is Err == text@.contains('\0'),
        out matches Err(error) ==> error is InvalidOutput,
        out matches Ok(out) ==> out@ == escaped(text@),
{
    if has_nul(text) {
        return Err(DbgEngError::InvalidOutput);
    }
    let mut out = String::new();
    for ch in it: text.chars()
        invariant
            it.seq() == text@,
            out@ == escaped(text@.take(it.index())),
    {
        let ghost at = it.index();
        assert(text@.take(at + 1).drop_last() =~= text@.take(at));
        if ch == '%' {
            out.push('%');
        }
        out.push(ch);
    }
    assert(text@.take(text@.len() as int) =~= text@);
    Ok(out)
}

/// Where output goes: to this client, with mark-up where it was asked for.
pub fn output_control(dml: bool) -> (control: u32)
    ensures
        dml ==> control == DEBUG_OUTCTL_THIS_CLIENT | DEBUG_OUTCTL_DML,
        !dml ==> control == DEBUG_OUTCTL_THIS_CLIENT,
{
    if dml {
        DEBUG_OUTCTL_THIS_CLIENT | DEBUG_OUTCTL_DML
    } else {
        DEBUG_OUTCTL_THIS_CLIENT
    }
}

/// A text in a buffer is what stands before its first NUL, or all of it.
pub proof fn a_text_ends_at_its_first_nul(bytes: Seq<u8>, units: Seq<u16>)
    ensures
        before_nul(bytes).is_prefix_of(bytes),
        !before_nul(bytes).contains(0u8),
        before_nul(bytes).len() < bytes.len() ==> bytes[before_nul(bytes).len() as int] == 0,
        wide_before_nul(units).is_prefix_of(units),
        !wide_before_nul(units).contains(0u16),
        wide_before_nul(units).len() < units.len() ==> units[wide_before_nul(units).len() as int]
            == 0,
    decreases bytes.len() + units.len(),
{
    if bytes.len() > 0 && bytes[0] != 0 {
        let rest = bytes.skip(1);
        let head = before_nul(bytes);
        a_text_ends_at_its_first_nul(rest, units);
        assert forall|i: int| 0 <= i < head.len() implies head[i] == bytes[i] && head[i] != 0 by {
            if i > 0 {
                assert(head[i] == before_nul(rest)[i - 1]);
                assert(before_nul(rest).contains(head[i]));
                assert(rest.take(before_nul(rest).len() as int)[i - 1] == bytes[i]);
            }
        }
        assert(bytes.take(head.len() as int) =~= head);
    } else {
        assert(bytes.take(0) =~= before_nul(bytes));
        if units.len() > 0 && units[0] != 0 {
            let rest = units.skip(1);
            let head = wide_before_nul(units);
            a_text_ends_at_its_first_nul(bytes, rest);
            assert forall|i: int| 0 <= i < head.len() implies head[i] == units[i] && head[i]
                != 0 by {
                if i > 0 {
                    assert(head[i] == wide_before_nul(rest)[i - 1]);
                    assert(wide_before_nul(rest).contains(head[i]));
                    assert(rest.take(wide_before_nul(rest).len() as int)[i - 1] == units[i]);
                }
            }
            assert(units.take(head.len() as int) =~= head);
        } else {
            assert(units.take(0) =~= wide_before_nul(units));
        }
    }
}

/// A character is its own unit, or a pair of them above what one unit holds; and a text's units
/// are those of its characters, one after another.
pub proof fn a_character_is_one_unit_or_two(ch: char, left: Seq<char>, right: Seq<char>)
    ensures
        (ch as int) < 0x1_0000 ==> units_of(ch).len() == 1 && units_of(ch)[0] as int == ch as int,
        (ch as int) >= 0x1_0000 ==> {
            &&& units_of(ch).len() == 2
            &&& 0xd800 <= units_of(ch)[0] <= 0xdbff
            &&& 0xdc00 <= units_of(ch)[1] <= 0xdfff
            &&& (units_of(ch)[0] - 0xd800) * 0x400 + (units_of(ch)[1] - 0xdc00) + 0x1_0000
                == ch as int
        },
        encode_utf16(seq![ch]) == units_of(ch),
        encode_utf16(left + right) == encode_utf16(left) + encode_utf16(right),
    decreases right.len(),
{
    lemma_char_range(ch);
    assert(seq![ch].drop_last() =~= Seq::empty());
    assert(encode_utf16(seq![ch]) =~= encode_utf16(Seq::empty()) + units_of(ch));
    if right.len() > 0 {
        a_character_is_one_unit_or_two(ch, left, right.drop_last());
        assert((left + right).drop_last() =~= left + right.drop_last());
        assert(encode_utf16(left + right) =~= encode_utf16(left) + encode_utf16(right));
    } else {
        assert(left + right =~= left);
        assert(encode_utf16(left + right) =~= encode_utf16(left) + encode_utf16(right));
    }
}

/// White space is what Unicode calls so, and nothing else.
pub proof fn white_space_is_unicodes(ch: char)
    ensures
        white(ch) <==> set![
            0x9int,
            0xa,
            0xb,
            0xc,
            0xd,
            0x20,
            0x85,
            0xa0,
            0x1680,
            0x2000,
            0x2001,
            0x2002,
            0x2003,
            0x2004,
            0x2005,
            0x2006,
            0x2007,
            0x2008,
            0x2009,
            0x200a,
            0x2028,
            0x2029,
            0x202f,
            0x205f,
            0x3000,
        ].contains(ch as int),
{
}

/// A text without white space is one word, and white space parts what is before it from what is
/// behind: these two say what the words of any text are.
pub proof fn words_are_parted_by_white_space(left: Seq<char>, ch: char, right: Seq<char>)
    ensures
        left.len() > 0 && (forall|i: int| 0 <= i < left.len() ==> !white(#[trigger] left[i]))
            ==> words(left) == seq![left],
        white(ch) ==> words(left.push(ch) + right) == words(left) + words(right),
        words(Seq::empty()) == Seq::<Seq<char>>::empty(),
    decreases left.len() + right.len(),
{
    if left.len() > 0 && (forall|i: int| 0 <= i < left.len() ==> !white(#[trigger] left[i])) {
        let front = left.drop_last();
        if left.len() > 1 {
            assert forall|i: int| 0 <= i < front.len() implies !white(#[trigger] front[i]) by {
                assert(front[i] == left[i]);
            }
            words_are_parted_by_white_space(front, ch, Seq::empty());
            assert(!white(left[left.len() - 2]));
            assert(front.push(left.last()) =~= left);
            assert(words(left) =~= seq![left]);
        } else {
            assert(front =~= Seq::empty());
            assert(left =~= seq![left.last()]);
            assert(words(left) =~= seq![left]);
        }
    }
    if white(ch) {
        let text = left.push(ch) + right;
        if right.len() == 0 {
            assert(text.drop_last() =~= left);
            assert(words(text) =~= words(left) + words(right));
        } else {
            let front = right.drop_last();
            words_are_parted_by_white_space(left, ch, front);
            assert(text.drop_last() =~= left.push(ch) + front);
            assert(text.last() == right.last());
            let before = words(front);
            if white(right.last()) {
            } else if right.len() == 1 {
                assert(front =~= Seq::empty());
                assert(text[text.len() - 2] == ch);
                assert(words(text) =~= words(left) + words(right));
            } else if white(right[right.len() - 2]) {
                assert(text[text.len() - 2] == right[right.len() - 2]);
                assert(words(text) =~= words(left) + words(right));
            } else {
                assert(text[text.len() - 2] == right[right.len() - 2]);
                assert(front.last() == right[right.len() - 2]);
                lemma_words_nonempty(front);
                assert((words(left) + before).drop_last() =~= words(left) + before.drop_last());
                assert(words(text) =~= words(left) + words(right));
            }
        }
    }
}

/// Whether a text is a word: not empty, and without white space in it.
pub open spec fn is_word(word: Seq<char>) -> bool {
    word.len() > 0 && forall|i: int| 0 <= i < word.len() ==> !white(#[trigger] word[i])
}

/// Whether every word is one.
pub open spec fn are_words(words: Seq<Seq<char>>) -> bool {
    forall|i: int| 0 <= i < words.len() ==> is_word(#[trigger] words[i])
}

/// How many characters words have in all.
pub open spec fn letters(words: Seq<Seq<char>>) -> nat
    decreases words.len(),
{
    if words.len() == 0 {
        0
    } else {
        letters(words.drop_last()) + words.last().len()
    }
}

/// Words that are spaced out are the words of what comes of it, with one blank between any two and
/// nothing else added.
pub proof fn spaced_words_are_words_again(parts: Seq<Seq<char>>)
    requires
        are_words(parts),
    ensures
        words(spaced(parts)) == parts,
        parts.len() > 0 ==> spaced(parts).len() + 1 == letters(parts) + parts.len(),
        parts.len() == 0 ==> spaced(parts).len() == 0,
        forall|i: int|
            0 <= i < spaced(parts).len() && white(#[trigger] spaced(parts)[i]) ==> spaced(parts)[i]
                == ' ',
    decreases parts.len(),
{
    if parts.len() > 0 {
        let front = parts.drop_last();
        let last = parts.last();
        assert forall|i: int| 0 <= i < front.len() implies is_word(#[trigger] front[i]) by {
            assert(front[i] == parts[i]);
        }
        assert(is_word(parts[parts.len() - 1]));
        spaced_words_are_words_again(front);
        words_are_parted_by_white_space(last, ' ', Seq::empty());
        if parts.len() == 1 {
            assert(spaced(parts) == last);
            assert(parts =~= seq![last]);
            assert(front =~= Seq::empty());
        } else {
            words_are_parted_by_white_space(spaced(front), ' ', last);
            assert(spaced(parts) == spaced(front).push(' ') + last);
            assert(front + seq![last] =~= parts);
            assert forall|i: int| 0 <= i < spaced(parts).len() && white(
                #[trigger] spaced(parts)[i],
            ) implies spaced(parts)[i] == ' ' by {
                if i < spaced(front).len() {
                    assert(spaced(parts)[i] == spaced(front)[i]);
                } else if i > spaced(front).len() {
                    assert(spaced(parts)[i] == last[i - spaced(front).len() - 1]);
                }
            }
        }
    } else {
        assert(words(spaced(parts)) =~= parts);
    }
}

proof fn lemma_words_are_words(text: Seq<char>)
    ensures
        are_words(words(text)),
    decreases text.len(),
{
    if text.len() > 0 {
        let before = words(text.drop_last());
        let last = text.last();
        lemma_words_are_words(text.drop_last());
        if !white(last) {
            let grows = text.len() > 1 && !white(text[text.len() - 2]);
            if grows {
                lemma_words_nonempty(text.drop_last());
                assert(is_word(before[before.len() - 1]));
            }
            assert forall|i: int| 0 <= i < words(text).len() implies is_word(
                #[trigger] words(text)[i],
            ) by {
                if i < words(text).len() - 1 {
                    assert(words(text)[i] == before[i]);
                }
            }
        }
    }
}

/// A collapsed text has the words of the text and nothing but a blank between any two, so
/// collapsing it again changes nothing.
pub proof fn a_collapsed_text_keeps_its_words(text: Seq<char>)
    ensures
        words(collapsed(text)) == words(text),
        collapsed(collapsed(text)) == collapsed(text),
        words(text).len() > 0 ==> collapsed(text).len() + 1 == letters(words(text))
            + words(text).len(),
        forall|i: int|
            0 <= i < collapsed(text).len() && white(#[trigger] collapsed(text)[i]) ==> collapsed(
                text,
            )[i] == ' ',
{
    lemma_words_are_words(text);
    spaced_words_are_words_again(words(text));
}

/// A trimmed text is what is left between the white space around it: all that was cut is white,
/// and neither end of what is left is.
pub proof fn only_the_ends_are_trimmed(text: Seq<char>, from: int, to: int)
    requires
        0 <= from <= to <= text.len(),
        forall|i: int| 0 <= i < from || to <= i < text.len() ==> white(#[trigger] text[i]),
        from < to ==> !white(text[from]) && !white(text[to - 1]),
        from == to ==> to == text.len(),
    ensures
        trimmed(text) == text.subrange(from, to),
{
    lemma_trim_start(text, from);
    let rest = text.skip(from);
    assert forall|i: int| to - from <= i < rest.len() implies white(#[trigger] rest[i]) by {
        assert(rest[i] == text[from + i]);
    }
    lemma_trim_end(rest, to - from);
    assert(rest.take(to - from) =~= text.subrange(from, to));
}

/// A word is followed by white space or by nothing.
pub proof fn a_word_ends_at_white_space(word: Seq<char>, ch: char, rest: Seq<char>)
    requires
        forall|i: int| 0 <= i < word.len() ==> !white(#[trigger] word[i]),
    ensures
        until_white(word) == word.len(),
        white(ch) ==> until_white(word.push(ch) + rest) == word.len(),
{
    lemma_until_white(word, word.len() as int);
    let line = word.push(ch) + rest;
    if white(ch) {
        assert forall|i: int| 0 <= i < word.len() implies !white(#[trigger] line[i]) by {
            assert(line[i] == word[i]);
        }
        lemma_until_white(line, word.len() as int);
    }
}

/// A disassembled line's columns are parted by the first two characters of white space in it: what
/// is before the first is dropped, what is between them is the one column, and all that is behind
/// is the other.
pub proof fn columns_are_parted_by_white_space(
    address: Seq<char>,
    gap: char,
    bytes: Seq<char>,
    other: char,
    rest: Seq<char>,
)
    requires
        forall|i: int| 0 <= i < address.len() ==> !white(#[trigger] address[i]),
        forall|i: int| 0 <= i < bytes.len() ==> !white(#[trigger] bytes[i]),
        white(gap),
        white(other),
    ensures
        columns(address) == (None::<Seq<char>>, None::<Seq<char>>),
        columns(address.push(gap) + bytes) == (Some(bytes), None::<Seq<char>>),
        columns(address.push(gap) + (bytes.push(other) + rest)) == (Some(bytes), Some(rest)),
{
    a_word_ends_at_white_space(address, gap, bytes);
    a_word_ends_at_white_space(bytes, other, rest);
    let tail = bytes.push(other) + rest;
    a_word_ends_at_white_space(address, gap, tail);
    let one = address.push(gap) + bytes;
    let two = address.push(gap) + tail;
    assert(one.skip(address.len() as int + 1) =~= bytes);
    assert(two.skip(address.len() as int + 1) =~= tail);
    assert(tail.take(bytes.len() as int) =~= bytes);
    assert(tail.skip(bytes.len() as int + 1) =~= rest);
}

/// An instruction's encoding is the line's second column where it has three, and its text is what
/// follows, collapsed; a line of two columns has no encoding, and one of one is all text.
pub proof fn an_instruction_is_its_columns(
    line: Seq<char>,
    address: Seq<char>,
    gap: char,
    bytes: Seq<char>,
    other: char,
    rest: Seq<char>,
)
    requires
        forall|i: int| 0 <= i < address.len() ==> !white(#[trigger] address[i]),
        forall|i: int| 0 <= i < bytes.len() ==> !white(#[trigger] bytes[i]),
        white(gap),
        white(other),
    ensures
        trimmed(line) == address.push(gap) + (bytes.push(other) + rest) ==> instruction_parts(line)
            == (bytes, collapsed(rest)),
        trimmed(line) == address.push(gap) + bytes ==> instruction_parts(line) == (
            Seq::<char>::empty(),
            collapsed(bytes),
        ),
        trimmed(line) == address ==> instruction_parts(line) == (
            Seq::<char>::empty(),
            collapsed(line),
        ),
{
    columns_are_parted_by_white_space(address, gap, bytes, other, rest);
}

proof fn lemma_hex_bytes_at(bytes: Seq<u8>, i: int)
    requires
        0 <= i < bytes.len(),
    ensures
        hex_bytes(bytes).len() == 2 * bytes.len(),
        hex_bytes(bytes).subrange(2 * i, 2 * i + 2) == upper_hex(bytes[i] as nat, 2),
    decreases bytes.len(),
{
    lemma_hex_bytes_len(bytes);
    lemma_hex_bytes_len(bytes.drop_last());
    lemma_upper_hex_len(bytes.last() as nat, 2);
    if i < bytes.len() - 1 {
        lemma_hex_bytes_at(bytes.drop_last(), i);
        assert(hex_bytes(bytes).subrange(2 * i, 2 * i + 2) =~= hex_bytes(
            bytes.drop_last(),
        ).subrange(2 * i, 2 * i + 2));
    } else {
        assert(hex_bytes(bytes).subrange(2 * i, 2 * i + 2) =~= upper_hex(bytes[i] as nat, 2));
    }
}

/// An identifier's text reads back as its fields, in their order and each in as many digits as it
/// has room for.
pub proof fn an_identifier_reads_back(guid: PdbGuid, i: int)
    requires
        0 <= i < 8,
    ensures
        guid_text(guid).len() == 32,
        number_of(guid_text(guid).subrange(0, 8), 16) == guid.data1,
        number_of(guid_text(guid).subrange(8, 12), 16) == guid.data2,
        number_of(guid_text(guid).subrange(12, 16), 16) == guid.data3,
        number_of(guid_text(guid).subrange(16 + 2 * i, 18 + 2 * i), 16) == guid.data4@[i],
{
    let text = guid_text(guid);
    let first = upper_hex(guid.data1 as nat, 8);
    let second = upper_hex(guid.data2 as nat, 4);
    let third = upper_hex(guid.data3 as nat, 4);
    let last = hex_bytes(guid.data4@);
    assert(pow(16, 2) == 0x100 && pow(16, 4) == 0x1_0000 && pow(16, 8) == 0x1_0000_0000) by {
        reveal_with_fuel(pow, 9);
    }
    a_padded_number_reads_back(guid.data1 as nat, 8);
    a_padded_number_reads_back(guid.data2 as nat, 4);
    a_padded_number_reads_back(guid.data3 as nat, 4);
    a_padded_number_reads_back(guid.data4@[i] as nat, 2);
    lemma_hex_bytes_at(guid.data4@, i);
    assert(text.subrange(0, 8) =~= first);
    assert(text.subrange(8, 12) =~= second);
    assert(text.subrange(12, 16) =~= third);
    assert(text.subrange(16 + 2 * i, 18 + 2 * i) =~= last.subrange(2 * i, 2 * i + 2));
}

/// A text is escaped character by character: a percent sign is doubled, and every other character
/// stands for itself.
pub proof fn every_character_is_escaped_by_itself(left: Seq<char>, right: Seq<char>, ch: char)
    ensures
        escaped(left + right) == escaped(left) + escaped(right),
        ch == '%' ==> escaped(seq![ch]) == seq!['%', '%'],
        ch != '%' ==> escaped(seq![ch]) == seq![ch],
        escaped(Seq::empty()) == Seq::<char>::empty(),
    decreases right.len(),
{
    assert(seq![ch].drop_last() =~= Seq::empty());
    assert(escaped(Seq::empty()) =~= Seq::empty());
    if ch == '%' {
        assert(escaped(seq![ch]) =~= seq!['%', '%']);
    } else {
        assert(escaped(seq![ch]) =~= seq![ch]);
    }
    if right.len() > 0 {
        every_character_is_escaped_by_itself(left, right.drop_last(), ch);
        assert((left + right).drop_last() =~= left + right.drop_last());
        assert(escaped(left + right) =~= escaped(left) + escaped(right));
    } else {
        assert(left + right =~= left);
        assert(escaped(left + right) =~= escaped(left) + escaped(right));
    }
}

} // verus!
