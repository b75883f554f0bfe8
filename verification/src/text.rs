//! Text as the crate spells it: numbers, joins and the engine's own encodings.
use vstd::prelude::*;
use vstd::string::*;

verus! {

/// `String::push` appends one character.
pub assume_specification[ String::push ](text: &mut String, ch: char)
    ensures
        final(text)@ == old(text)@.push(ch),
;

/// The digit `d` in a base of at most sixteen, in lower case.
pub open spec fn lower_digit(d: int) -> char {
    if d < 10 {
        (48 + d) as char
    } else {
        (87 + d) as char
    }
}

/// The digit `d` in a base of at most sixteen, in upper case.
pub open spec fn upper_digit(d: int) -> char {
    if d < 10 {
        (48 + d) as char
    } else {
        (55 + d) as char
    }
}

/// `n` in decimal, without leading zeroes.
pub open spec fn decimal_text(n: nat) -> Seq<char>
    decreases n,
{
    if n < 10 {
        seq![lower_digit(n as int)]
    } else {
        decimal_text(n / 10).push(lower_digit((n % 10) as int))
    }
}

/// `n` in lower-case hexadecimal, without leading zeroes or prefix.
pub open spec fn hex_digits(n: nat) -> Seq<char>
    decreases n,
{
    if n < 16 {
        seq![lower_digit(n as int)]
    } else {
        hex_digits(n / 16).push(lower_digit((n % 16) as int))
    }
}

/// `n` as the debugger prints an address: `0x` and its hexadecimal digits.
pub open spec fn hex_text(n: nat) -> Seq<char> {
    "0x"@ + hex_digits(n)
}

/// The low `width` hexadecimal digits of `n`, in upper case.
pub open spec fn upper_hex(n: nat, width: nat) -> Seq<char>
    decreases width,
{
    if width == 0 {
        Seq::empty()
    } else {
        upper_hex(n / 16, (width - 1) as nat).push(upper_digit((n % 16) as int))
    }
}

fn lower_char(d: u8) -> (ch: char)
    requires
        d < 16,
    ensures
        ch == lower_digit(d as int),
{
    if d < 10 {
        (48u8 + d) as char
    } else {
        (87u8 + d) as char
    }
}

fn upper_char(d: u8) -> (ch: char)
    requires
        d < 16,
    ensures
        ch == upper_digit(d as int),
{
    if d < 10 {
        (48u8 + d) as char
    } else {
        (55u8 + d) as char
    }
}

/// `n` in decimal.
pub fn decimal(n: u64) -> (text: String)
    ensures
        text@ == decimal_text(n as nat),
    decreases n,
{
    if n < 10 {
        let mut text = String::new();
        text.push(lower_char(n as u8));
        assert(text@ =~= decimal_text(n as nat));
        text
    } else {
        let mut text = decimal(n / 10);
        text.push(lower_char((n % 10) as u8));
        text
    }
}

fn append_hex(text: &mut String, n: u64)
    ensures
        final(text)@ == old(text)@ + hex_digits(n as nat),
    decreases n,
{
    if n < 16 {
        text.push(lower_char(n as u8));
        assert(text@ =~= old(text)@ + hex_digits(n as nat));
    } else {
        append_hex(text, n / 16);
        text.push(lower_char((n % 16) as u8));
        assert(text@ =~= old(text)@ + hex_digits(n as nat));
    }
}

/// `n` as `0x` and its hexadecimal digits.
pub fn hex(n: u64) -> (text: String)
    ensures
        text@ == hex_text(n as nat),
{
    let mut text = String::from_str("0x");
    append_hex(&mut text, n);
    text
}

/// Appends the low `width` hexadecimal digits of `n`, in upper case.
pub fn append_upper_hex(text: &mut String, n: u64, width: u8)
    ensures
        final(text)@ == old(text)@ + upper_hex(n as nat, width as nat),
    decreases width,
{
    if width > 0 {
        append_upper_hex(text, n / 16, width - 1);
        text.push(upper_char((n % 16) as u8));
        assert(text@ =~= old(text)@ + upper_hex(n as nat, width as nat));
    } else {
        assert(text@ =~= old(text)@ + upper_hex(n as nat, width as nat));
    }
}

/// One text after another.
pub fn joined(first: &str, second: &str) -> (text: String)
    ensures
        text@ == first@ + second@,
{
    let mut text = String::from_str(first);
    text.append(second);
    text
}

/// What a digit stands for, in either case, or nothing that a number could hold.
pub open spec fn digit_value(ch: char) -> int {
    let code = ch as int;
    if 48 <= code <= 57 {
        code - 48
    } else if 97 <= code <= 102 {
        code - 87
    } else if 65 <= code <= 70 {
        code - 55
    } else {
        -1
    }
}

/// The number a text's digits stand for in a base, the highest first.
pub open spec fn number_of(digits: Seq<char>, base: int) -> int
    decreases digits.len(),
{
    if digits.len() == 0 {
        0
    } else {
        number_of(digits.drop_last(), base) * base + digit_value(digits.last())
    }
}

/// A number written in decimal reads back as itself, in decimal digits and without a zero before
/// them.
pub proof fn a_decimal_reads_back(n: nat)
    ensures
        number_of(decimal_text(n), 10) == n,
        decimal_text(n).len() >= 1,
        forall|i: int|
            0 <= i < decimal_text(n).len() ==> 48 <= #[trigger] decimal_text(n)[i] as int <= 57,
        n > 0 ==> decimal_text(n)[0] != '0',
    decreases n,
{
    if n >= 10 {
        a_decimal_reads_back(n / 10);
        assert(decimal_text(n).drop_last() =~= decimal_text(n / 10));
    } else {
        assert(decimal_text(n).drop_last() =~= Seq::empty());
        assert(number_of(Seq::empty(), 10) == 0);
    }
}

/// A number written in hexadecimal reads back as itself, in digits of lower case, without a zero
/// before them and after the prefix.
pub proof fn a_hexadecimal_reads_back(n: nat)
    ensures
        number_of(hex_digits(n), 16) == n,
        hex_digits(n).len() >= 1,
        forall|i: int|
            0 <= i < hex_digits(n).len() ==> {
                ||| 48 <= #[trigger] hex_digits(n)[i] as int <= 57
                ||| 97 <= hex_digits(n)[i] as int <= 102
            },
        n > 0 ==> hex_digits(n)[0] != '0',
        hex_text(n).len() == hex_digits(n).len() + 2,
        hex_text(n)[0] == '0' && hex_text(n)[1] == 'x',
        hex_text(n).skip(2) == hex_digits(n),
    decreases n,
{
    reveal_strlit("0x");
    assert(hex_text(n).skip(2) =~= hex_digits(n));
    if n >= 16 {
        a_hexadecimal_reads_back(n / 16);
        assert(hex_digits(n).drop_last() =~= hex_digits(n / 16));
    } else {
        assert(hex_digits(n).drop_last() =~= Seq::empty());
        assert(number_of(Seq::empty(), 16) == 0);
    }
}

/// A number of no more digits than there is room for, written in that many digits of upper case,
/// reads back as itself.
pub proof fn a_padded_number_reads_back(n: nat, width: nat)
    requires
        n < vstd::arithmetic::power::pow(16, width),
    ensures
        number_of(upper_hex(n, width), 16) == n,
        upper_hex(n, width).len() == width,
        forall|i: int|
            0 <= i < width ==> {
                ||| 48 <= #[trigger] upper_hex(n, width)[i] as int <= 57
                ||| 65 <= upper_hex(n, width)[i] as int <= 70
            },
    decreases width,
{
    reveal(vstd::arithmetic::power::pow);
    if width > 0 {
        let before = (width - 1) as nat;
        a_padded_number_reads_back(n / 16, before);
        assert(upper_hex(n, width).drop_last() =~= upper_hex(n / 16, before));
    }
}

} // verus!
