//! Numbers written out as text, and text read back as numbers.

use vstd::prelude::*;

verus! {

/// `String::push` appends one character to the end of the string.
pub assume_specification[ String::push ](text: &mut String, ch: char)
    ensures
        final(text)@ == old(text)@.push(ch),
;

/// The character of a decimal digit: `'0'` for zero up to `'9'` for nine.
pub open spec fn digit_char(d: nat) -> char
    recommends
        d < 10,
{
    ('0' as nat + d) as char
}

/// The decimal notation of `n`, most significant digit first, without
/// leading zeros.
pub open spec fn decimal(n: nat) -> Seq<char>
    decreases n,
{
    if n < 10 {
        seq![digit_char(n)]
    } else {
        decimal(n / 10).push(digit_char(n % 10))
    }
}

fn digit_of(d: usize) -> (ch: char)
    requires
        d < 10,
    ensures
        ch == digit_char(d as nat),
{
    (48u8 + d as u8) as char
}

/// Appends the decimal notation of `n` to `out`.
pub fn push_decimal(out: &mut String, n: usize)
    ensures
        final(out)@ == old(out)@ + decimal(n as nat),
    decreases n,
{
    if n >= 10 {
        push_decimal(out, n / 10);
    }
    out.push(digit_of(n % 10));
}

/// The decimal notation of `n`.
pub fn decimal_text(n: usize) -> (text: String)
    ensures
        text@ == decimal(n as nat),
{
    let mut text = String::new();
    push_decimal(&mut text, n);
    text
}

/// Ten to the power of `k`.
pub open spec fn pow10(k: nat) -> nat
    decreases k,
{
    if k == 0 {
        1
    } else {
        10 * pow10((k - 1) as nat)
    }
}

/// A number below ten to the power of `k` is written with at most `k`
/// digits, and every number with at least one.
pub proof fn lemma_decimal_len(n: nat, k: nat)
    requires
        k >= 1,
        n < pow10(k),
    ensures
        1 <= decimal(n).len() <= k,
    decreases k,
{
    reveal_with_fuel(pow10, 2);
    if n >= 10 {
        lemma_decimal_len(n / 10, (k - 1) as nat);
    }
}

/// Every number that the machine word holds is written with at most twenty
/// digits.
pub proof fn lemma_decimal_len_of_word(n: usize)
    ensures
        1 <= decimal(n as nat).len() <= 20,
{
    assert(pow10(20) == 100000000000000000000) by {
        reveal_with_fuel(pow10, 21);
    }
    lemma_decimal_len(n as nat, 20);
}

/// The decimal notation holds decimal digits only.
pub proof fn lemma_decimal_digits(n: nat, i: int)
    requires
        0 <= i < decimal(n).len(),
    ensures
        '0' <= decimal(n)[i] <= '9',
    decreases n,
{
    if n >= 10 && i < decimal(n / 10).len() {
        lemma_decimal_digits(n / 10, i);
    }
}

/// The character of a hexadecimal digit, in upper case.
pub open spec fn upper_hex_char(d: nat) -> char
    recommends
        d < 16,
{
    if d < 10 {
        ('0' as nat + d) as char
    } else {
        ('A' as nat + (d - 10)) as char
    }
}

/// The hexadecimal notation of `n` in upper case, most significant digit
/// first, without leading zeros.
pub open spec fn upper_hex(n: nat) -> Seq<char>
    decreases n,
{
    if n < 16 {
        seq![upper_hex_char(n)]
    } else {
        upper_hex(n / 16).push(upper_hex_char(n % 16))
    }
}

/// `text` with as many copies of `fill` put before it as it takes to reach
/// the length `width`; `text` itself where it is that long already.
pub open spec fn pad_left(text: Seq<char>, width: nat, fill: char) -> Seq<char> {
    if text.len() >= width {
        text
    } else {
        Seq::new((width - text.len()) as nat, |i: int| fill) + text
    }
}

fn upper_hex_digit_of(d: u32) -> (ch: char)
    requires
        d < 16,
    ensures
        ch == upper_hex_char(d as nat),
{
    if d < 10 {
        (48u8 + d as u8) as char
    } else {
        (65u8 + (d - 10) as u8) as char
    }
}

/// Appends the upper-case hexadecimal notation of `n` to `out`.
pub fn push_upper_hex(out: &mut String, n: u32)
    ensures
        final(out)@ == old(out)@ + upper_hex(n as nat),
    decreases n,
{
    if n >= 16 {
        push_upper_hex(out, n / 16);
    }
    out.push(upper_hex_digit_of(n % 16));
}

/// The number of digits of the hexadecimal notation of `n`.
pub fn upper_hex_len(n: u32) -> (len: usize)
    ensures
        len == upper_hex(n as nat).len(),
        1 <= len <= 8,
    decreases n,
{
    if n < 16 {
        1
    } else {
        let shorter = upper_hex_len(n / 16);
        proof {
            assert(pow16(8) == 0x1_0000_0000) by {
                reveal_with_fuel(pow16, 9);
            }
            lemma_upper_hex_len(n as nat, 8);
        }
        shorter + 1
    }
}

/// Sixteen to the power of `k`.
pub open spec fn pow16(k: nat) -> nat
    decreases k,
{
    if k == 0 {
        1
    } else {
        16 * pow16((k - 1) as nat)
    }
}

/// A number below sixteen to the power of `k` is written with at most `k`
/// hexadecimal digits, and every number with at least one.
pub proof fn lemma_upper_hex_len(n: nat, k: nat)
    requires
        k >= 1,
        n < pow16(k),
    ensures
        1 <= upper_hex(n).len() <= k,
    decreases k,
{
    reveal_with_fuel(pow16, 2);
    if n >= 16 {
        lemma_upper_hex_len(n / 16, (k - 1) as nat);
    }
}

/// Appends to `out` the upper-case hexadecimal notation of `n`, padded
/// with zeros on the left to at least `width` digits.
pub fn push_padded_upper_hex(out: &mut String, n: u32, width: usize)
    ensures
        final(out)@ == old(out)@ + pad_left(upper_hex(n as nat), width as nat, '0'),
{
    let len = upper_hex_len(n);
    let ghost start = out@;
    let mut written: usize = len;
    while written < width
        invariant
            len <= written,
            written <= width || written == len,
            out@ == start + Seq::new((written - len) as nat, |i: int| '0'),
        decreases width - written,
    {
        out.push('0');
        written += 1;
        assert(out@ =~= start + Seq::new((written - len) as nat, |i: int| '0'));
    }
    push_upper_hex(out, n);
    assert(out@ =~= start + pad_left(upper_hex(n as nat), width as nat, '0'));
}

/// The value of `ch` as a digit in `radix`: the decimal digits stand for
/// zero to nine and the letters, in either case, for ten onwards. A
/// character whose value does not lie below the radix is no digit.
pub open spec fn digit_value(ch: char, radix: nat) -> Option<nat> {
    let value: int = if '0' <= ch <= '9' {
        ch as int - '0' as int
    } else if 'a' <= ch <= 'z' {
        ch as int - 'a' as int + 10
    } else if 'A' <= ch <= 'Z' {
        ch as int - 'A' as int + 10
    } else {
        -1
    };
    if 0 <= value < radix {
        Some(value as nat)
    } else {
        None
    }
}

/// Whether every character of `digits` is a digit in `radix`.
pub open spec fn all_digits(digits: Seq<char>, radix: nat) -> bool {
    forall|i: int| 0 <= i < digits.len() ==> digit_value(#[trigger] digits[i], radix) is Some
}

/// The number that `digits` write in `radix`, most significant digit
/// first.
pub open spec fn digits_value(digits: Seq<char>, radix: nat) -> nat
    recommends
        all_digits(digits, radix),
    decreases digits.len(),
{
    if digits.len() == 0 {
        0
    } else {
        digits_value(digits.drop_last(), radix) * radix + digit_value(digits.last(), radix)->0
    }
}

/// The digits of an unsigned number: the text, without the one plus sign
/// that may stand before them.
pub open spec fn unsigned_digits(text: Seq<char>) -> Seq<char> {
    if text.len() > 0 && text[0] == '+' {
        text.skip(1)
    } else {
        text
    }
}

/// The unsigned number that `text` writes in `radix`, where it writes one
/// that is not larger than `max`: an optional plus sign, then one digit or
/// more and nothing else.
pub open spec fn parse_unsigned(text: Seq<char>, radix: nat, max: nat) -> Option<nat> {
    let digits = unsigned_digits(text);
    if digits.len() > 0 && all_digits(digits, radix) && digits_value(digits, radix) <= max {
        Some(digits_value(digits, radix))
    } else {
        None
    }
}

/// Leading digits never write a larger number than all the digits.
pub proof fn lemma_digits_value_prefix(digits: Seq<char>, radix: nat, k: int)
    requires
        radix >= 1,
        0 <= k <= digits.len(),
    ensures
        digits_value(digits.take(k), radix) <= digits_value(digits, radix),
    decreases digits.len() - k,
{
    if k == digits.len() {
        assert(digits.take(k) =~= digits);
    } else {
        lemma_digits_value_prefix(digits.drop_last(), radix, k);
        assert(digits.drop_last().take(k) =~= digits.take(k));
        let shorter = digits_value(digits.drop_last(), radix);
        assert(shorter <= shorter * radix) by (nonlinear_arith)
            requires
                radix >= 1,
                shorter >= 0,
        ;
    }
}

fn digit_of_char(ch: char, radix: u32) -> (digit: Option<u32>)
    requires
        radix <= 36,
    ensures
        digit matches Some(d) ==> digit_value(ch, radix as nat) == Some(d as nat),
        digit is None ==> digit_value(ch, radix as nat) is None,
{
    let code = ch as u32;
    let value = if 48 <= code && code <= 57 {
        code - 48
    } else if 97 <= code && code <= 122 {
        code - 97 + 10
    } else if 65 <= code && code <= 90 {
        code - 65 + 10
    } else {
        return None;
    };
    if value < radix {
        Some(value)
    } else {
        None
    }
}

/// The characters of `text`, in their order.
pub fn chars_of(text: &str) -> (chars: Vec<char>)
    ensures
        chars@ == text@,
{
    let mut chars: Vec<char> = Vec::new();
    for ch in it: text.chars()
        invariant
            it.seq() == text@,
            chars@ == it.seq().take(it.index() as int),
    {
        chars.push(ch);
        assert(it.seq().take(it.index() + 1) =~= it.seq().take(it.index() as int).push(ch));
    }
    assert(chars@ =~= text@);
    chars
}

/// Reads `text` as an unsigned number in `radix` that is not larger than
/// `max`.
pub fn parse_radix(text: &[char], radix: u32, max: u64) -> (value: Option<u64>)
    requires
        2 <= radix <= 36,
    ensures
        value matches Some(v) ==> parse_unsigned(text@, radix as nat, max as nat) == Some(v as nat),
        value is None ==> parse_unsigned(text@, radix as nat, max as nat) is None,
{
    let len = text.len();
    let start: usize = if len > 0 && text[0] == '+' {
        1
    } else {
        0
    };
    if start == len {
        return None;
    }
    let ghost digits = unsigned_digits(text@);
    assert(digits =~= text@.skip(start as int));
    let mut total: u64 = 0;
    let mut i: usize = start;
    while i < len
        invariant
            start <= i <= len,
            len == text@.len(),
            2 <= radix <= 36,
            digits == text@.skip(start as int),
            digits == unsigned_digits(text@),
            all_digits(digits.take(i - start), radix as nat),
            total == digits_value(digits.take(i - start), radix as nat),
            total <= max,
        decreases len - i,
    {
        let ch = text[i];
        let ghost seen = digits.take(i - start);
        let ghost next = digits.take(i - start + 1);
        proof {
            assert(next.drop_last() =~= seen);
            assert(next.last() == ch);
            assert(digits[i - start] == ch);
        }
        let digit = match digit_of_char(ch, radix) {
            Some(digit) => digit,
            None => {
                return None;
            },
        };
        assert(total * radix <= 0xffff_ffff_ffff_ffff * 36) by (nonlinear_arith)
            requires
                0 <= total <= 0xffff_ffff_ffff_ffff,
                0 <= radix <= 36,
        ;
        let wider: u128 = total as u128 * radix as u128 + digit as u128;
        proof {
            assert(digits_value(next, radix as nat) == total * radix + digit);
            lemma_digits_value_prefix(digits, radix as nat, i - start + 1);
        }
        if wider > max as u128 {
            return None;
        }
        total = wider as u64;
        i += 1;
    }
    assert(digits.take(len - start) =~= digits);
    Some(total)
}

} // verus!
