//! Decimal numbers as text.

use vstd::prelude::*;
use vstd::string::StringExecFns;

verus! {

broadcast use vstd::utf8::is_ascii_chars_encode_utf8;

const ASCII_PLUS: u8 = 0x2b;

const ASCII_MINUS: u8 = 0x2d;

const ASCII_ZERO: u8 = 0x30;

const ASCII_NINE: u8 = 0x39;

/// Whether `c` is a decimal digit.
pub open spec fn is_digit(c: char) -> bool {
    '0' <= c <= '9'
}

/// Whether `digits` is one decimal digit or more.
pub open spec fn is_number(digits: Seq<char>) -> bool {
    &&& digits.len() > 0
    &&& forall|i: int| 0 <= i < digits.len() ==> is_digit(#[trigger] digits[i])
}

/// The number that decimal digits stand for.
pub open spec fn number_of(digits: Seq<char>) -> nat
    decreases digits.len(),
{
    if digits.len() == 0 {
        0
    } else {
        number_of(digits.drop_last()) * 10 + (digits.last() as nat - '0' as nat) as nat
    }
}

/// The digit that stands for `n`, which is below ten.
pub open spec fn digit_of(n: nat) -> char {
    ('0' as nat + n) as char
}

/// `n` in decimal digits, without leading zeros.
pub open spec fn decimal(n: nat) -> Seq<char>
    decreases n,
{
    if n < 10 {
        seq![digit_of(n)]
    } else {
        decimal(n / 10).push(digit_of(n % 10))
    }
}

/// The `u16` that a text stands for: digits, behind a plus sign or not, whose number fits.
pub open spec fn u16_in(text: Seq<char>) -> Option<u16> {
    let digits = if text.len() > 0 && text[0] == '+' {
        text.skip(1)
    } else {
        text
    };
    if is_number(digits) && number_of(digits) <= u16::MAX {
        Some(number_of(digits) as u16)
    } else {
        None
    }
}

/// The `i32` that a text stands for: digits, behind a sign or not, whose number fits.
pub open spec fn i32_in(text: Seq<char>) -> Option<i32> {
    let signed = text.len() > 0 && (text[0] == '+' || text[0] == '-');
    let digits = if signed {
        text.skip(1)
    } else {
        text
    };
    let value = if signed && text[0] == '-' {
        -number_of(digits)
    } else {
        number_of(digits) as int
    };
    if is_number(digits) && i32::MIN <= value <= i32::MAX {
        Some(value as i32)
    } else {
        None
    }
}

proof fn lemma_number_grows(digits: Seq<char>, n: int)
    requires
        0 <= n <= digits.len(),
        is_number(digits),
    ensures
        number_of(digits.take(n)) <= number_of(digits),
    decreases digits.len() - n,
{
    if n < digits.len() {
        lemma_number_grows(digits, n + 1);
        assert(digits.take(n + 1).drop_last() =~= digits.take(n));
        assert(is_digit(digits[n]));
    } else {
        assert(digits.take(n) =~= digits);
    }
}

/// The number of the digits of an ASCII text from `from` on, if there are any, they are
/// nothing but digits, and the number is at most `limit`.
fn digits_value(text: &str, from: usize, limit: u64) -> (value: Option<u64>)
    requires
        text.is_ascii(),
        from <= text@.len(),
        limit <= 0xffff_ffff,
    ensures
        ({
            let digits = text@.skip(from as int);
            match value {
                Some(value) => is_number(digits) && number_of(digits) == value && value <= limit,
                None => !is_number(digits) || number_of(digits) > limit,
            }
        }),
{
    let bytes = text.as_bytes();
    let ghost digits = text@.skip(from as int);
    let mut value: u64 = 0;
    let mut at: usize = from;
    while at < bytes.len()
        invariant
            text.is_ascii(),
            bytes@ == vstd::utf8::encode_utf8(text@),
            from <= at <= text@.len(),
            bytes@.len() == text@.len(),
            digits == text@.skip(from as int),
            limit <= 0xffff_ffff,
            value <= limit,
            forall|i: int| 0 <= i < at - from ==> is_digit(#[trigger] digits[i]),
            value == number_of(digits.take(at - from)),
        decreases text@.len() - at,
    {
        let byte: u8 = bytes[at];
        assert(byte == text@[at as int] as u8);
        assert(text@[at as int] == digits[at - from]);
        if byte < ASCII_ZERO || byte > ASCII_NINE {
            return None;
        }
        let next: u64 = value * 10 + (byte - ASCII_ZERO) as u64;
        proof {
            assert(digits.take(at - from + 1).drop_last() =~= digits.take(at - from));
            assert(next == number_of(digits.take(at - from + 1)));
            if is_number(digits) {
                lemma_number_grows(digits, at - from + 1);
            }
        }
        if next > limit {
            return None;
        }
        value = next;
        at = at + 1;
    }
    assert(digits.take(at - from) =~= digits);
    if at == from {
        None
    } else {
        Some(value)
    }
}

/// A text of digits, behind a sign or not, is ASCII.
proof fn lemma_number_is_ascii(text: Seq<char>, from: int)
    requires
        from == 0 || (from == 1 && text.len() > 0 && (text[0] == '+' || text[0] == '-')),
        is_number(text.skip(from)),
    ensures
        vstd::utf8::is_ascii_chars(text),
{
    assert forall|i: int| 0 <= i < text.len() implies '\0' <= #[trigger] text[i]
        <= '\u{7f}' by {
        if i >= from {
            assert(is_digit(text.skip(from)[i - from]));
        }
    }
}

/// Reads a `u16` from decimal text.
pub fn parse_u16(text: &str) -> (number: Option<u16>)
    ensures
        number == u16_in(text@),
{
    assert(text@.skip(0) =~= text@);
    if !text.is_ascii() {
        proof {
            if is_number(text@.skip(0)) {
                lemma_number_is_ascii(text@, 0);
            }
            if text@.len() > 0 && text@[0] == '+' && is_number(text@.skip(1)) {
                lemma_number_is_ascii(text@, 1);
            }
        }
        return None;
    }
    let bytes = text.as_bytes();
    let from: usize = if bytes.len() > 0 && bytes[0] == ASCII_PLUS {
        1
    } else {
        0
    };
    match digits_value(text, from, u16::MAX as u64) {
        Some(value) => Some(value as u16),
        None => None,
    }
}

/// Reads an `i32` from decimal text.
pub fn parse_i32(text: &str) -> (number: Option<i32>)
    ensures
        number == i32_in(text@),
{
    assert(text@.skip(0) =~= text@);
    if !text.is_ascii() {
        proof {
            if is_number(text@.skip(0)) {
                lemma_number_is_ascii(text@, 0);
            }
            if text@.len() > 0 && (text@[0] == '+' || text@[0] == '-') && is_number(text@.skip(1)) {
                lemma_number_is_ascii(text@, 1);
            }
        }
        return None;
    }
    let bytes = text.as_bytes();
    if bytes.len() > 0 && bytes[0] == ASCII_MINUS {
        match digits_value(text, 1, 0x8000_0000) {
            Some(value) => Some((-(value as i64)) as i32),
            None => None,
        }
    } else {
        let from: usize = if bytes.len() > 0 && bytes[0] == ASCII_PLUS {
            1
        } else {
            0
        };
        match digits_value(text, from, i32::MAX as u64) {
            Some(value) => Some(value as i32),
            None => None,
        }
    }
}

/// The text of one digit.
fn digit_text(n: u16) -> (text: &'static str)
    requires
        n < 10,
    ensures
        text@ == seq![digit_of(n as nat)],
{
    proof {
        reveal_strlit("0");
        reveal_strlit("1");
        reveal_strlit("2");
        reveal_strlit("3");
        reveal_strlit("4");
        reveal_strlit("5");
        reveal_strlit("6");
        reveal_strlit("7");
        reveal_strlit("8");
        reveal_strlit("9");
    }
    let text: &'static str = match n {
        0 => "0",
        1 => "1",
        2 => "2",
        3 => "3",
        4 => "4",
        5 => "5",
        6 => "6",
        7 => "7",
        8 => "8",
        _ => "9",
    };
    assert(text@ =~= seq![digit_of(n as nat)]);
    text
}

/// Appends `n` in decimal digits.
pub fn push_decimal(out: &mut String, n: u16)
    ensures
        final(out)@ == old(out)@ + decimal(n as nat),
    decreases n,
{
    if n >= 10 {
        push_decimal(out, n / 10);
    }
    out.append(digit_text(n % 10));
    assert(out@ =~= old(out)@ + decimal(n as nat));
}

proof fn lemma_decimal_is_number(n: nat)
    ensures
        is_number(decimal(n)),
        number_of(decimal(n)) == n,
    decreases n,
{
    if n < 10 {
        assert(decimal(n).drop_last() =~= Seq::<char>::empty());
        assert(number_of(decimal(n).drop_last()) == 0);
    } else {
        lemma_decimal_is_number(n / 10);
        assert(decimal(n).drop_last() =~= decimal(n / 10));
    }
}

/// A number that was written out in decimal is read back as it was.
pub proof fn law_decimal_reads_back(n: u16)
    ensures
        u16_in(decimal(n as nat)) == Some(n),
        i32_in(decimal(n as nat)) == Some(n as i32),
{
    lemma_decimal_is_number(n as nat);
    assert(is_digit(decimal(n as nat)[0]));
}

proof fn lemma_pushed_digit(text: Seq<char>, from: int, c: char)
    requires
        0 <= from <= text.len(),
    ensures
        text.push(c).skip(from) == text.skip(from).push(c),
        is_number(text.push(c).skip(from)) <==> (text.len() == from || is_number(text.skip(from)))
            && is_digit(c),
        number_of(text.push(c).skip(from)) == number_of(text.skip(from)) * 10 + (c as nat
            - '0' as nat) as nat,
        number_of(Seq::<char>::empty()) == 0,
{
    let digits = text.skip(from);
    assert(text.push(c).skip(from) =~= digits.push(c));
    assert(digits.push(c).drop_last() =~= digits);
    if (text.len() == from || is_number(digits)) && is_digit(c) {
        assert forall|i: int| 0 <= i < digits.push(c).len() implies is_digit(
            #[trigger] digits.push(c)[i],
        ) by {
            if i < digits.len() {
                assert(is_digit(digits[i]));
            }
        }
    }
    if is_number(digits.push(c)) {
        assert(is_digit(digits.push(c)[digits.len() as int]));
        assert forall|i: int| 0 <= i < digits.len() implies is_digit(#[trigger] digits[i]) by {
            assert(is_digit(digits.push(c)[i]));
        }
    }
}

/// How a `u16` is read, character by character. Nothing stands for no number, nor does a text
/// that ends in anything but a digit. A digit alone or behind a plus sign stands for itself. A
/// digit behind the text of a number makes ten times that number and the digit more, as long as
/// that is at most 65535; behind any other text it makes no number.
pub proof fn law_u16_is_read_digit_by_digit(text: Seq<char>, c: char)
    ensures
        u16_in(Seq::empty()) is None,
        !('0' <= c <= '9') ==> u16_in(text.push(c)) is None,
        '0' <= c <= '9' && (text.len() == 0 || text == seq!['+']) ==> u16_in(text.push(c)) == Some(
            (c as int - 48) as u16,
        ),
        '0' <= c <= '9' && text.len() > 0 && text != seq!['+'] ==> (match u16_in(text) {
            Some(n) => u16_in(text.push(c)) == (if n * 10 + (c as int - 48) <= 65535 {
                Some((n * 10 + (c as int - 48)) as u16)
            } else {
                None
            }),
            None => u16_in(text.push(c)) is None,
        }),
{
    let from: int = if text.push(c)[0] == '+' {
        1
    } else {
        0
    };
    assert(text.push(c).skip(0) =~= text.push(c));
    assert(text.skip(0) =~= text);
    if text.len() == 0 {
        assert(text =~= Seq::<char>::empty());
        lemma_pushed_digit(text, 0, c);
        assert(text.push(c).skip(1) =~= Seq::<char>::empty());
    } else {
        assert(text.push(c)[0] == text[0]);
        lemma_pushed_digit(text, from, c);
        if text.len() == from {
            assert(text =~= seq!['+']);
            assert(text.skip(from) =~= Seq::<char>::empty());
        }
    }
}

/// How an `i32` is read, character by character, as with a `u16`, except that a minus sign may
/// stand in front, where each digit then counts downwards, and that the number lies between
/// -2147483648 and 2147483647.
pub proof fn law_i32_is_read_digit_by_digit(text: Seq<char>, c: char)
    ensures
        i32_in(Seq::empty()) is None,
        !('0' <= c <= '9') ==> i32_in(text.push(c)) is None,
        '0' <= c <= '9' && (text.len() == 0 || text == seq!['+']) ==> i32_in(text.push(c)) == Some(
            (c as int - 48) as i32,
        ),
        '0' <= c <= '9' && text == seq!['-'] ==> i32_in(text.push(c)) == Some(
            (48 - c as int) as i32,
        ),
        '0' <= c <= '9' && text.len() > 0 && text != seq!['+'] && text != seq!['-'] ==> (
        match i32_in(text) {
            Some(n) => {
                let next = if text[0] == '-' {
                    n * 10 - (c as int - 48)
                } else {
                    n * 10 + (c as int - 48)
                };
                i32_in(text.push(c)) == (if -2147483648 <= next <= 2147483647 {
                    Some(next as i32)
                } else {
                    None
                })
            },
            None => i32_in(text.push(c)) is None,
        }),
{
    let from: int = if text.push(c)[0] == '+' || text.push(c)[0] == '-' {
        1
    } else {
        0
    };
    assert(text.push(c).skip(0) =~= text.push(c));
    assert(text.skip(0) =~= text);
    if text.len() == 0 {
        assert(text =~= Seq::<char>::empty());
        lemma_pushed_digit(text, 0, c);
        assert(text.push(c).skip(1) =~= Seq::<char>::empty());
    } else {
        assert(text.push(c)[0] == text[0]);
        lemma_pushed_digit(text, from, c);
        if text.len() == from {
            assert(text =~= seq![text[0]]);
            assert(text.skip(from) =~= Seq::<char>::empty());
        }
    }
}

/// A number is written out in nothing but decimal digits, at least one, and the first of several
/// is no zero.
pub proof fn law_decimal_has_no_leading_zero(n: nat)
    ensures
        decimal(n).len() > 0,
        forall|i: int| 0 <= i < decimal(n).len() ==> '0' <= #[trigger] decimal(n)[i] <= '9',
        decimal(n).len() > 1 ==> decimal(n)[0] != '0',
        n > 0 ==> decimal(n)[0] != '0',
    decreases n,
{
    if n >= 10 {
        law_decimal_has_no_leading_zero(n / 10);
        assert forall|i: int| 0 <= i < decimal(n).len() implies '0' <= #[trigger] decimal(n)[i]
            <= '9' by {
            if i < decimal(n / 10).len() {
                assert(decimal(n)[i] == decimal(n / 10)[i]);
            }
        }
        assert(decimal(n)[0] == decimal(n / 10)[0]);
    }
}

} // verus!
