//! Whole numbers written in decimal digits.

use crate::text::{to_chars, to_text};
use vstd::prelude::*;

verus! {

/// Whether a character is one of `0` to `9`.
pub open spec fn is_digit(c: char) -> bool {
    '0' <= c <= '9'
}

/// The value of a digit.
pub open spec fn digit_value(c: char) -> nat
    recommends
        is_digit(c),
{
    (c as u32 - '0' as u32) as nat
}

/// Whether every character is a digit.
pub open spec fn all_digits(text: Seq<char>) -> bool {
    forall|i: int| 0 <= i < text.len() ==> is_digit(#[trigger] text[i])
}

/// The number that a run of digits writes; the empty run writes zero.
pub open spec fn number(digits: Seq<char>) -> nat
    decreases digits.len(),
{
    if digits.len() == 0 {
        0
    } else {
        number(digits.drop_last()) * 10 + digit_value(digits.last())
    }
}

/// The number that `digits` writes, where it is a run of at least one digit
/// and no more than `limit`.
pub open spec fn bounded_number(digits: Seq<char>, limit: nat) -> Option<nat> {
    if digits.len() > 0 && all_digits(digits) && number(digits) <= limit {
        Some(number(digits))
    } else {
        None
    }
}

/// The unsigned 64-bit number that a text writes: digits, with or without a
/// `+` before them, and nothing else.
pub open spec fn parsed_u64(text: Seq<char>) -> Option<u64> {
    let digits = if text.len() > 0 && text[0] == '+' {
        text.drop_first()
    } else {
        text
    };
    match bounded_number(digits, u64::MAX as nat) {
        Some(n) => Some(n as u64),
        None => None,
    }
}

/// The signed 16-bit number that a text writes: digits, with or without a
/// `+` or a `-` before them, and nothing else.
pub open spec fn parsed_i16(text: Seq<char>) -> Option<i16> {
    if text.len() > 0 && text[0] == '-' {
        match bounded_number(text.drop_first(), 32768) {
            Some(n) => Some((0 - n) as i16),
            None => None,
        }
    } else {
        let digits = if text.len() > 0 && text[0] == '+' {
            text.drop_first()
        } else {
            text
        };
        match bounded_number(digits, 32767) {
            Some(n) => Some(n as i16),
            None => None,
        }
    }
}

/// A run of digits writes at least what any of its beginnings writes.
pub proof fn lemma_number_grows(digits: Seq<char>, upto: int)
    requires
        0 <= upto <= digits.len(),
    ensures
        number(digits.take(upto)) <= number(digits),
    decreases digits.len(),
{
    if upto == digits.len() {
        assert(digits.take(upto) =~= digits);
    } else {
        lemma_number_grows(digits.drop_last(), upto);
        assert(digits.drop_last().take(upto) =~= digits.take(upto));
    }
}

/// Reads the digits of `text` from index `from` on.
fn read_digits(text: &[char], from: usize, limit: u64) -> (value: Option<u64>)
    requires
        from <= text@.len(),
    ensures
        value == match bounded_number(
            text@.subrange(from as int, text@.len() as int),
            limit as nat,
        ) {
            Some(n) => Some(n as u64),
            None => None,
        },
{
    let ghost digits = text@.subrange(from as int, text@.len() as int);
    if from == text.len() {
        return None;
    }
    let mut total: u64 = 0;
    let mut i: usize = from;
    while i < text.len()
        invariant
            from <= i <= text@.len(),
            digits == text@.subrange(from as int, text@.len() as int),
            all_digits(digits.take(i - from)),
            total == number(digits.take(i - from)),
            total <= limit,
        decreases text@.len() - i,
    {
        let c = text[i];
        assert(c == digits[i - from]);
        if c < '0' || c > '9' {
            return None;
        }
        let d: u64 = (c as u32 - '0' as u32) as u64;
        assert(digits.take(i - from + 1).drop_last() =~= digits.take(i - from));
        assert(number(digits.take(i - from + 1)) == total * 10 + d);
        if total > limit / 10 || d > limit - total * 10 {
            proof {
                lemma_number_grows(digits, i - from + 1);
            }
            return None;
        }
        total = total * 10 + d;
        i += 1;
    }
    assert(digits.take(i - from) =~= digits);
    Some(total)
}

/// Reads an unsigned 64-bit number.
pub fn parse_u64(text: &[char]) -> (value: Option<u64>)
    ensures
        value == parsed_u64(text@),
{
    let from: usize = if text.len() > 0 && text[0] == '+' {
        1
    } else {
        0
    };
    assert(text@.subrange(0, text@.len() as int) =~= text@);
    assert(text@.len() > 0 ==> text@.subrange(1, text@.len() as int) =~= text@.drop_first());
    read_digits(text, from, u64::MAX)
}

/// Reads a signed 16-bit number.
pub fn parse_i16(text: &[char]) -> (value: Option<i16>)
    ensures
        value == parsed_i16(text@),
{
    assert(text@.subrange(0, text@.len() as int) =~= text@);
    assert(text@.len() > 0 ==> text@.subrange(1, text@.len() as int) =~= text@.drop_first());
    if text.len() > 0 && text[0] == '-' {
        match read_digits(text, 1, 32768) {
            Some(n) => Some((0 - n as i32) as i16),
            None => None,
        }
    } else {
        let from: usize = if text.len() > 0 && text[0] == '+' {
            1
        } else {
            0
        };
        match read_digits(text, from, 32767) {
            Some(n) => Some(n as i16),
            None => None,
        }
    }
}

/// The digit that writes a value below ten.
pub open spec fn digit_char(d: nat) -> char
    recommends
        d < 10,
{
    if d == 0 {
        '0'
    } else if d == 1 {
        '1'
    } else if d == 2 {
        '2'
    } else if d == 3 {
        '3'
    } else if d == 4 {
        '4'
    } else if d == 5 {
        '5'
    } else if d == 6 {
        '6'
    } else if d == 7 {
        '7'
    } else if d == 8 {
        '8'
    } else {
        '9'
    }
}

/// A number written in decimal digits, without leading zeros.
pub open spec fn decimal(n: nat) -> Seq<char>
    decreases n,
{
    if n < 10 {
        seq![digit_char(n)]
    } else {
        decimal(n / 10).push(digit_char(n % 10))
    }
}

fn digit(d: u64) -> (c: char)
    requires
        d < 10,
    ensures
        c == digit_char(d as nat),
{
    if d == 0 {
        '0'
    } else if d == 1 {
        '1'
    } else if d == 2 {
        '2'
    } else if d == 3 {
        '3'
    } else if d == 4 {
        '4'
    } else if d == 5 {
        '5'
    } else if d == 6 {
        '6'
    } else if d == 7 {
        '7'
    } else if d == 8 {
        '8'
    } else {
        '9'
    }
}

/// Appends a number in decimal digits.
pub fn push_decimal(out: &mut Vec<char>, n: u64)
    ensures
        final(out)@ == old(out)@ + decimal(n as nat),
    decreases n,
{
    if n >= 10 {
        push_decimal(out, n / 10);
    }
    out.push(digit(n % 10));
    assert(out@ =~= old(out)@ + decimal(n as nat));
}

/// A text followed by a number in decimal digits.
pub fn numbered(prefix: &str, n: u64) -> (text: String)
    ensures
        text@ == prefix@ + decimal(n as nat),
{
    let mut chars = to_chars(prefix);
    push_decimal(&mut chars, n);
    to_text(chars.as_slice())
}

/// What is written is read back: the decimal digits of a number write
/// that number.
pub proof fn lemma_decimal_reads_back(n: nat)
    ensures
        decimal(n).len() > 0,
        all_digits(decimal(n)),
        number(decimal(n)) == n,
    decreases n,
{
    if n < 10 {
        assert(decimal(n).drop_last() =~= Seq::<char>::empty());
        assert(number(decimal(n).drop_last()) == 0);
    } else {
        lemma_decimal_reads_back(n / 10);
        assert(decimal(n).drop_last() =~= decimal(n / 10));
    }
}

/// The index at which the run of digits that starts at `from` ends.
pub open spec fn run_end(text: Seq<char>, from: int) -> int
    decreases text.len() - from,
{
    if 0 <= from < text.len() && is_digit(text[from]) {
        run_end(text, from + 1)
    } else {
        from
    }
}

/// Whether `c` is the letter `lower` in either case.
pub open spec fn is_letter(c: char, lower: char, upper: char) -> bool {
    c == lower || c == upper
}

/// Whether `body` spells one of the words `inf`, `infinity` and `nan`, in
/// any mix of cases.
pub open spec fn is_special(body: Seq<char>) -> bool {
    ||| (body.len() == 3 && is_letter(body[0], 'n', 'N') && is_letter(body[1], 'a', 'A')
        && is_letter(body[2], 'n', 'N'))
    ||| ((body.len() == 3 || body.len() == 8) && is_letter(body[0], 'i', 'I') && is_letter(
        body[1],
        'n',
        'N',
    ) && is_letter(body[2], 'f', 'F') && (body.len() == 8 ==> is_letter(body[3], 'i', 'I')
        && is_letter(body[4], 'n', 'N') && is_letter(body[5], 'i', 'I') && is_letter(
        body[6],
        't',
        'T',
    ) && is_letter(body[7], 'y', 'Y')))
}

/// Whether `body` holds, from index `at` to its end, an exponent: `e` or
/// `E`, a sign or none, and at least one digit.
pub open spec fn is_exponent(body: Seq<char>, at: int) -> bool {
    &&& 0 <= at < body.len()
    &&& is_letter(body[at], 'e', 'E')
    &&& {
        let digits_from = if at + 1 < body.len() && (body[at + 1] == '+' || body[at + 1] == '-') {
            at + 2
        } else {
            at + 1
        };
        digits_from < body.len() && run_end(body, digits_from) == body.len()
    }
}

/// Whether `body` is digits with at most one point among them, at least one
/// digit in all, and after them an exponent or nothing.
pub open spec fn is_number(body: Seq<char>) -> bool {
    let whole_end = run_end(body, 0);
    let pointed = whole_end < body.len() && body[whole_end] == '.';
    let mantissa_end = if pointed {
        run_end(body, whole_end + 1)
    } else {
        whole_end
    };
    let digits = if pointed {
        mantissa_end - 1
    } else {
        mantissa_end
    };
    digits > 0 && (mantissa_end == body.len() || is_exponent(body, mantissa_end))
}

/// Whether a text writes a number with a fraction in the form that the
/// standard library reads: a sign or none, then either one of the words for
/// infinity and not-a-number or digits with an optional point and exponent.
pub open spec fn is_decimal_literal(text: Seq<char>) -> bool {
    let body = if text.len() > 0 && (text[0] == '+' || text[0] == '-') {
        text.drop_first()
    } else {
        text
    };
    is_special(body) || is_number(body)
}

fn letter(c: char, lower: char, upper: char) -> (answer: bool)
    ensures
        answer == is_letter(c, lower, upper),
{
    c == lower || c == upper
}

fn skip_digits(text: &[char], from: usize) -> (end: usize)
    requires
        from <= text@.len(),
    ensures
        end == run_end(text@, from as int),
        from <= end <= text@.len(),
{
    let mut end: usize = from;
    while end < text.len() && text[end] >= '0' && text[end] <= '9'
        invariant
            from <= end <= text@.len(),
            run_end(text@, from as int) == run_end(text@, end as int),
        decreases text@.len() - end,
    {
        end += 1;
    }
    end
}

fn special_at(text: &[char], from: usize) -> (answer: bool)
    requires
        from <= text@.len(),
    ensures
        answer == is_special(text@.subrange(from as int, text@.len() as int)),
{
    let ghost body = text@.subrange(from as int, text@.len() as int);
    let n: usize = text.len() - from;
    if n != 3 && n != 8 {
        return false;
    }
    assert(forall|i: int| 0 <= i < n ==> body[i] == text@[from + i]);
    let nan = n == 3 && letter(text[from], 'n', 'N') && letter(text[from + 1], 'a', 'A') && letter(
        text[from + 2],
        'n',
        'N',
    );
    let inf = letter(text[from], 'i', 'I') && letter(text[from + 1], 'n', 'N') && letter(
        text[from + 2],
        'f',
        'F',
    );
    let inity = n == 3 || (letter(text[from + 3], 'i', 'I') && letter(text[from + 4], 'n', 'N')
        && letter(text[from + 5], 'i', 'I') && letter(text[from + 6], 't', 'T') && letter(
        text[from + 7],
        'y',
        'Y',
    ));
    nan || (inf && inity)
}

proof fn lemma_run_end_shift(text: Seq<char>, from: int, at: int)
    requires
        0 <= from <= at <= text.len(),
    ensures
        run_end(text.subrange(from, text.len() as int), at - from) + from == run_end(text, at),
    decreases text.len() - at,
{
    let body = text.subrange(from, text.len() as int);
    if at < text.len() && is_digit(text[at]) {
        assert(body[at - from] == text[at]);
        lemma_run_end_shift(text, from, at + 1);
    }
}

fn number_at(text: &[char], from: usize) -> (answer: bool)
    requires
        from <= text@.len(),
    ensures
        answer == is_number(text@.subrange(from as int, text@.len() as int)),
{
    let ghost body = text@.subrange(from as int, text@.len() as int);
    let len: usize = text.len();
    assert(forall|i: int| 0 <= i < len - from ==> body[i] == text@[from + i]);
    let whole_end = skip_digits(text, from);
    proof {
        lemma_run_end_shift(text@, from as int, from as int);
    }
    let pointed = whole_end < len && text[whole_end] == '.';
    let mantissa_end = if pointed {
        proof {
            lemma_run_end_shift(text@, from as int, whole_end + 1);
        }
        skip_digits(text, whole_end + 1)
    } else {
        whole_end
    };
    let digits: usize = if pointed {
        mantissa_end - from - 1
    } else {
        mantissa_end - from
    };
    if digits == 0 {
        return false;
    }
    if mantissa_end == len {
        return true;
    }
    if !letter(text[mantissa_end], 'e', 'E') {
        return false;
    }
    let digits_from: usize = if mantissa_end + 1 < len && (text[mantissa_end + 1] == '+'
        || text[mantissa_end + 1] == '-') {
        mantissa_end + 2
    } else {
        mantissa_end + 1
    };
    if digits_from >= len {
        return false;
    }
    proof {
        lemma_run_end_shift(text@, from as int, digits_from as int);
    }
    skip_digits(text, digits_from) == len
}

/// Tells whether a text writes a number with a fraction.
pub fn is_decimal(text: &[char]) -> (answer: bool)
    ensures
        answer == is_decimal_literal(text@),
{
    let from: usize = if text.len() > 0 && (text[0] == '+' || text[0] == '-') {
        1
    } else {
        0
    };
    assert(text@.subrange(0, text@.len() as int) =~= text@);
    assert(text@.len() > 0 ==> text@.subrange(1, text@.len() as int) =~= text@.drop_first());
    special_at(text, from) || number_at(text, from)
}

} // verus!
