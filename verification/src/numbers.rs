//! Numbers as text: decimal and hexadecimal notation, and reading a decimal.

use vstd::prelude::*;

use crate::text::{digit, is_digit, to_chars};

verus! {

/// The character of a digit below ten.
pub open spec fn digit_char(d: nat) -> char {
    (48 + d) as char
}

/// The decimal notation of a number.
pub open spec fn decimal(n: nat) -> Seq<char>
    decreases n,
{
    if n < 10 {
        seq![digit_char(n)]
    } else {
        decimal(n / 10).push(digit_char(n % 10))
    }
}

/// Appends the decimal notation of `n`.
pub fn push_decimal(out: &mut String, n: u64)
    ensures
        final(out)@ == old(out)@ + decimal(n as nat),
    decreases n,
{
    if n < 10 {
        out.push((48 + n as u8) as char);
        assert(out@ =~= old(out)@ + decimal(n as nat));
    } else {
        push_decimal(out, n / 10);
        let ghost before = out@;
        out.push((48 + (n % 10) as u8) as char);
        assert(out@ =~= old(out)@ + decimal(n as nat));
    }
}

/// The character of a digit below sixteen, with letters in lower case or in
/// upper case.
pub open spec fn hex_char(d: nat, capital: bool) -> char {
    if d < 10 {
        (48 + d) as char
    } else if capital {
        (55 + d) as char
    } else {
        (87 + d) as char
    }
}

/// The `width` lowest hexadecimal digits of a number.
pub open spec fn hex(n: nat, width: nat, capital: bool) -> Seq<char>
    decreases width,
{
    if width == 0 {
        Seq::empty()
    } else {
        hex(n / 16, (width - 1) as nat, capital).push(hex_char(n % 16, capital))
    }
}

/// Appends the `width` lowest hexadecimal digits of `n`.
pub fn push_hex(out: &mut String, n: u64, width: usize, capital: bool)
    ensures
        final(out)@ == old(out)@ + hex(n as nat, width as nat, capital),
    decreases width,
{
    if width > 0 {
        push_hex(out, n / 16, width - 1, capital);
        let d: u8 = (n % 16) as u8;
        let c = if d < 10 {
            (48 + d) as char
        } else if capital {
            (55 + d) as char
        } else {
            (87 + d) as char
        };
        out.push(c);
    }
    assert(out@ =~= old(out)@ + hex(n as nat, width as nat, capital));
}

/// The text consists of decimal digits.
pub open spec fn all_digits(s: Seq<char>) -> bool {
    forall|i: int| 0 <= i < s.len() ==> is_digit(#[trigger] s[i])
}

/// The number that a sequence of decimal digits stands for.
pub open spec fn decimal_value(s: Seq<char>) -> nat
    decreases s.len(),
{
    if s.len() == 0 {
        0
    } else {
        (10 * decimal_value(s.drop_last()) + (s.last() as int - 48)) as nat
    }
}

/// The digits after a plus sign, where there is one.
pub open spec fn unsigned(s: Seq<char>) -> Seq<char> {
    if s.len() > 0 && s[0] == '+' {
        s.skip(1)
    } else {
        s
    }
}

/// The number that the text denotes: digits, at least one, after an optional
/// plus sign, and a value that 32 bits can hold.
pub open spec fn number_in(s: Seq<char>) -> Option<u32> {
    let digits = unsigned(s);
    if digits.len() > 0 && all_digits(digits) && decimal_value(digits) <= u32::MAX {
        Some(decimal_value(digits) as u32)
    } else {
        None
    }
}

proof fn lemma_value_grows(s: Seq<char>, n: int)
    requires
        all_digits(s),
        0 <= n <= s.len(),
    ensures
        decimal_value(s.take(n)) <= decimal_value(s),
    decreases s.len() - n,
{
    if n < s.len() {
        lemma_value_grows(s, n + 1);
        assert(s.take(n + 1).drop_last() =~= s.take(n));
        assert(is_digit(s[n]));
    } else {
        assert(s.take(n) =~= s);
    }
}

/// Reads a decimal number that fits 32 bits.
pub fn parse_number(s: &str) -> (r: Option<u32>)
    ensures
        r == number_in(s@),
{
    let v = to_chars(s);
    let from: usize = if v.len() > 0 && v[0] == '+' {
        1
    } else {
        0
    };
    let ghost digits = unsigned(s@);
    assert(digits =~= v@.skip(from as int));
    if from == v.len() {
        return None;
    }
    let mut i: usize = from;
    let mut n: u32 = 0;
    assert(digits.take(0) =~= Seq::empty());
    while i < v.len()
        invariant
            from <= i <= v.len(),
            digits == v@.skip(from as int),
            digits == unsigned(s@),
            all_digits(digits.take(i - from)),
            n == decimal_value(digits.take(i - from)),
        decreases v.len() - i,
    {
        let c = v[i];
        assert(digits[i - from] == c);
        if !digit(c) {
            return None;
        }
        let d: u32 = c as u32 - 48;
        assert(digits.take(i + 1 - from).drop_last() =~= digits.take(i - from));
        assert forall|k: int| 0 <= k < i + 1 - from implies is_digit(
            #[trigger] digits.take(i + 1 - from)[k],
        ) by {
            if k < i - from {
                assert(digits.take(i - from)[k] == digits[k]);
            }
        }
        if n > (u32::MAX - d) / 10 {
            proof {
                assert(decimal_value(digits.take(i + 1 - from)) > u32::MAX);
                if all_digits(digits) {
                    lemma_value_grows(digits, i + 1 - from);
                }
            }
            return None;
        }
        n = n * 10 + d;
        i += 1;
    }
    assert(digits.take(i - from) =~= digits);
    Some(n)
}

/// Reading the decimal notation of a 32-bit number gives the number back.
pub proof fn law_decimal_reads_back(n: u32)
    ensures
        number_in(decimal(n as nat)) == Some(n),
{
    lemma_decimal(n as nat);
}

proof fn lemma_decimal(n: nat)
    ensures
        decimal(n).len() > 0,
        all_digits(decimal(n)),
        decimal_value(decimal(n)) == n,
        decimal(n)[0] != '+',
    decreases n,
{
    if n < 10 {
        assert(decimal(n).drop_last() =~= Seq::empty());
        assert(decimal_value(Seq::empty()) == 0);
    } else {
        lemma_decimal(n / 10);
        assert(decimal(n).drop_last() =~= decimal(n / 10));
        assert forall|i: int| 0 <= i < decimal(n).len() implies is_digit(
            #[trigger] decimal(n)[i],
        ) by {
            if i < decimal(n / 10).len() {
                assert(decimal(n)[i] == decimal(n / 10)[i]);
            }
        }
        assert(decimal(n)[0] == decimal(n / 10)[0]);
    }
}

/// A number is written digit by digit, the highest first: a digit behind those of
/// a number makes ten times that number and the digit.
pub proof fn law_decimals_are_written_digit_by_digit(n: nat, d: nat)
    requires
        d < 10,
    ensures
        decimal(d) == seq![('0' as int + d) as char],
        n > 0 ==> decimal(10 * n + d) == decimal(n).push(('0' as int + d) as char),
{
    assert((10 * n + d) / 10 == n && (10 * n + d) % 10 == d);
}

/// Hexadecimal digits are written the highest first, as many as are asked for.
pub proof fn law_hex_is_written_digit_by_digit(n: nat, d: nat, width: nat, capital: bool)
    requires
        d < 16,
    ensures
        hex(n, 0, capital).len() == 0,
        hex(16 * n + d, width + 1, capital) == hex(n, width, capital).push(
            if d < 10 {
                ('0' as int + d) as char
            } else if capital {
                ('A' as int + (d - 10)) as char
            } else {
                ('a' as int + (d - 10)) as char
            },
        ),
{
    assert((16 * n + d) / 16 == n && (16 * n + d) % 16 == d);
}

} // verus!
