//! Decimal and hexadecimal numerals, read and written.

use vstd::prelude::*;
use crate::text::chars_of;

verus! {

pub open spec fn is_digit(c: char) -> bool {
    '0' <= c <= '9'
}

pub open spec fn digit_value(c: char) -> int {
    c as int - '0' as int
}

/// A non-empty run of decimal digits.
pub open spec fn all_digits(s: Seq<char>) -> bool {
    s.len() > 0 && forall|i: int| 0 <= i < s.len() ==> is_digit(#[trigger] s[i])
}

/// The number a run of decimal digits stands for.
pub open spec fn decimal_value(s: Seq<char>) -> int
    decreases s.len(),
{
    if s.len() == 0 {
        0
    } else {
        decimal_value(s.drop_last()) * 10 + digit_value(s.last())
    }
}

pub open spec fn has_sign(s: Seq<char>) -> bool {
    s.len() > 0 && (s[0] == '-' || s[0] == '+')
}

/// `s` without a leading sign.
pub open spec fn unsigned(s: Seq<char>) -> Seq<char> {
    if has_sign(s) {
        s.skip(1)
    } else {
        s
    }
}

/// The integer a decimal numeral with an optional sign stands for.
pub open spec fn int_value(s: Seq<char>) -> Option<int> {
    if all_digits(unsigned(s)) {
        let m = decimal_value(unsigned(s));
        Some(
            if s[0] == '-' {
                -m
            } else {
                m
            },
        )
    } else {
        None
    }
}

/// The `i32` a numeral stands for, when it is one and the number fits.
pub open spec fn i32_value(s: Seq<char>) -> Option<i32> {
    match int_value(s) {
        Some(n) => if i32::MIN <= n <= i32::MAX {
            Some(n as i32)
        } else {
            None
        },
        None => None,
    }
}

proof fn decimal_value_nonneg(s: Seq<char>)
    requires
        forall|i: int| 0 <= i < s.len() ==> is_digit(#[trigger] s[i]),
    ensures
        decimal_value(s) >= 0,
    decreases s.len(),
{
    if s.len() > 0 {
        decimal_value_nonneg(s.drop_last());
    }
}

/// More digits never make a numeral smaller.
proof fn decimal_value_grows(s: Seq<char>, k: int)
    requires
        forall|i: int| 0 <= i < s.len() ==> is_digit(#[trigger] s[i]),
        0 <= k <= s.len(),
    ensures
        decimal_value(s.take(k)) <= decimal_value(s),
    decreases s.len() - k,
{
    if k == s.len() {
        assert(s.take(k) =~= s);
    } else {
        assert(s.take(k + 1).drop_last() =~= s.take(k));
        decimal_value_nonneg(s.take(k));
        decimal_value_grows(s, k + 1);
    }
}

/// Reads a decimal numeral with an optional sign; `None` when the text is not
/// one or the number does not fit.
pub fn parse_i32(s: &str) -> (r: Option<i32>)
    ensures
        r == i32_value(s@),
{
    let v: Vec<char> = chars_of(s);
    if v.len() == 0 {
        return None;
    }
    let negative: bool = v[0] == '-';
    let start: usize = if v[0] == '-' || v[0] == '+' {
        1
    } else {
        0
    };
    let ghost body = unsigned(s@);
    assert(body =~= v@.skip(start as int));
    if start == v.len() {
        return None;
    }
    let mut acc: i64 = 0;
    let mut i: usize = start;
    assert(body.take(0) =~= Seq::<char>::empty());
    while i < v.len()
        invariant
            start <= i <= v@.len(),
            v@ == s@,
            v@.len() > 0,
            body == v@.skip(start as int),
            body == unsigned(s@),
            forall|j: int| 0 <= j < i - start ==> is_digit(#[trigger] body[j]),
            acc == decimal_value(body.take(i - start)),
            0 <= acc <= 2147483648,
        decreases v@.len() - i,
    {
        let c: char = v[i];
        if c < '0' || c > '9' {
            assert(!is_digit(body[i - start]));
            return None;
        }
        let d: i64 = (c as u32 - '0' as u32) as i64;
        assert(body.take(i - start + 1).drop_last() =~= body.take(i - start));
        assert(body[i - start] == c);
        acc = acc * 10 + d;
        if acc > 2147483648 {
            proof {
                if all_digits(body) {
                    decimal_value_grows(body, i - start + 1);
                }
            }
            return None;
        }
        i = i + 1;
    }
    assert(body.take(i - start) =~= body);
    assert(all_digits(body));
    if negative {
        Some((-acc) as i32)
    } else if acc <= 2147483647 {
        Some(acc as i32)
    } else {
        None
    }
}

/// The decimal numeral of a number, without leading zeros.
pub open spec fn numeral(n: nat) -> Seq<char>
    decreases n,
{
    let d = ('0' as u32 + n % 10) as u32 as char;
    if n < 10 {
        seq![d]
    } else {
        numeral(n / 10).push(d)
    }
}

pub fn to_decimal(n: usize) -> (s: String)
    ensures
        s@ == numeral(n as nat),
    decreases n,
{
    let d: char = ((n % 10) as u8 + 48) as char;
    let mut s: String = if n < 10 {
        String::new()
    } else {
        to_decimal(n / 10)
    };
    s.push(d);
    assert(s@ =~= numeral(n as nat));
    s
}

/// A numeral reads back as the number it was written from.
pub proof fn numeral_reads_back(n: nat)
    ensures
        all_digits(numeral(n)),
        decimal_value(numeral(n)) == n,
    decreases n,
{
    let d = ('0' as u32 + n % 10) as u32 as char;
    assert(is_digit(d));
    if n < 10 {
        assert(numeral(n).drop_last() =~= Seq::<char>::empty());
        assert(decimal_value(Seq::<char>::empty()) == 0);
        assert(numeral(n).last() == d);
        assert(decimal_value(numeral(n)) == digit_value(d));
    } else {
        numeral_reads_back(n / 10);
        assert(numeral(n).drop_last() =~= numeral(n / 10));
        assert(numeral(n).last() == d);
        assert forall|i: int| 0 <= i < numeral(n).len() implies is_digit(
            #[trigger] numeral(n)[i],
        ) by {
            if i < numeral(n).len() - 1 {
                assert(numeral(n)[i] == numeral(n / 10)[i]);
            }
        }
    }
}

/// The value of one hexadecimal digit, of either case.
pub open spec fn hex_digit(c: char) -> Option<int> {
    if '0' <= c <= '9' {
        Some(c as int - '0' as int)
    } else if 'a' <= c <= 'f' {
        Some(c as int - 'a' as int + 10)
    } else if 'A' <= c <= 'F' {
        Some(c as int - 'A' as int + 10)
    } else {
        None
    }
}

/// The byte two characters stand for: two hexadecimal digits, or a plus sign
/// and one digit.
pub open spec fn hex_byte(hi: char, lo: char) -> Option<u8> {
    match (hex_digit(hi), hex_digit(lo)) {
        (Some(h), Some(l)) => Some((h * 16 + l) as u8),
        (None, Some(l)) => if hi == '+' {
            Some(l as u8)
        } else {
            None
        },
        _ => None,
    }
}

fn hex_digit_of(c: char) -> (r: Option<u8>)
    ensures
        match r {
            Some(d) => hex_digit(c) == Some(d as int) && d < 16,
            None => hex_digit(c) is None,
        },
{
    if '0' <= c && c <= '9' {
        Some(c as u8 - 48)
    } else if 'a' <= c && c <= 'f' {
        Some(c as u8 - 97 + 10)
    } else if 'A' <= c && c <= 'F' {
        Some(c as u8 - 65 + 10)
    } else {
        None
    }
}

pub fn parse_hex_byte(hi: char, lo: char) -> (r: Option<u8>)
    ensures
        r == hex_byte(hi, lo),
{
    match (hex_digit_of(hi), hex_digit_of(lo)) {
        (Some(h), Some(l)) => Some(h * 16 + l),
        (None, Some(l)) => if hi == '+' {
            Some(l)
        } else {
            None
        },
        _ => None,
    }
}

// ---------------------------------------------------------------- laws

/// A further digit makes ten times the number and the digit; no digits make
/// nothing, and the digits go from 0 to 9.
pub proof fn numerals_are_decimal(s: Seq<char>, c: char)
    ensures
        decimal_value(Seq::empty()) == 0,
        decimal_value(s.push(c)) == 10 * decimal_value(s) + (c as int - 48),
        is_digit(c) <==> 48 <= c as int <= 57,
{
    assert(s.push(c).drop_last() =~= s);
}

/// A numeral in the range of an `i32` reads as its number, with a sign or
/// without; one beyond the range does not, and neither does a text with anything
/// but digits behind its sign.
pub proof fn numerals_read_as_their_number(n: nat, s: Seq<char>, i: int)
    ensures
        n <= i32::MAX ==> i32_value(numeral(n)) == Some(n as i32) && i32_value(
            seq!['+'] + numeral(n),
        ) == Some(n as i32),
        n <= i32::MAX + 1 ==> i32_value(seq!['-'] + numeral(n)) == Some((-n) as i32),
        n > i32::MAX ==> i32_value(numeral(n)) is None,
        n > i32::MAX + 1 ==> i32_value(seq!['-'] + numeral(n)) is None,
        i32_value(Seq::empty()) is None,
        0 <= i < s.len() && !is_digit(s[i]) && (i > 0 || (s[0] != '-' && s[0] != '+'))
            ==> i32_value(s) is None,
{
    numeral_reads_back(n);
    let d = numeral(n);
    assert(is_digit(d[0]));
    let p = seq!['+'] + d;
    let m = seq!['-'] + d;
    assert(p.skip(1) =~= d);
    assert(m.skip(1) =~= d);
    if 0 <= i < s.len() && !is_digit(s[i]) && (i > 0 || (s[0] != '-' && s[0] != '+')) {
        let u = unsigned(s);
        if has_sign(s) {
            assert(u[i - 1] == s[i]);
        } else {
            assert(u[i] == s[i]);
        }
    }
}

/// Two hexadecimal digits of either case are sixteen times the first and the
/// second.
pub proof fn hexadecimal_digits_make_a_byte(hi: char, lo: char)
    ensures
        '0' <= hi <= '9' ==> hex_digit(hi) == Some(hi as int - 48),
        'a' <= hi <= 'f' ==> hex_digit(hi) == Some(hi as int - 87),
        'A' <= hi <= 'F' ==> hex_digit(hi) == Some(hi as int - 55),
        !('0' <= hi <= '9') && !('a' <= hi <= 'f') && !('A' <= hi <= 'F') ==> hex_digit(hi) is None,
        hex_digit(hi) is Some && hex_digit(lo) is Some ==> hex_byte(hi, lo) is Some && hex_byte(
            hi,
            lo,
        )->0 == 16 * hex_digit(hi)->0 + hex_digit(lo)->0,
        hex_digit(lo) is None ==> hex_byte(hi, lo) is None,
        hex_digit(hi) is None && hi != '+' ==> hex_byte(hi, lo) is None,
{
}

} // verus!
