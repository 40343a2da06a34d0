//! Real-valued settings, kept as the decimal literal they were written as.
//!
//! A literal is checked against the grammar of floating-point literals and
//! compared exactly with the few bounds the settings have, so that nothing is
//! rounded before the value is finally used.

use vstd::prelude::*;
use crate::numerals::{all_digits, decimal_value, digit_value, int_value, is_digit, unsigned};
use crate::text::{
    ascii_lowercased, chars_of, copy_of, find_char, first_index, first_index_is, same, string_of,
    to_ascii_lowercase,
};

verus! {

/// What a literal says: not a number, an infinity, or the sign, the digits
/// and the power of ten of `digits * 10^scale`.
pub enum Literal {
    Nan,
    Infinite { negative: bool },
    Finite { negative: bool, digits: Seq<char>, scale: int },
}

/// The position of the exponent mark in an unsigned literal, or its length.
pub open spec fn exponent_mark(u: Seq<char>) -> int {
    let a = first_index(u, 'e');
    let b = first_index(u, 'E');
    if a <= b {
        a
    } else {
        b
    }
}

pub open spec fn only_digits(s: Seq<char>) -> bool {
    forall|i: int| 0 <= i < s.len() ==> is_digit(#[trigger] s[i])
}

/// The digits of a mantissa, without its point.
pub open spec fn mantissa_digits(m: Seq<char>) -> Seq<char> {
    let d = first_index(m, '.');
    if d < m.len() {
        m.take(d) + m.skip(d + 1)
    } else {
        m
    }
}

/// How many digits of a mantissa stand behind its point.
pub open spec fn fraction_len(m: Seq<char>) -> int {
    let d = first_index(m, '.');
    if d < m.len() {
        m.len() - d - 1
    } else {
        0
    }
}

/// The exponent part of an unsigned literal, zero when it has none.
pub open spec fn exponent_of(u: Seq<char>) -> Option<int> {
    let k = exponent_mark(u);
    if k < u.len() {
        int_value(u.skip(k + 1))
    } else {
        Some(0)
    }
}

/// The literal that a text is, when it is one: an optional sign, then `inf`,
/// `infinity` or `nan` in any case, or digits with an optional point among or
/// around them and an optional exponent.
pub open spec fn literal_of(s: Seq<char>) -> Option<Literal> {
    let negative = s.len() > 0 && s[0] == '-';
    let u = unsigned(s);
    let word = ascii_lowercased(u);
    if word == "nan"@ {
        Some(Literal::Nan)
    } else if word == "inf"@ || word == "infinity"@ {
        Some(Literal::Infinite { negative })
    } else {
        let m = u.take(exponent_mark(u));
        let digits = mantissa_digits(m);
        if digits.len() > 0 && only_digits(digits) && exponent_of(u) is Some {
            Some(
                Literal::Finite {
                    negative,
                    digits,
                    scale: exponent_of(u)->0 - fraction_len(m),
                },
            )
        } else {
            None
        }
    }
}

pub open spec fn pow10(n: nat) -> int
    decreases n,
{
    if n == 0 {
        1
    } else {
        10 * pow10((n - 1) as nat)
    }
}

/// `digits * 10^scale >= 10^k`.
pub open spec fn magnitude_reaches(digits: Seq<char>, scale: int, k: int) -> bool {
    if scale >= k {
        decimal_value(digits) * pow10((scale - k) as nat) >= 1
    } else {
        decimal_value(digits) >= pow10((k - scale) as nat)
    }
}

/// The bounds that real-valued settings have.
#[derive(Clone, Copy, PartialEq, Eq, Structural)]
pub enum Bound {
    Zero,
    Tenth,
    One,
}

pub open spec fn bound_text(b: Bound) -> Seq<char> {
    match b {
        Bound::Zero => "0.0"@,
        Bound::Tenth => "0.1"@,
        Bound::One => "1.0"@,
    }
}

/// The literal's value is at least the bound; never so for "not a number".
pub open spec fn reaches(l: Literal, b: Bound) -> bool {
    match l {
        Literal::Nan => false,
        Literal::Infinite { negative } => !negative,
        Literal::Finite { negative, digits, scale } => match b {
            Bound::Zero => !negative || decimal_value(digits) == 0,
            Bound::Tenth => !negative && magnitude_reaches(digits, scale, -1),
            Bound::One => !negative && magnitude_reaches(digits, scale, 0),
        },
    }
}

/// The larger of a literal and a bound; "not a number" gives the bound.
pub open spec fn floored(s: Seq<char>, b: Bound) -> Seq<char> {
    if reaches(literal_of(s)->0, b) {
        s
    } else {
        bound_text(b)
    }
}

/// A literal brought into the range from a tenth to one; "not a number"
/// stays what it is.
pub open spec fn unit_clamped(s: Seq<char>) -> Seq<char> {
    if literal_of(s)->0 is Nan {
        s
    } else if !reaches(literal_of(s)->0, Bound::Tenth) {
        bound_text(Bound::Tenth)
    } else if reaches(literal_of(s)->0, Bound::One) {
        bound_text(Bound::One)
    } else {
        s
    }
}

// ---------------------------------------------------------------- lemmas

proof fn pow10_positive(n: nat)
    ensures
        pow10(n) >= 1,
    decreases n,
{
    if n > 0 {
        pow10_positive((n - 1) as nat);
    }
}

proof fn pow10_grows(a: nat, b: nat)
    requires
        a <= b,
    ensures
        pow10(a) <= pow10(b),
    decreases b,
{
    if a < b {
        pow10_grows(a, (b - 1) as nat);
        pow10_positive((b - 1) as nat);
    }
}

proof fn decimal_value_below(s: Seq<char>)
    requires
        only_digits(s),
    ensures
        0 <= decimal_value(s) < pow10(s.len()),
    decreases s.len(),
{
    if s.len() > 0 {
        decimal_value_below(s.drop_last());
        assert(is_digit(s.last()));
    }
}

proof fn decimal_value_above(s: Seq<char>)
    requires
        only_digits(s),
        s.len() > 0,
        s[0] != '0',
    ensures
        decimal_value(s) >= pow10((s.len() - 1) as nat),
    decreases s.len(),
{
    assert(is_digit(s[0]));
    if s.len() > 1 {
        let t = s.drop_last();
        decimal_value_above(t);
        assert(is_digit(s.last()));
    } else {
        assert(s.drop_last() =~= Seq::<char>::empty());
        assert(decimal_value(s.drop_last()) == 0);
    }
}

proof fn leading_zero_is_free(s: Seq<char>)
    requires
        s.len() > 0,
        s[0] == '0',
    ensures
        decimal_value(s) == decimal_value(s.drop_first()),
    decreases s.len(),
{
    if s.len() > 1 {
        leading_zero_is_free(s.drop_last());
        assert(s.drop_last().drop_first() =~= s.drop_first().drop_last());
    } else {
        assert(s.drop_last() =~= Seq::<char>::empty());
        assert(s.drop_first() =~= Seq::<char>::empty());
        assert(decimal_value(Seq::<char>::empty()) == 0);
    }
}

/// The place of the leading digit decides which powers of ten are reached.
proof fn leading_digit_decides(d: Seq<char>, sig: nat, scale: int, k: int)
    requires
        only_digits(d),
        sig <= d.len(),
        decimal_value(d) == decimal_value(d.skip(d.len() - sig)),
        sig > 0 ==> d[d.len() - sig] != '0',
    ensures
        decimal_value(d) == 0 <==> sig == 0,
        magnitude_reaches(d, scale, k) <==> sig > 0 && sig - 1 + scale >= k,
{
    let t = d.skip(d.len() - sig);
    assert(only_digits(t)) by {
        assert forall|i: int| 0 <= i < t.len() implies is_digit(#[trigger] t[i]) by {
            assert(is_digit(d[d.len() - sig + i]));
        }
    }
    decimal_value_below(t);
    if sig == 0 {
        assert(decimal_value(t) == 0);
        if scale < k {
            pow10_positive((k - scale) as nat);
        } else {
            assert(0 * pow10((scale - k) as nat) == 0);
        }
    } else {
        decimal_value_above(t);
        pow10_positive((sig - 1) as nat);
        if scale >= k {
            pow10_positive((scale - k) as nat);
            assert(decimal_value(d) * pow10((scale - k) as nat) >= 1) by (nonlinear_arith)
                requires
                    decimal_value(d) >= 1,
                    pow10((scale - k) as nat) >= 1,
            ;
        } else if sig - 1 >= k - scale {
            pow10_grows((k - scale) as nat, (sig - 1) as nat);
        } else {
            pow10_grows(sig, (k - scale) as nat);
        }
    }
}

// ---------------------------------------------------------------- reading

/// What the bounds ask of a literal.
enum Shape {
    Nan,
    Infinite { negative: bool },
    Finite { negative: bool, zero: bool, tenth: bool, one: bool },
}

spec fn shape_of(l: Literal) -> Shape {
    match l {
        Literal::Nan => Shape::Nan,
        Literal::Infinite { negative } => Shape::Infinite { negative },
        Literal::Finite { negative, digits, scale } => Shape::Finite {
            negative,
            zero: decimal_value(digits) == 0,
            tenth: magnitude_reaches(digits, scale, -1),
            one: magnitude_reaches(digits, scale, 0),
        },
    }
}

/// An integer held to a range far beyond any length of text.
spec fn held(n: int) -> int {
    if n > 1000000000000000000000000000000 {
        1000000000000000000000000000000
    } else if n < -1000000000000000000000000000000 {
        -1000000000000000000000000000000
    } else {
        n
    }
}

/// Reads the digits of an exponent; a number of absurd size is held to the
/// end of the range.
fn parse_exponent(v: &Vec<char>, from: usize) -> (r: Option<i128>)
    requires
        from <= v@.len(),
    ensures
        match int_value(v@.skip(from as int)) {
            Some(n) => r == Some(held(n) as i128),
            None => r is None,
        },
{
    let limit: i128 = 1000000000000000000000000000000;
    let ghost e = v@.skip(from as int);
    if from == v.len() {
        return None;
    }
    let negative: bool = v[from] == '-';
    let start: usize = if v[from] == '-' || v[from] == '+' {
        from + 1
    } else {
        from
    };
    let ghost body = unsigned(e);
    assert(body =~= v@.skip(start as int));
    if start == v.len() {
        return None;
    }
    let mut acc: i128 = 0;
    let mut i: usize = start;
    assert(body.take(0) =~= Seq::<char>::empty());
    while i < v.len()
        invariant
            start <= i <= v@.len(),
            from < v@.len(),
            limit == 1000000000000000000000000000000,
            e == v@.skip(from as int),
            body == unsigned(e),
            body == v@.skip(start as int),
            forall|j: int| 0 <= j < i - start ==> is_digit(#[trigger] body[j]),
            decimal_value(body.take(i - start)) >= 0,
            acc == held(decimal_value(body.take(i - start))),
        decreases v@.len() - i,
    {
        let c: char = v[i];
        if c < '0' || c > '9' {
            assert(!is_digit(body[i - start]));
            return None;
        }
        let d: i128 = (c as u32 - '0' as u32) as i128;
        assert(body.take(i - start + 1).drop_last() =~= body.take(i - start));
        assert(body[i - start] == c);
        acc = acc * 10 + d;
        if acc > limit {
            acc = limit;
        }
        i = i + 1;
    }
    assert(body.take(i - start) =~= body);
    assert(all_digits(body));
    if negative {
        Some(-acc)
    } else {
        Some(acc)
    }
}

fn find_exponent_mark(v: &Vec<char>) -> (k: usize)
    ensures
        k == exponent_mark(v@),
        k <= v@.len(),
{
    assert(v@.skip(0) =~= v@);
    let a: usize = find_char(v, 0, 'e');
    let b: usize = find_char(v, 0, 'E');
    if a <= b {
        a
    } else {
        b
    }
}

/// Scans the mantissa in front of `mark`: how many of its digits are
/// significant, and how many stand behind the point.
fn scan_mantissa(w: &Vec<char>, mark: usize) -> (r: Option<(usize, usize)>)
    requires
        mark <= w@.len(),
    ensures
        ({
            let m = w@.take(mark as int);
            let d = mantissa_digits(m);
            match r {
                Some((sig, fraction)) => {
                    &&& d.len() > 0
                    &&& only_digits(d)
                    &&& fraction == fraction_len(m)
                    &&& sig <= d.len()
                    &&& decimal_value(d) == decimal_value(d.skip(d.len() - sig))
                    &&& sig > 0 ==> d[d.len() - sig] != '0'
                },
                None => d.len() == 0 || !only_digits(d),
            }
        }),
{
    let ghost m = w@.take(mark as int);
    let ghost digits = mantissa_digits(m);
    // Where the point is, if the mantissa has one.
    let mut point: usize = 0;
    while point < mark && w[point] != '.'
        invariant
            point <= mark <= w@.len(),
            forall|j: int| 0 <= j < point ==> w@[j] != '.',
        decreases mark - point,
    {
        point = point + 1;
    }
    proof {
        first_index_is(m, '.', point as int);
    }
    let fraction: usize = if point < mark {
        mark - point - 1
    } else {
        0
    };
    let total: usize = if point < mark {
        mark - 1
    } else {
        mark
    };
    if total == 0 {
        return None;
    }
    // Leading zeros, then the significant digits.
    let mut zeros: usize = 0;
    let mut leading: bool = true;
    let mut i: usize = 0;
    let ghost mut n: int = 0;
    assert(digits.skip(0) =~= digits);
    while i < mark
        invariant
            i <= mark <= w@.len(),
            m == w@.take(mark as int),
            digits == mantissa_digits(m),
            point <= mark,
            first_index(m, '.') == point,
            total == digits.len(),
            n == (if i > point {
                i - 1
            } else {
                i as int
            }),
            forall|j: int| 0 <= j < n ==> is_digit(#[trigger] digits[j]),
            zeros <= n,
            leading ==> zeros == n,
            !leading ==> zeros < n && digits[zeros as int] != '0',
            decimal_value(digits) == decimal_value(digits.skip(zeros as int)),
        decreases mark - i,
    {
        if i != point {
            let c: char = w[i];
            assert(digits[n] == c);
            if c < '0' || c > '9' {
                assert(!is_digit(digits[n]));
                return None;
            }
            if leading {
                if c == '0' {
                    proof {
                        leading_zero_is_free(digits.skip(zeros as int));
                        assert(digits.skip(zeros as int).drop_first() =~= digits.skip(zeros + 1));
                    }
                    zeros = zeros + 1;
                } else {
                    leading = false;
                }
            }
            proof {
                n = n + 1;
            }
        }
        i = i + 1;
    }
    assert(only_digits(digits));
    Some((total - zeros, fraction))
}

fn read_shape(s: &str) -> (r: Option<Shape>)
    ensures
        match literal_of(s@) {
            Some(l) => r == Some(shape_of(l)),
            None => r is None,
        },
{
    let v: Vec<char> = chars_of(s);
    let negative: bool = v.len() > 0 && v[0] == '-';
    let start: usize = if v.len() > 0 && (v[0] == '-' || v[0] == '+') {
        1
    } else {
        0
    };
    let body: String = string_of(&v, start, v.len());
    let ghost u = unsigned(s@);
    assert(body@ =~= u);
    let word: String = to_ascii_lowercase(body.as_str());
    if same(word.as_str(), "nan") {
        return Some(Shape::Nan);
    }
    if same(word.as_str(), "inf") || same(word.as_str(), "infinity") {
        return Some(Shape::Infinite { negative });
    }
    let w: Vec<char> = chars_of(body.as_str());
    let mark: usize = find_exponent_mark(&w);
    let exponent: i128 = if mark < w.len() {
        match parse_exponent(&w, mark + 1) {
            Some(e) => e,
            None => {
                return None;
            },
        }
    } else {
        0
    };
    match scan_mantissa(&w, mark) {
        None => None,
        Some((significant, fraction)) => {
            proof {
                let m = u.take(mark as int);
                let digits = mantissa_digits(m);
                let scale = exponent_of(u)->0 - fraction_len(m);
                leading_digit_decides(digits, significant as nat, scale, -1);
                leading_digit_decides(digits, significant as nat, scale, 0);
            }
            let place: i128 = significant as i128 - 1 + exponent - fraction as i128;
            Some(
                Shape::Finite {
                    negative,
                    zero: significant == 0,
                    tenth: significant > 0 && place >= -1,
                    one: significant > 0 && place >= 0,
                },
            )
        },
    }
}

fn shape_reaches(h: &Shape, b: Bound, Ghost(l): Ghost<Literal>) -> (r: bool)
    requires
        *h == shape_of(l),
    ensures
        r == reaches(l, b),
{
    match h {
        Shape::Nan => false,
        Shape::Infinite { negative } => !*negative,
        Shape::Finite { negative, zero, tenth, one } => match b {
            Bound::Zero => !*negative || *zero,
            Bound::Tenth => !*negative && *tenth,
            Bound::One => !*negative && *one,
        },
    }
}

// ---------------------------------------------------------------- the type

/// A real-valued setting: the literal it was written as.
pub struct Real {
    text: String,
}

impl View for Real {
    type V = Seq<char>;

    closed spec fn view(&self) -> Seq<char> {
        self.text@
    }
}

impl Real {
    #[verifier::type_invariant]
    spec fn is_literal(self) -> bool {
        literal_of(self.text@) is Some
    }

    /// Takes a text that is a literal; `None` for any other.
    pub fn parse(text: &str) -> (r: Option<Real>)
        ensures
            match r {
                Some(x) => literal_of(text@) is Some && x@ == text@,
                None => literal_of(text@) is None,
            },
    {
        match read_shape(text) {
            Some(_) => Some(Real { text: copy_of(text) }),
            None => None,
        }
    }

    /// Takes a text that is known to be a literal.
    pub fn known(text: &str) -> (r: Real)
        requires
            literal_of(text@) is Some,
        ensures
            r@ == text@,
    {
        Real { text: copy_of(text) }
    }

    /// The literal, for whoever finally needs the number.
    pub fn text(&self) -> (r: &str)
        ensures
            r@ == self@,
            literal_of(r@) is Some,
    {
        proof {
            use_type_invariant(self);
        }
        self.text.as_str()
    }

    pub fn copy(&self) -> (r: Real)
        ensures
            r@ == self@,
    {
        proof {
            use_type_invariant(self);
        }
        Real { text: copy_of(self.text.as_str()) }
    }

    fn bound(b: Bound) -> (r: Real)
        ensures
            r@ == bound_text(b),
    {
        proof {
            bounds_are_literals(b);
        }
        Real {
            text: match b {
                Bound::Zero => copy_of("0.0"),
                Bound::Tenth => copy_of("0.1"),
                Bound::One => copy_of("1.0"),
            },
        }
    }

    /// The larger of this setting and a bound.
    pub fn at_least(self, b: Bound) -> (r: Real)
        ensures
            r@ == floored(self@, b),
    {
        proof {
            use_type_invariant(&self);
        }
        match read_shape(self.text.as_str()) {
            Some(h) => {
                if shape_reaches(&h, b, Ghost(literal_of(self@)->0)) {
                    self
                } else {
                    Real::bound(b)
                }
            },
            None => self,
        }
    }

    /// This setting brought into the range from a tenth to one.
    pub fn clamp_unit(self) -> (r: Real)
        ensures
            r@ == unit_clamped(self@),
    {
        proof {
            use_type_invariant(&self);
        }
        match read_shape(self.text.as_str()) {
            Some(Shape::Nan) => self,
            Some(h) => {
                if !shape_reaches(&h, Bound::Tenth, Ghost(literal_of(self@)->0)) {
                    Real::bound(Bound::Tenth)
                } else if shape_reaches(&h, Bound::One, Ghost(literal_of(self@)->0)) {
                    Real::bound(Bound::One)
                } else {
                    self
                }
            },
            None => self,
        }
    }
}

/// Digits, a point at `p`, and digits again are a literal.
pub proof fn plain_decimals_are_literals(s: Seq<char>, p: int)
    requires
        0 <= p < s.len(),
        s.len() > 1,
        s[p] == '.',
        forall|i: int| 0 <= i < s.len() && i != p ==> is_digit(#[trigger] s[i]),
    ensures
        literal_of(s) == Some(
            Literal::Finite {
                negative: false,
                digits: s.take(p) + s.skip(p + 1),
                scale: p + 1 - s.len(),
            },
        ),
{
    reveal_strlit("nan");
    reveal_strlit("inf");
    reveal_strlit("infinity");
    let u = unsigned(s);
    assert(u == s) by {
        if p > 0 {
            assert(is_digit(s[0]));
        }
    }
    let word = ascii_lowercased(u);
    assert(word[p] == '.');
    assert(word != "nan"@ && word != "inf"@ && word != "infinity"@) by {
        assert(!"nan"@.contains('.') && !"inf"@.contains('.') && !"infinity"@.contains('.'));
        assert(word.contains('.'));
    }
    assert forall|c: char| c == 'e' || c == 'E' implies first_index(u, c) == s.len() by {
        assert forall|j: int| 0 <= j < s.len() implies u[j] != c by {
            if j != p {
                assert(is_digit(s[j]));
            }
        }
        first_index_is(u, c, s.len() as int);
    }
    assert(u.take(s.len() as int) =~= u);
    assert forall|j: int| 0 <= j < p implies u[j] != '.' by {
        assert(is_digit(s[j]));
    }
    first_index_is(u, '.', p);
    let digits = mantissa_digits(u);
    assert forall|i: int| 0 <= i < digits.len() implies is_digit(#[trigger] digits[i]) by {
        if i < p {
            assert(is_digit(s[i]));
        } else {
            assert(is_digit(s[i + 1]));
        }
    }
}

/// The bounds are literals of the values they are named after.
pub proof fn bounds_are_literals(b: Bound)
    ensures
        literal_of(bound_text(b)) is Some,
        reaches(literal_of(bound_text(b))->0, b),
{
    reveal_strlit("0.0");
    reveal_strlit("0.1");
    reveal_strlit("1.0");
    let s = bound_text(b);
    plain_decimals_are_literals(s, 1);
    let digits = s.take(1) + s.skip(2);
    assert(digits.drop_last().drop_last() =~= Seq::<char>::empty());
    assert(decimal_value(Seq::<char>::empty()) == 0);
    assert(decimal_value(digits.drop_last()) == digit_value(s[0]));
    assert(decimal_value(digits) == digit_value(s[0]) * 10 + digit_value(s[2]));
    assert(pow10(0) == 1);
    assert(pow10(1) == 10 * pow10(0));
}

/// A setting held to a lower bound is never below it.
pub proof fn floor_holds(s: Seq<char>, b: Bound)
    requires
        literal_of(s) is Some,
    ensures
        literal_of(floored(s, b)) is Some,
        reaches(literal_of(floored(s, b))->0, b),
{
    bounds_are_literals(b);
}

/// Holding a setting to the same bound twice is holding it once.
pub proof fn floor_is_idempotent(s: Seq<char>, b: Bound)
    requires
        literal_of(s) is Some,
    ensures
        floored(floored(s, b), b) == floored(s, b),
{
    bounds_are_literals(b);
}

/// A number written with a point is compared by its value: it reaches one when
/// its digits, without the point, make at least the power of ten that has as
/// many zeros as there are digits behind the point, and a tenth when they make
/// at least a tenth of that.
pub proof fn decimals_compare_by_value(s: Seq<char>, p: int)
    requires
        0 <= p < s.len() - 1,
        s[p] == '.',
        forall|i: int| 0 <= i < s.len() && i != p ==> is_digit(#[trigger] s[i]),
    ensures
        ({
            let digits = s.take(p) + s.skip(p + 1);
            let places = (s.len() - p - 1) as nat;
            let l = literal_of(s)->0;
            &&& reaches(l, Bound::Zero)
            &&& reaches(l, Bound::One) <==> decimal_value(digits) >= pow10(places)
            &&& reaches(l, Bound::Tenth) <==> 10 * decimal_value(digits) >= pow10(places)
        }),
        pow10(0) == 1,
        forall|n: nat| #[trigger] pow10(n + 1) == 10 * pow10(n),
{
    plain_decimals_are_literals(s, p);
    let digits = s.take(p) + s.skip(p + 1);
    let places = (s.len() - p - 1) as nat;
    assert forall|n: nat| #[trigger] pow10(n + 1) == 10 * pow10(n) by {}
    assert(pow10(0) == 1);
    assert(pow10(places) == 10 * pow10((places - 1) as nat));
    if places == 1 {
        assert(decimal_value(digits) * pow10(0) == decimal_value(digits)) by (nonlinear_arith)
            requires
                pow10(0) == 1,
        ;
    }
}

/// A setting that reaches its bound is kept as it was written, and one that does
/// not becomes the bound; negative numbers reach none, but for zero, and what is
/// not a number reaches none either.
pub proof fn bounds_are_floors(s: Seq<char>, b: Bound)
    requires
        literal_of(s) is Some,
    ensures
        reaches(literal_of(s)->0, b) ==> floored(s, b) == s,
        !reaches(literal_of(s)->0, b) ==> floored(s, b) == (match b {
            Bound::Zero => "0.0"@,
            Bound::Tenth => "0.1"@,
            Bound::One => "1.0"@,
        }),
        !reaches(Literal::Nan, b),
        reaches(Literal::Infinite { negative: false }, b),
        !reaches(Literal::Infinite { negative: true }, b),
        forall|digits: Seq<char>, scale: int|
            #[trigger] reaches(Literal::Finite { negative: true, digits, scale }, b) ==> b is Zero
                && decimal_value(digits) == 0,
{
}

/// A factor is held to the range from a tenth to one, and kept as it was written
/// within it.
pub proof fn factors_are_held_to_their_range(s: Seq<char>)
    requires
        literal_of(s) is Some,
        !(literal_of(s)->0 is Nan),
    ensures
        !reaches(literal_of(s)->0, Bound::Tenth) ==> unit_clamped(s) == "0.1"@,
        reaches(literal_of(s)->0, Bound::Tenth) && reaches(literal_of(s)->0, Bound::One)
            ==> unit_clamped(s) == "1.0"@,
        reaches(literal_of(s)->0, Bound::Tenth) && !reaches(literal_of(s)->0, Bound::One)
            ==> unit_clamped(s) == s,
{
}

/// A sign before a number turns it, or keeps it, and changes nothing else.
pub proof fn signs_turn_numbers(u: Seq<char>)
    requires
        u.len() > 0,
        u[0] != '-' && u[0] != '+',
    ensures
        literal_of(seq!['+'] + u) == literal_of(u),
        literal_of(seq!['-'] + u) is Some <==> literal_of(u) is Some,
        literal_of(u) matches Some(l) ==> literal_of(seq!['-'] + u) == Some(
            match l {
                Literal::Nan => Literal::Nan,
                Literal::Infinite { negative: _ } => Literal::Infinite { negative: true },
                Literal::Finite { negative: _, digits, scale } => Literal::Finite {
                    negative: true,
                    digits,
                    scale,
                },
            },
        ),
        literal_of(u) matches Some(Literal::Finite { negative, .. }) ==> !negative,
{
    assert((seq!['+'] + u).skip(1) =~= u);
    assert((seq!['-'] + u).skip(1) =~= u);
}

/// A run of digits is a whole number.
pub proof fn digits_are_whole_numbers(s: Seq<char>)
    requires
        all_digits(s),
    ensures
        literal_of(s) == Some(Literal::Finite { negative: false, digits: s, scale: 0 }),
{
    reveal_strlit("nan");
    reveal_strlit("inf");
    reveal_strlit("infinity");
    assert(is_digit(s[0]));
    let word = ascii_lowercased(s);
    assert(word[0] == s[0]);
    assert("nan"@[0] == 'n' && "inf"@[0] == 'i' && "infinity"@[0] == 'i');
    assert forall|j: int| 0 <= j < s.len() implies s[j] != 'e' && s[j] != 'E' && s[j] != '.' by {
        assert(is_digit(s[j]));
    }
    first_index_is(s, 'e', s.len() as int);
    first_index_is(s, 'E', s.len() as int);
    first_index_is(s, '.', s.len() as int);
    assert(s.take(s.len() as int) =~= s);
}

/// An exponent shifts a number by powers of ten.
pub proof fn exponents_shift_numbers(m: Seq<char>, e: Seq<char>)
    requires
        literal_of(m) is Some,
        literal_of(m)->0 is Finite,
        m.len() > 0,
        m[0] != '-' && m[0] != '+',
        !m.contains('e') && !m.contains('E'),
        int_value(e) is Some,
    ensures
        literal_of(m + seq!['e'] + e) == Some(
            Literal::Finite {
                negative: false,
                digits: literal_of(m)->0->digits,
                scale: literal_of(m)->0->scale + int_value(e)->0,
            },
        ),
{
    reveal_strlit("nan");
    reveal_strlit("inf");
    reveal_strlit("infinity");
    let s = m + seq!['e'] + e;
    let n = m.len() as int;
    let word = ascii_lowercased(s);
    assert(s[n] == 'e');
    assert(word[n] == 'e');
    assert(word != "nan"@ && word != "inf"@ && word != "infinity"@) by {
        assert(!"nan"@.contains('e') && !"inf"@.contains('e') && !"infinity"@.contains('e'));
        assert(word.contains('e'));
    }
    assert forall|j: int| 0 <= j < n implies s[j] != 'e' && s[j] != 'E' && m[j] != 'e' && m[j]
        != 'E' by {
        assert(m.contains(m[j]));
        assert(s[j] == m[j]);
    }
    first_index_is(s, 'e', n);
    crate::text::first_index_bounds(s, 'E');
    first_index_is(m, 'e', n);
    first_index_is(m, 'E', n);
    assert(first_index(s, 'E') >= n) by {
        if first_index(s, 'E') < n {
            assert(s[first_index(s, 'E')] == 'E');
        }
    }
    assert(s.take(n) =~= m);
    assert(m.take(n) =~= m);
    assert(s.skip(n + 1) =~= e);
}

/// A factor that is not a number stays what it was written as.
pub proof fn factors_that_are_no_numbers_stay(s: Seq<char>)
    requires
        literal_of(s) == Some(Literal::Nan),
    ensures
        unit_clamped(s) == s,
        floored(s, Bound::Zero) == "0.0"@,
{
}

} // verus!
