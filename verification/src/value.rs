//! The right-hand side of one `key = value` line, read as the type its key
//! asks for.
//!
//! A value that does not read as that type leaves its setting alone and adds
//! one line to the log of warnings; it never stops the program.

use vstd::prelude::*;
use crate::literal::{literal_of, Real};
use crate::numerals::{hex_byte, hex_digit, i32_value, parse_hex_byte, parse_i32};
use crate::paths::{expand_path, expanded, Env};
use crate::text::{
    ascii_lowercased, chars_of, class_has, copy_of, is_space, pieces_of, same,
    separators_end_pieces, split_on, split_whitespace, string_of, texts, texts_push,
    to_ascii_lowercase, trim, trim_back, trim_end_of, trim_front, trim_start_of, trimmed, words_of,
    Class,
};

verus! {

// ---------------------------------------------------------------- colors

/// Red, green, blue and alpha, in that order.
#[derive(Debug, Clone, Copy)]
pub struct Rgba(pub [u8; 4]);

impl View for Rgba {
    type V = Seq<u8>;

    open spec fn view(&self) -> Seq<u8> {
        self.0@
    }
}

/// The color in the digits of `rrggbb`, which is opaque, or `rrggbbaa`.
pub open spec fn digits_color(s: Seq<char>) -> Option<Seq<u8>> {
    if s.len() == 6 || s.len() == 8 {
        let r = hex_byte(s[0], s[1]);
        let g = hex_byte(s[2], s[3]);
        let b = hex_byte(s[4], s[5]);
        let a = if s.len() == 8 {
            hex_byte(s[6], s[7])
        } else {
            Some(255u8)
        };
        if r is Some && g is Some && b is Some && a is Some {
            Some(seq![r->0, g->0, b->0, a->0])
        } else {
            None
        }
    } else {
        None
    }
}

/// The color a text stands for, written with or without quotes and `#`.
pub open spec fn color_value(s: Seq<char>) -> Option<Seq<u8>> {
    let t = trim_back(trim_front(trimmed(s), Class::Just('"')), Class::Just('"'));
    digits_color(trim_front(t, Class::Just('#')))
}

pub open spec fn opt_rgba(c: Option<Rgba>) -> Option<Seq<u8>> {
    match c {
        Some(c) => Some(c@),
        None => None,
    }
}

pub fn parse_hex_color(s: &str) -> (r: Option<Rgba>)
    ensures
        opt_rgba(r) == color_value(s@),
{
    let plain: String = trim(s);
    let front: String = trim_start_of(plain.as_str(), Class::Just('"'));
    let bare: String = trim_end_of(front.as_str(), Class::Just('"'));
    let digits: String = trim_start_of(bare.as_str(), Class::Just('#'));
    let v: Vec<char> = chars_of(digits.as_str());
    if v.len() != 6 && v.len() != 8 {
        return None;
    }
    let alpha: Option<u8> = if v.len() == 8 {
        parse_hex_byte(v[6], v[7])
    } else {
        Some(255)
    };
    match (parse_hex_byte(v[0], v[1]), parse_hex_byte(v[2], v[3]), parse_hex_byte(v[4], v[5]), alpha) {
        (Some(r), Some(g), Some(b), Some(a)) => {
            let c: Rgba = Rgba([r, g, b, a]);
            assert(c@ =~= seq![r, g, b, a]);
            Some(c)
        },
        _ => None,
    }
}

// ---------------------------------------------------------------- values

/// One right-hand side, with what a warning about it has to name and the
/// environment its paths are expanded in.
pub struct Value<'a> {
    pub raw: &'a str,
    pub key: &'a str,
    pub loc: &'a str,
    pub env: &'a Env,
}

/// What a value says, as mathematics.
pub struct ValueView {
    pub raw: Seq<char>,
    pub key: Seq<char>,
    pub loc: Seq<char>,
    pub env: Map<Seq<char>, Seq<char>>,
}

impl<'a> View for Value<'a> {
    type V = ValueView;

    open spec fn view(&self) -> ValueView {
        ValueView { raw: self.raw@, key: self.key@, loc: self.loc@, env: self.env@ }
    }
}

/// `s` without one pair of surrounding double quotes.
pub open spec fn unquoted(s: Seq<char>) -> Seq<char> {
    if s.len() >= 2 && s[0] == '"' && s.last() == '"' {
        s.subrange(1, s.len() - 1)
    } else {
        s
    }
}

/// The boolean a spelling stands for, in any case.
pub open spec fn bool_value(s: Seq<char>) -> Option<bool> {
    let w = ascii_lowercased(s);
    if w == "true"@ || w == "yes"@ || w == "on"@ || w == "1"@ {
        Some(true)
    } else if w == "false"@ || w == "no"@ || w == "off"@ || w == "0"@ {
        Some(false)
    } else {
        None
    }
}

/// The integer a text stands for, brought into the range of a byte.
pub open spec fn byte_value(s: Seq<char>) -> Option<u8> {
    match i32_value(s) {
        Some(n) => Some(
            if n < 0 {
                0u8
            } else if n > 255 {
                255u8
            } else {
                n as u8
            },
        ),
        None => None,
    }
}

pub open spec fn real_value(s: Seq<char>) -> Option<Seq<char>> {
    if literal_of(s) is Some {
        Some(s)
    } else {
        None
    }
}

pub type CurveView = (Seq<char>, Seq<char>, Seq<char>, Seq<char>);

pub type Curve = (Real, Real, Real, Real);

pub open spec fn curve_view(c: Curve) -> CurveView {
    (c.0@, c.1@, c.2@, c.3@)
}

/// Four numbers between commas.
pub open spec fn curve_value(s: Seq<char>) -> Option<CurveView> {
    let p = pieces_of(s, ',');
    if p.len() == 4 && literal_of(trimmed(p[0])) is Some && literal_of(trimmed(p[1])) is Some
        && literal_of(trimmed(p[2])) is Some && literal_of(trimmed(p[3])) is Some {
        Some((trimmed(p[0]), trimmed(p[1]), trimmed(p[2]), trimmed(p[3])))
    } else {
        None
    }
}

pub open spec fn curve_complaint(s: Seq<char>) -> Seq<char> {
    if pieces_of(s, ',').len() == 4 {
        "4 valid numbers"@
    } else {
        "4 comma-separated numbers"@
    }
}

pub open spec fn opt_real(r: Option<Real>) -> Option<Seq<char>> {
    match r {
        Some(x) => Some(x@),
        None => None,
    }
}

pub open spec fn opt_curve(r: Option<Curve>) -> Option<CurveView> {
    match r {
        Some(c) => Some(curve_view(c)),
        None => None,
    }
}

impl ValueView {
    /// The text of the value: trimmed, and unquoted where it is quoted.
    pub open spec fn text(self) -> Seq<char> {
        unquoted(trimmed(self.raw))
    }

    /// An empty text means that the setting is unset.
    pub open spec fn opt_text(self) -> Option<Seq<char>> {
        if self.text().len() == 0 {
            None
        } else {
            Some(self.text())
        }
    }

    /// The warning that this value is not what its key asks for.
    pub open spec fn warning(self, what: Seq<char>) -> Seq<char> {
        "walldeck: "@ + self.loc + ": '"@ + self.raw + "' is not "@ + what + " for "@ + self.key
    }

    /// The log after reading this value: longer by the warning when the
    /// value did not read.
    pub open spec fn logged(self, log: Seq<Seq<char>>, ok: bool, what: Seq<char>) -> Seq<Seq<
        char,
    >> {
        if ok {
            log
        } else {
            log.push(self.warning(what))
        }
    }
}

pub open spec fn int_name() -> Seq<char> {
    "a valid integer"@
}

pub open spec fn real_name() -> Seq<char> {
    "a valid number"@
}

pub open spec fn byte_name() -> Seq<char> {
    "a valid 0-255 value"@
}

pub open spec fn bool_name() -> Seq<char> {
    "a boolean (true/false)"@
}

pub open spec fn color_name() -> Seq<char> {
    "a valid color (expected \"#rrggbb\" or \"#rrggbbaa\")"@
}

impl<'a> Value<'a> {
    fn warn(&self, what: &str, log: &mut Vec<String>)
        ensures
            texts(final(log)@) == texts(old(log)@).push(self@.warning(what@)),
    {
        let mut s: String = copy_of("walldeck: ");
        s.append(self.loc);
        s.append(": '");
        s.append(self.raw);
        s.append("' is not ");
        s.append(what);
        s.append(" for ");
        s.append(self.key);
        proof {
            texts_push(log@, s);
        }
        log.push(s);
    }

    /// Trimmed, with surrounding double quotes removed if present: quoting is
    /// optional everywhere, and only matters for values with leading or
    /// trailing spaces.
    pub fn text(&self) -> (r: String)
        ensures
            r@ == self@.text(),
    {
        let t: String = trim(self.raw);
        let v: Vec<char> = chars_of(t.as_str());
        if v.len() >= 2 && v[0] == '"' && v[v.len() - 1] == '"' {
            string_of(&v, 1, v.len() - 1)
        } else {
            t
        }
    }

    /// `None` for an empty value, which is how the configuration says "do not
    /// pass this flag at all" or "disable this".
    pub fn opt_text(&self) -> (r: Option<String>)
        ensures
            crate::text::opt_text(r) == self@.opt_text(),
    {
        let s: String = self.text();
        if s.as_str().is_empty() {
            None
        } else {
            Some(s)
        }
    }

    pub fn integer(&self, log: &mut Vec<String>) -> (r: Option<i32>)
        ensures
            r == i32_value(self@.text()),
            texts(final(log)@) == self@.logged(texts(old(log)@), r is Some, int_name()),
    {
        let s: String = self.text();
        let r: Option<i32> = parse_i32(s.as_str());
        if r.is_none() {
            self.warn("a valid integer", log);
        }
        r
    }

    pub fn float(&self, log: &mut Vec<String>) -> (r: Option<Real>)
        ensures
            opt_real(r) == real_value(self@.text()),
            texts(final(log)@) == self@.logged(texts(old(log)@), r is Some, real_name()),
    {
        let s: String = self.text();
        let r: Option<Real> = Real::parse(s.as_str());
        if r.is_none() {
            self.warn("a valid number", log);
        }
        r
    }

    pub fn byte(&self, log: &mut Vec<String>) -> (r: Option<u8>)
        ensures
            r == byte_value(self@.text()),
            texts(final(log)@) == self@.logged(texts(old(log)@), r is Some, byte_name()),
    {
        let s: String = self.text();
        match parse_i32(s.as_str()) {
            Some(n) => Some(
                if n < 0 {
                    0
                } else if n > 255 {
                    255
                } else {
                    n as u8
                },
            ),
            None => {
                self.warn("a valid 0-255 value", log);
                None
            },
        }
    }

    pub fn boolean(&self, log: &mut Vec<String>) -> (r: Option<bool>)
        ensures
            r == bool_value(self@.text()),
            texts(final(log)@) == self@.logged(texts(old(log)@), r is Some, bool_name()),
    {
        let s: String = self.text();
        let w: String = to_ascii_lowercase(s.as_str());
        let w: &str = w.as_str();
        if same(w, "true") || same(w, "yes") || same(w, "on") || same(w, "1") {
            Some(true)
        } else if same(w, "false") || same(w, "no") || same(w, "off") || same(w, "0") {
            Some(false)
        } else {
            self.warn("a boolean (true/false)", log);
            None
        }
    }

    pub fn color(&self, log: &mut Vec<String>) -> (r: Option<Rgba>)
        ensures
            opt_rgba(r) == color_value(self@.text()),
            texts(final(log)@) == self@.logged(texts(old(log)@), r is Some, color_name()),
    {
        let s: String = self.text();
        let r: Option<Rgba> = parse_hex_color(s.as_str());
        if r.is_none() {
            self.warn("a valid color (expected \"#rrggbb\" or \"#rrggbbaa\")", log);
        }
        r
    }

    pub fn curve(&self, log: &mut Vec<String>) -> (r: Option<Curve>)
        ensures
            opt_curve(r) == curve_value(self@.text()),
            texts(final(log)@) == self@.logged(
                texts(old(log)@),
                r is Some,
                curve_complaint(self@.text()),
            ),
    {
        let s: String = self.text();
        let parts: Vec<String> = split_on(s.as_str(), ',');
        assert(texts(parts@).len() == parts@.len());
        if parts.len() != 4 {
            self.warn("4 comma-separated numbers", log);
            return None;
        }
        let a: String = trim(parts[0].as_str());
        let b: String = trim(parts[1].as_str());
        let c: String = trim(parts[2].as_str());
        let d: String = trim(parts[3].as_str());
        assert(texts(parts@)[0] == parts@[0]@);
        assert(texts(parts@)[1] == parts@[1]@);
        assert(texts(parts@)[2] == parts@[2]@);
        assert(texts(parts@)[3] == parts@[3]@);
        match (
            Real::parse(a.as_str()),
            Real::parse(b.as_str()),
            Real::parse(c.as_str()),
            Real::parse(d.as_str()),
        ) {
            (Some(x1), Some(y1), Some(x2), Some(y2)) => Some((x1, y1, x2, y2)),
            _ => {
                self.warn("4 valid numbers", log);
                None
            },
        }
    }

    pub fn path(&self) -> (r: String)
        ensures
            r@ == expanded(self@.text(), self@.env),
    {
        let s: String = self.text();
        expand_path(s.as_str(), self.env)
    }

    /// Whitespace-split raw arguments. Deliberately no shell syntax: there is
    /// no quoting or escaping, so an argument cannot contain a space.
    pub fn args(&self) -> (r: Vec<String>)
        ensures
            texts(r@) == words_of(self@.text()),
    {
        let s: String = self.text();
        split_whitespace(s.as_str())
    }
}

// ---------------------------------------------------------------- laws

/// Quoting is optional: a text in quotes reads as what stands between them,
/// whatever that is, and so does a text without quotes that has no white space
/// at its ends.
pub proof fn quoting_is_optional(v: ValueView, t: Seq<char>)
    ensures
        v.raw == seq!['"'] + t + seq!['"'] ==> v.text() == t,
        v.raw == t && t.len() > 0 && !is_space(t[0]) && !is_space(t.last()) && t[0] != '"'
            ==> v.text() == t,
{
    if v.raw == seq!['"'] + t + seq!['"'] {
        assert(v.raw[0] == '"');
        assert(v.raw.last() == '"');
        assert(trimmed(v.raw) == v.raw);
        assert(v.raw.subrange(1, v.raw.len() - 1) =~= t);
    }
    if v.raw == t && t.len() > 0 && !is_space(t[0]) && !is_space(t.last()) {
        assert(trimmed(t) == t);
    }
}

/// The words for yes and no, in any case, and nothing else.
pub proof fn booleans_have_their_words(s: Seq<char>)
    ensures
        bool_value(s) == bool_value(ascii_lowercased(s)),
        bool_value(s) == Some(true) <==> {
            let w = ascii_lowercased(s);
            w == "true"@ || w == "yes"@ || w == "on"@ || w == "1"@
        },
        bool_value(s) == Some(false) <==> {
            let w = ascii_lowercased(s);
            w == "false"@ || w == "no"@ || w == "off"@ || w == "0"@
        },
{
    assert(ascii_lowercased(ascii_lowercased(s)) =~= ascii_lowercased(s));
    reveal_strlit("true");
    reveal_strlit("yes");
    reveal_strlit("on");
    reveal_strlit("1");
    reveal_strlit("false");
    reveal_strlit("no");
    reveal_strlit("off");
    reveal_strlit("0");
    assert("true"@.len() == 4 && "yes"@.len() == 3 && "on"@.len() == 2 && "1"@.len() == 1);
    assert("false"@.len() == 5 && "no"@.len() == 2 && "off"@.len() == 3 && "0"@.len() == 1);
    assert("yes"@[0] == 'y' && "off"@[0] == 'o');
    assert("on"@[0] == 'o' && "no"@[0] == 'n');
    assert("1"@[0] == '1' && "0"@[0] == '0');
}

/// A byte is an integer brought to the nearer end of its range where it lies
/// beyond it.
pub proof fn bytes_are_held_to_their_range(s: Seq<char>)
    ensures
        i32_value(s) is None ==> byte_value(s) is None,
        i32_value(s) matches Some(n) ==> {
            &&& 0 <= n <= 255 ==> byte_value(s) == Some(n as u8)
            &&& n < 0 ==> byte_value(s) == Some(0u8)
            &&& n > 255 ==> byte_value(s) == Some(255u8)
        },
{
}

/// An empty value unsets, and any other is its text.
pub proof fn empty_values_unset(v: ValueView)
    ensures
        v.opt_text() is None <==> v.text().len() == 0,
        v.opt_text() is Some ==> v.opt_text() == Some(v.text()),
{
}

proof fn nothing_to_trim(s: Seq<char>, k: Class)
    requires
        s.len() > 0,
    ensures
        !class_has(k, s[0]) ==> trim_front(s, k) == s,
        !class_has(k, s.last()) ==> trim_back(s, k) == s,
{
}

/// A color is written as two hexadecimal digits each for red, green and blue, in
/// this order and opaque, or with two more for its opacity, and with or without
/// a `#` before it.
pub proof fn colors_are_written_in_digits(d: Seq<char>)
    requires
        d.len() == 6 || d.len() == 8,
        forall|i: int| 0 <= i < d.len() ==> hex_digit(#[trigger] d[i]) is Some,
    ensures
        color_value(d) is Some,
        color_value(seq!['#'] + d) == color_value(d),
        color_value(seq!['"', '#'] + d + seq!['"']) == color_value(d),
        ({
            let c = color_value(d)->0;
            &&& c.len() == 4
            &&& c[0] == 16 * hex_digit(d[0])->0 + hex_digit(d[1])->0
            &&& c[1] == 16 * hex_digit(d[2])->0 + hex_digit(d[3])->0
            &&& c[2] == 16 * hex_digit(d[4])->0 + hex_digit(d[5])->0
            &&& d.len() == 6 ==> c[3] == 255
            &&& d.len() == 8 ==> c[3] == 16 * hex_digit(d[6])->0 + hex_digit(d[7])->0
        }),
{
    let q = Class::Just('"');
    let n = d.len() - 1;
    assert(hex_digit(d[0]) is Some && hex_digit(d[1]) is Some && hex_digit(d[2]) is Some
        && hex_digit(d[3]) is Some && hex_digit(d[4]) is Some && hex_digit(d[5]) is Some);
    assert(hex_digit(d[n]) is Some);
    if d.len() == 8 {
        assert(hex_digit(d[6]) is Some && hex_digit(d[7]) is Some);
    }
    nothing_to_trim(d, Class::Space);
    nothing_to_trim(d, q);
    nothing_to_trim(d, Class::Just('#'));
    let h = seq!['#'] + d;
    assert(h.last() == d[n]);
    nothing_to_trim(h, Class::Space);
    nothing_to_trim(h, q);
    assert(h.drop_first() =~= d);
    assert(trim_front(h, Class::Just('#')) == trim_front(d, Class::Just('#')));
    let w = seq!['"', '#'] + d + seq!['"'];
    let f = h + seq!['"'];
    nothing_to_trim(w, Class::Space);
    assert(w.drop_first() =~= f);
    nothing_to_trim(f, q);
    assert(trim_front(w, q) == trim_front(f, q));
    assert(f.drop_last() =~= h);
    assert(trim_back(f, q) == trim_back(h, q));
}

/// A color needs six or eight digits: any other number of them, or a character
/// that is no digit, makes none. (A plus sign may stand for the first of two
/// digits.)
pub proof fn only_digits_make_a_color(d: Seq<char>, i: int)
    ensures
        0 <= i < d.len() && hex_digit(d[i]) is None && d[i] != '+' ==> digits_color(d) is None,
        d.len() != 6 && d.len() != 8 ==> digits_color(d) is None,
{
    if 0 <= i < d.len() && (d.len() == 6 || d.len() == 8) {
        assert(i == 0 || i == 1 || i == 2 || i == 3 || i == 4 || i == 5 || i == 6 || i == 7);
    }
}

/// A curve is four numbers between commas, in their order and as they were
/// written, whatever white space is around them.
pub proof fn curves_are_four_numbers(a: Seq<char>, b: Seq<char>, c: Seq<char>, d: Seq<char>)
    requires
        !a.contains(',') && !b.contains(',') && !c.contains(',') && !d.contains(','),
    ensures
        ({
            let s = a + seq![','] + (b + seq![','] + (c + seq![','] + d));
            let ok = literal_of(trimmed(a)) is Some && literal_of(trimmed(b)) is Some
                && literal_of(trimmed(c)) is Some && literal_of(trimmed(d)) is Some;
            &&& ok ==> curve_value(s) == Some((trimmed(a), trimmed(b), trimmed(c), trimmed(d)))
            &&& !ok ==> curve_value(s) is None
        }),
        curve_value(a) is None,
        curve_value(a + seq![','] + b) is None,
        curve_value(a + seq![','] + (b + seq![','] + c)) is None,
{
    let three = c + seq![','] + d;
    let two = b + seq![','] + three;
    separators_end_pieces(a, two, ',');
    separators_end_pieces(b, three, ',');
    separators_end_pieces(c, d, ',');
    separators_end_pieces(d, d, ',');
    separators_end_pieces(a, b, ',');
    separators_end_pieces(a, b + seq![','] + c, ',');
    separators_end_pieces(b, c, ',');
}

/// A warning says where the value stands, what it is, what it should have been,
/// and for which key; a value that reads adds none.
pub proof fn warnings_name_the_value(v: ValueView, log: Seq<Seq<char>>, what: Seq<char>)
    ensures
        v.logged(log, true, what) == log,
        v.logged(log, false, what).len() == log.len() + 1,
        v.logged(log, false, what).take(log.len() as int) == log,
        v.logged(log, false, what).last() == "walldeck: "@ + v.loc + ": '"@ + v.raw + "' is not "@
            + what + " for "@ + v.key,
{
    assert(v.logged(log, false, what).take(log.len() as int) =~= log);
}

/// A warning says what was expected of the value.
pub proof fn warnings_say_what_was_expected(s: Seq<char>)
    ensures
        int_name() == "a valid integer"@,
        real_name() == "a valid number"@,
        byte_name() == "a valid 0-255 value"@,
        bool_name() == "a boolean (true/false)"@,
        color_name() == "a valid color (expected \"#rrggbb\" or \"#rrggbbaa\")"@,
        pieces_of(s, ',').len() == 4 ==> curve_complaint(s) == "4 valid numbers"@,
        pieces_of(s, ',').len() != 4 ==> curve_complaint(s) == "4 comma-separated numbers"@,
{
}

} // verus!
