//! Text primitives: everything the configuration reader, the file listing and
//! the search box need to know about strings, stated over sequences of
//! characters.

use vstd::prelude::*;

verus! {

// ---------------------------------------------------------------- std, trusted

/// `String::push` appends one character to the end of the string.
pub assume_specification[ String::push ](s: &mut String, c: char)
    ensures
        final(s)@ == old(s)@.push(c),
;

/// What `str::to_lowercase` returns: the Unicode lowercase mapping of a text.
pub uninterp spec fn lowercased(s: Seq<char>) -> Seq<char>;

/// Calls `str::to_lowercase`. The result is the Unicode lowercase mapping of
/// the argument and depends on nothing else.
#[verifier::external_body]
pub(crate) fn to_lowercase(s: &str) -> (r: String)
    ensures
        r@ == lowercased(s@),
{
    s.to_lowercase()
}

// ---------------------------------------------------------------- conversions

/// The views of a sequence of strings.
pub open spec fn texts(v: Seq<String>) -> Seq<Seq<char>> {
    Seq::new(v.len(), |i: int| v[i]@)
}

/// The view of an optional string.
pub open spec fn opt_text(o: Option<String>) -> Option<Seq<char>> {
    match o {
        Some(s) => Some(s@),
        None => None,
    }
}

pub proof fn texts_push(v: Seq<String>, s: String)
    ensures
        texts(v.push(s)) == texts(v).push(s@),
{
    assert(texts(v.push(s)) =~= texts(v).push(s@));
}

pub fn chars_of(s: &str) -> (v: Vec<char>)
    ensures
        v@ == s@,
{
    let mut v: Vec<char> = Vec::new();
    for c in it: s.chars()
        invariant
            v@ == it.seq().take(it.index()),
            it.seq() == s@,
    {
        v.push(c);
    }
    v
}

/// The characters from `from` up to `to`, as a string.
pub fn string_of(v: &Vec<char>, from: usize, to: usize) -> (s: String)
    requires
        from <= to <= v@.len(),
    ensures
        s@ == v@.subrange(from as int, to as int),
{
    let mut s: String = String::new();
    let mut i: usize = from;
    while i < to
        invariant
            from <= i <= to <= v@.len(),
            s@ == v@.subrange(from as int, i as int),
        decreases to - i,
    {
        s.push(v[i]);
        i = i + 1;
        assert(s@ =~= v@.subrange(from as int, i as int));
    }
    s
}

pub fn copy_of(s: &str) -> (r: String)
    ensures
        r@ == s@,
{
    s.to_owned()
}

/// Appends a copy of a text to a list.
pub fn push_text(v: &mut Vec<String>, s: &str)
    ensures
        texts(final(v)@) == texts(old(v)@).push(s@),
{
    let c: String = copy_of(s);
    proof {
        texts_push(v@, c);
    }
    v.push(c);
}

pub fn copy_opt(o: &Option<String>) -> (r: Option<String>)
    ensures
        opt_text(r) == opt_text(*o),
{
    match o {
        Some(s) => Some(copy_of(s.as_str())),
        None => None,
    }
}

/// Whether two texts are the same.
pub fn same(a: &str, b: &str) -> (r: bool)
    ensures
        r == (a@ == b@),
{
    let x: Vec<char> = chars_of(a);
    let y: Vec<char> = chars_of(b);
    if x.len() != y.len() {
        return false;
    }
    let mut i: usize = 0;
    while i < x.len()
        invariant
            i <= x@.len(),
            x@ == a@,
            y@ == b@,
            x@.len() == y@.len(),
            forall|j: int| 0 <= j < i ==> x@[j] == y@[j],
        decreases x@.len() - i,
    {
        if x[i] != y[i] {
            return false;
        }
        i = i + 1;
    }
    assert(a@ =~= b@);
    true
}

pub fn concat2(a: &str, b: &str) -> (r: String)
    ensures
        r@ == a@ + b@,
{
    let mut r: String = copy_of(a);
    r.append(b);
    r
}

pub fn concat3(a: &str, b: &str, c: &str) -> (r: String)
    ensures
        r@ == a@ + b@ + c@,
{
    let mut r: String = copy_of(a);
    r.append(b);
    r.append(c);
    r
}

// ---------------------------------------------------------------- trimming

/// White space: the characters with the Unicode property `White_Space`.
pub open spec fn is_space(c: char) -> bool {
    ||| '\x09' <= c <= '\x0d'
    ||| c == ' '
    ||| c == '\u{85}'
    ||| c == '\u{a0}'
    ||| c == '\u{1680}'
    ||| '\u{2000}' <= c <= '\u{200a}'
    ||| c == '\u{2028}'
    ||| c == '\u{2029}'
    ||| c == '\u{202f}'
    ||| c == '\u{205f}'
    ||| c == '\u{3000}'
}

fn is_whitespace(c: char) -> (r: bool)
    ensures
        r == is_space(c),
{
    ('\x09' <= c && c <= '\x0d') || c == ' ' || c == '\u{85}' || c == '\u{a0}' || c == '\u{1680}'
        || ('\u{2000}' <= c && c <= '\u{200a}') || c == '\u{2028}' || c == '\u{2029}' || c
        == '\u{202f}' || c == '\u{205f}' || c == '\u{3000}'
}

/// A set of characters to trim.
#[derive(Clone, Copy)]
pub enum Class {
    Space,
    Just(char),
}

pub open spec fn class_has(k: Class, c: char) -> bool {
    match k {
        Class::Space => is_space(c),
        Class::Just(d) => c == d,
    }
}

fn in_class(k: Class, c: char) -> (r: bool)
    ensures
        r == class_has(k, c),
{
    match k {
        Class::Space => is_whitespace(c),
        Class::Just(d) => c == d,
    }
}

/// `s` without its longest prefix of characters from `k`.
pub open spec fn trim_front(s: Seq<char>, k: Class) -> Seq<char>
    decreases s.len(),
{
    if s.len() > 0 && class_has(k, s[0]) {
        trim_front(s.drop_first(), k)
    } else {
        s
    }
}

/// `s` without its longest suffix of characters from `k`.
pub open spec fn trim_back(s: Seq<char>, k: Class) -> Seq<char>
    decreases s.len(),
{
    if s.len() > 0 && class_has(k, s.last()) {
        trim_back(s.drop_last(), k)
    } else {
        s
    }
}

/// `s` without white space at either end.
pub open spec fn trimmed(s: Seq<char>) -> Seq<char> {
    trim_back(trim_front(s, Class::Space), Class::Space)
}

pub fn trim_start_of(s: &str, k: Class) -> (r: String)
    ensures
        r@ == trim_front(s@, k),
{
    let v: Vec<char> = chars_of(s);
    let mut i: usize = 0;
    assert(v@.skip(0) =~= s@);
    while i < v.len() && in_class(k, v[i])
        invariant
            i <= v@.len(),
            trim_front(v@.skip(i as int), k) == trim_front(s@, k),
        decreases v@.len() - i,
    {
        assert(v@.skip(i as int).drop_first() =~= v@.skip(i + 1));
        i = i + 1;
    }
    assert(v@.subrange(i as int, v@.len() as int) =~= v@.skip(i as int));
    string_of(&v, i, v.len())
}

pub fn trim_end_of(s: &str, k: Class) -> (r: String)
    ensures
        r@ == trim_back(s@, k),
{
    let v: Vec<char> = chars_of(s);
    let mut i: usize = v.len();
    assert(v@.take(i as int) =~= s@);
    while i > 0 && in_class(k, v[i - 1])
        invariant
            i <= v@.len(),
            trim_back(v@.take(i as int), k) == trim_back(s@, k),
        decreases i,
    {
        assert(v@.take(i as int).drop_last() =~= v@.take(i - 1));
        i = i - 1;
    }
    assert(v@.subrange(0, i as int) =~= v@.take(i as int));
    string_of(&v, 0, i)
}

pub fn trim(s: &str) -> (r: String)
    ensures
        r@ == trimmed(s@),
{
    let t: String = trim_start_of(s, Class::Space);
    trim_end_of(t.as_str(), Class::Space)
}

/// Trimming removes characters and nothing else: what is left is a stretch
/// of the text it was cut from.
pub proof fn trim_front_is_suffix(s: Seq<char>, k: Class)
    ensures
        trim_front(s, k).len() <= s.len(),
        trim_front(s, k) == s.skip(s.len() - trim_front(s, k).len()),
        trim_front(s, k).len() > 0 ==> !class_has(k, trim_front(s, k)[0]),
    decreases s.len(),
{
    if s.len() > 0 && class_has(k, s[0]) {
        trim_front_is_suffix(s.drop_first(), k);
        let t = trim_front(s, k);
        assert(t =~= s.skip(s.len() - t.len()));
    } else {
        assert(s =~= s.skip(0));
    }
}

pub proof fn trim_back_is_prefix(s: Seq<char>, k: Class)
    ensures
        trim_back(s, k).len() <= s.len(),
        trim_back(s, k) == s.take(trim_back(s, k).len() as int),
        trim_back(s, k).len() > 0 ==> !class_has(k, trim_back(s, k).last()),
    decreases s.len(),
{
    if s.len() > 0 && class_has(k, s.last()) {
        trim_back_is_prefix(s.drop_last(), k);
        let t = trim_back(s, k);
        assert(t =~= s.take(t.len() as int));
    } else {
        assert(s =~= s.take(s.len() as int));
    }
}

/// Trimming a trimmed text changes nothing.
pub proof fn trim_is_idempotent(s: Seq<char>)
    ensures
        trimmed(trimmed(s)) == trimmed(s),
{
    let f = trim_front(s, Class::Space);
    let t = trimmed(s);
    trim_front_is_suffix(s, Class::Space);
    trim_back_is_prefix(f, Class::Space);
    if t.len() > 0 {
        assert(t[0] == f[0]);
        assert(trim_front(t, Class::Space) == t);
        assert(trim_back(t, Class::Space) == t);
    }
}

// ---------------------------------------------------------------- searching

/// The first position of `c` in `s`, or the length of `s` when it is absent.
pub open spec fn first_index(s: Seq<char>, c: char) -> int
    decreases s.len(),
{
    if s.len() == 0 || s[0] == c {
        0
    } else {
        1 + first_index(s.drop_first(), c)
    }
}

/// The last position of `c` in `s`, or -1 when it is absent.
pub open spec fn last_index(s: Seq<char>, c: char) -> int
    decreases s.len(),
{
    if s.len() == 0 || s.last() == c {
        s.len() - 1
    } else {
        last_index(s.drop_last(), c)
    }
}

pub proof fn first_index_bounds(s: Seq<char>, c: char)
    ensures
        0 <= first_index(s, c) <= s.len(),
        first_index(s, c) < s.len() ==> s[first_index(s, c)] == c,
        forall|j: int| 0 <= j < first_index(s, c) ==> s[j] != c,
    decreases s.len(),
{
    if s.len() > 0 && s[0] != c {
        let t = s.drop_first();
        first_index_bounds(t, c);
        assert forall|j: int| 0 <= j < first_index(s, c) implies s[j] != c by {
            if j > 0 {
                assert(s[j] == t[j - 1]);
            }
        }
    }
}

pub proof fn first_index_is(s: Seq<char>, c: char, k: int)
    requires
        0 <= k <= s.len(),
        k < s.len() ==> s[k] == c,
        forall|j: int| 0 <= j < k ==> s[j] != c,
    ensures
        first_index(s, c) == k,
{
    first_index_bounds(s, c);
    let f = first_index(s, c);
    if f < k {
        assert(s[f] != c);
    } else if k < f {
        assert(s[k] != c);
    }
}

pub proof fn last_index_bounds(s: Seq<char>, c: char)
    ensures
        -1 <= last_index(s, c) < s.len(),
        last_index(s, c) >= 0 ==> s[last_index(s, c)] == c,
        forall|j: int| last_index(s, c) < j < s.len() ==> s[j] != c,
    decreases s.len(),
{
    if s.len() > 0 && s.last() != c {
        let t = s.drop_last();
        last_index_bounds(t, c);
        assert forall|j: int| last_index(s, c) < j < s.len() implies s[j] != c by {
            if j < s.len() - 1 {
                assert(s[j] == t[j]);
            }
        }
    }
}

pub proof fn last_index_is(s: Seq<char>, c: char, k: int)
    requires
        -1 <= k < s.len(),
        k >= 0 ==> s[k] == c,
        forall|j: int| k < j < s.len() ==> s[j] != c,
    ensures
        last_index(s, c) == k,
{
    last_index_bounds(s, c);
    let f = last_index(s, c);
    if f < k {
        assert(s[k] != c);
    } else if k < f {
        assert(s[f] != c);
    }
}

pub fn find_char(v: &Vec<char>, from: usize, c: char) -> (k: usize)
    requires
        from <= v@.len(),
    ensures
        from <= k <= v@.len(),
        k - from == first_index(v@.skip(from as int), c),
{
    let mut i: usize = from;
    while i < v.len() && v[i] != c
        invariant
            from <= i <= v@.len(),
            forall|j: int| from <= j < i ==> v@[j] != c,
        decreases v@.len() - i,
    {
        i = i + 1;
    }
    proof {
        first_index_is(v@.skip(from as int), c, i - from);
    }
    i
}

/// `Some` with the last position of `c`, `None` when it is absent.
pub fn rfind_char(v: &Vec<char>, c: char) -> (k: Option<usize>)
    ensures
        match k {
            Some(i) => i == last_index(v@, c) && i < v@.len(),
            None => last_index(v@, c) == -1,
        },
{
    let mut i: usize = v.len();
    while i > 0
        invariant
            i <= v@.len(),
            forall|j: int| i <= j < v@.len() ==> v@[j] != c,
        decreases i,
    {
        if v[i - 1] == c {
            proof {
                last_index_is(v@, c, i - 1);
            }
            return Some(i - 1);
        }
        i = i - 1;
    }
    proof {
        last_index_is(v@, c, -1);
    }
    None
}

pub fn has_char(s: &str, c: char) -> (r: bool)
    ensures
        r == s@.contains(c),
{
    let v: Vec<char> = chars_of(s);
    let mut i: usize = 0;
    while i < v.len()
        invariant
            i <= v@.len(),
            v@ == s@,
            forall|j: int| 0 <= j < i ==> v@[j] != c,
        decreases v@.len() - i,
    {
        if v[i] == c {
            return true;
        }
        i = i + 1;
    }
    false
}

/// `p` is the beginning of `s`.
pub open spec fn has_prefix(s: Seq<char>, p: Seq<char>) -> bool {
    p.len() <= s.len() && s.take(p.len() as int) == p
}

/// `p` is the end of `s`.
pub open spec fn has_suffix(s: Seq<char>, p: Seq<char>) -> bool {
    p.len() <= s.len() && s.skip(s.len() - p.len()) == p
}

/// `p` occurs somewhere in `s`.
pub open spec fn has_infix(s: Seq<char>, p: Seq<char>) -> bool {
    exists|i: int| 0 <= i <= s.len() - p.len() && #[trigger] s.subrange(i, i + p.len()) == p
}

/// Whether the characters of `p` stand in `v` from position `at` on.
fn stands_at(v: &Vec<char>, at: usize, p: &Vec<char>) -> (r: bool)
    requires
        at + p@.len() <= v@.len(),
    ensures
        r == (v@.subrange(at as int, at + p@.len()) == p@),
{
    let n: usize = v.len();
    let mut i: usize = 0;
    while i < p.len()
        invariant
            i <= p@.len(),
            at + p@.len() <= v@.len() == n,
            forall|j: int| 0 <= j < i ==> v@[at + j] == p@[j],
        decreases p@.len() - i,
    {
        if v[at + i] != p[i] {
            assert(v@.subrange(at as int, at + p@.len())[i as int] != p@[i as int]);
            return false;
        }
        i = i + 1;
    }
    assert(v@.subrange(at as int, at + p@.len()) =~= p@);
    true
}

pub fn starts_with(s: &str, p: &str) -> (r: bool)
    ensures
        r == has_prefix(s@, p@),
{
    let v: Vec<char> = chars_of(s);
    let q: Vec<char> = chars_of(p);
    assert(p@.len() <= s@.len() ==> s@.take(p@.len() as int) =~= s@.subrange(0, p@.len() as int));
    q.len() <= v.len() && stands_at(&v, 0, &q)
}

pub fn ends_with(s: &str, p: &str) -> (r: bool)
    ensures
        r == has_suffix(s@, p@),
{
    let v: Vec<char> = chars_of(s);
    let q: Vec<char> = chars_of(p);
    if q.len() > v.len() {
        return false;
    }
    let at: usize = v.len() - q.len();
    assert(s@.skip(at as int) =~= s@.subrange(at as int, at + q@.len()));
    stands_at(&v, at, &q)
}

pub fn contains(s: &str, p: &str) -> (r: bool)
    ensures
        r == has_infix(s@, p@),
{
    let v: Vec<char> = chars_of(s);
    let q: Vec<char> = chars_of(p);
    if q.len() > v.len() {
        return false;
    }
    let last: usize = v.len() - q.len();
    let mut i: usize = 0;
    while i <= last
        invariant
            i <= last + 1,
            last == v@.len() - q@.len(),
            v@ == s@,
            q@ == p@,
            forall|j: int| 0 <= j < i ==> #[trigger] v@.subrange(j, j + q@.len()) != q@,
        decreases last + 1 - i,
    {
        if stands_at(&v, i, &q) {
            return true;
        }
        if i == last {
            return false;
        }
        i = i + 1;
    }
    false
}

// ---------------------------------------------------------------- splitting

/// One line of input without the carriage return before its line feed.
pub open spec fn without_cr(s: Seq<char>) -> Seq<char> {
    if s.len() > 0 && s.last() == '\r' {
        s.drop_last()
    } else {
        s
    }
}

/// The lines of a text: each ends before a line feed or a carriage return and
/// line feed, and a final line feed opens no further line.
pub open spec fn lines_of(s: Seq<char>) -> Seq<Seq<char>>
    decreases s.len(),
{
    if s.len() == 0 {
        seq![]
    } else {
        let k = first_index(s, '\n');
        if 0 <= k < s.len() {
            seq![without_cr(s.take(k))] + lines_of(s.skip(k + 1))
        } else {
            seq![s]
        }
    }
}

pub fn lines(s: &str) -> (r: Vec<String>)
    ensures
        texts(r@) == lines_of(s@),
{
    let v: Vec<char> = chars_of(s);
    let mut r: Vec<String> = Vec::new();
    let mut i: usize = 0;
    assert(v@.skip(0) =~= s@);
    assert(texts(r@) + lines_of(s@) =~= lines_of(s@));
    while i < v.len()
        invariant
            i <= v@.len(),
            v@ == s@,
            texts(r@) + lines_of(v@.skip(i as int)) == lines_of(s@),
        decreases v@.len() - i,
    {
        let ghost rest = v@.skip(i as int);
        let ghost before = r@;
        let k: usize = find_char(&v, i, '\n');
        if k == v.len() {
            let last: String = string_of(&v, i, k);
            proof {
                assert(last@ =~= rest);
                texts_push(before, last);
                assert(texts(before.push(last)) =~= lines_of(s@));
            }
            r.push(last);
            return r;
        }
        let end: usize = if k > i && v[k - 1] == '\r' {
            k - 1
        } else {
            k
        };
        let line: String = string_of(&v, i, end);
        proof {
            assert(rest.take(k - i) =~= v@.subrange(i as int, k as int));
            assert(line@ =~= without_cr(rest.take(k - i)));
            assert(rest.skip(k - i + 1) =~= v@.skip(k + 1));
            texts_push(before, line);
            assert(lines_of(rest) == seq![line@] + lines_of(v@.skip(k + 1)));
            assert(texts(before.push(line)) + lines_of(v@.skip(k + 1)) =~= texts(before)
                + lines_of(rest));
        }
        r.push(line);
        i = k + 1;
    }
    assert(v@.skip(i as int).len() == 0);
    assert(texts(r@) =~= lines_of(s@));
    r
}

/// The pieces of `s` between the occurrences of `c`; a text without `c` is
/// one piece.
pub open spec fn pieces_of(s: Seq<char>, c: char) -> Seq<Seq<char>>
    decreases s.len(),
{
    let k = first_index(s, c);
    if 0 <= k < s.len() {
        seq![s.take(k)] + pieces_of(s.skip(k + 1), c)
    } else {
        seq![s]
    }
}

pub fn split_on(s: &str, c: char) -> (r: Vec<String>)
    ensures
        texts(r@) == pieces_of(s@, c),
{
    let v: Vec<char> = chars_of(s);
    let mut r: Vec<String> = Vec::new();
    let mut i: usize = 0;
    assert(v@.skip(0) =~= s@);
    assert(texts(r@) + pieces_of(s@, c) =~= pieces_of(s@, c));
    loop
        invariant
            i <= v@.len(),
            v@ == s@,
            texts(r@) + pieces_of(v@.skip(i as int), c) == pieces_of(s@, c),
        decreases v@.len() - i,
    {
        let ghost rest = v@.skip(i as int);
        let ghost before = r@;
        let k: usize = find_char(&v, i, c);
        let piece: String = string_of(&v, i, k);
        proof {
            assert(piece@ =~= rest.take(k - i));
            texts_push(before, piece);
        }
        r.push(piece);
        if k == v.len() {
            proof {
                assert(piece@ =~= rest);
                assert(texts(r@) =~= texts(before) + pieces_of(rest, c));
            }
            return r;
        }
        proof {
            assert(rest.skip(k - i + 1) =~= v@.skip(k + 1));
            assert(texts(r@) + pieces_of(v@.skip(k + 1), c) =~= texts(before) + pieces_of(
                rest,
                c,
            ));
        }
        i = k + 1;
    }
}

/// How many characters at the beginning of `s` are not white space.
pub open spec fn word_len(s: Seq<char>) -> nat
    decreases s.len(),
{
    if s.len() == 0 || is_space(s[0]) {
        0
    } else {
        1 + word_len(s.drop_first())
    }
}

/// The maximal stretches of `s` without white space.
pub open spec fn words_of(s: Seq<char>) -> Seq<Seq<char>>
    decreases s.len(),
{
    let t = trim_front(s, Class::Space);
    if t.len() == 0 {
        seq![]
    } else {
        proof {
            trim_front_is_suffix(s, Class::Space);
            word_len_bounds(t);
        }
        let k = word_len(t) as int;
        seq![t.take(k)] + words_of(t.skip(k))
    }
}

pub proof fn word_len_bounds(s: Seq<char>)
    ensures
        word_len(s) <= s.len(),
        forall|j: int| 0 <= j < word_len(s) ==> !is_space(#[trigger] s[j]),
        word_len(s) < s.len() ==> is_space(s[word_len(s) as int]),
        s.len() > 0 && !is_space(s[0]) ==> word_len(s) > 0,
    decreases s.len(),
{
    if s.len() > 0 && !is_space(s[0]) {
        let t = s.drop_first();
        word_len_bounds(t);
        assert forall|j: int| 0 <= j < word_len(s) implies !is_space(#[trigger] s[j]) by {
            if j > 0 {
                assert(s[j] == t[j - 1]);
            }
        }
    }
}

pub proof fn word_len_is(s: Seq<char>, k: nat)
    requires
        k <= s.len(),
        forall|j: int| 0 <= j < k ==> !is_space(#[trigger] s[j]),
        k < s.len() ==> is_space(s[k as int]),
    ensures
        word_len(s) == k,
{
    word_len_bounds(s);
    let w = word_len(s);
    if w < k {
        assert(!is_space(s[w as int]));
    } else if k < w {
        assert(!is_space(s[k as int]));
    }
}

pub fn split_whitespace(s: &str) -> (r: Vec<String>)
    ensures
        texts(r@) == words_of(s@),
{
    let v: Vec<char> = chars_of(s);
    let mut r: Vec<String> = Vec::new();
    let mut i: usize = 0;
    assert(v@.skip(0) =~= s@);
    assert(texts(r@) + words_of(s@) =~= words_of(s@));
    while i < v.len()
        invariant
            i <= v@.len(),
            v@ == s@,
            texts(r@) + words_of(v@.skip(i as int)) == words_of(s@),
        decreases v@.len() - i,
    {
        let ghost rest = v@.skip(i as int);
        let ghost before = r@;
        if is_whitespace(v[i]) {
            proof {
                assert(rest.drop_first() =~= v@.skip(i + 1));
                assert(words_of(rest) == words_of(v@.skip(i + 1)));
            }
            i = i + 1;
        } else {
            let mut k: usize = i + 1;
            while k < v.len() && !is_whitespace(v[k])
                invariant
                    i < k <= v@.len(),
                    forall|j: int| i <= j < k ==> !is_space(#[trigger] v@[j]),
                decreases v@.len() - k,
            {
                k = k + 1;
            }
            let word: String = string_of(&v, i, k);
            proof {
                assert(trim_front(rest, Class::Space) == rest);
                word_len_is(rest, (k - i) as nat);
                assert(word@ =~= rest.take(k - i));
                assert(rest.skip(k - i) =~= v@.skip(k as int));
                texts_push(before, word);
                assert(texts(before.push(word)) + words_of(v@.skip(k as int)) =~= texts(before)
                    + words_of(rest));
            }
            r.push(word);
            i = k;
        }
    }
    assert(v@.skip(i as int).len() == 0);
    assert(texts(r@) =~= words_of(s@));
    r
}

// ---------------------------------------------------------------- ASCII case

pub open spec fn ascii_lower(c: char) -> char {
    if 'A' <= c <= 'Z' {
        (c as u8 + 32) as u8 as char
    } else {
        c
    }
}

pub open spec fn ascii_lowercased(s: Seq<char>) -> Seq<char> {
    Seq::new(s.len(), |i: int| ascii_lower(s[i]))
}

pub fn to_ascii_lower(c: char) -> (r: char)
    ensures
        r == ascii_lower(c),
{
    if 'A' <= c && c <= 'Z' {
        (c as u8 + 32) as char
    } else {
        c
    }
}

pub fn to_ascii_lowercase(s: &str) -> (r: String)
    ensures
        r@ == ascii_lowercased(s@),
{
    let v: Vec<char> = chars_of(s);
    let mut r: String = String::new();
    let mut i: usize = 0;
    while i < v.len()
        invariant
            i <= v@.len(),
            v@ == s@,
            r@ == ascii_lowercased(s@).take(i as int),
        decreases v@.len() - i,
    {
        r.push(to_ascii_lower(v[i]));
        i = i + 1;
        assert(r@ =~= ascii_lowercased(s@).take(i as int));
    }
    assert(r@ =~= ascii_lowercased(s@));
    r
}

// ---------------------------------------------------------------- laws

proof fn leading_space_is_trimmed(a: Seq<char>, m: Seq<char>)
    requires
        forall|i: int| 0 <= i < a.len() ==> is_space(#[trigger] a[i]),
        m.len() > 0 ==> !is_space(m[0]),
    ensures
        trim_front(a + m, Class::Space) == m,
    decreases a.len(),
{
    if a.len() > 0 {
        assert(is_space(a[0]));
        assert((a + m).drop_first() =~= a.drop_first() + m);
        assert forall|i: int| 0 <= i < a.drop_first().len() implies is_space(
            #[trigger] a.drop_first()[i],
        ) by {
            assert(is_space(a[i + 1]));
        }
        leading_space_is_trimmed(a.drop_first(), m);
    } else {
        assert(a + m =~= m);
    }
}

proof fn trailing_space_is_trimmed(m: Seq<char>, b: Seq<char>)
    requires
        forall|i: int| 0 <= i < b.len() ==> is_space(#[trigger] b[i]),
        m.len() > 0 ==> !is_space(m.last()),
    ensures
        trim_back(m + b, Class::Space) == m,
    decreases b.len(),
{
    if b.len() > 0 {
        assert(is_space(b[b.len() - 1]));
        assert((m + b).drop_last() =~= m + b.drop_last());
        assert forall|i: int| 0 <= i < b.drop_last().len() implies is_space(
            #[trigger] b.drop_last()[i],
        ) by {
            assert(is_space(b[i]));
        }
        trailing_space_is_trimmed(m, b.drop_last());
    } else {
        assert(m + b =~= m);
    }
}

/// Trimming takes the white space off both ends and leaves what is between
/// them, white space within it and all.
pub proof fn trimming_leaves_the_middle(a: Seq<char>, m: Seq<char>, b: Seq<char>)
    requires
        forall|i: int| 0 <= i < a.len() ==> is_space(#[trigger] a[i]),
        forall|i: int| 0 <= i < b.len() ==> is_space(#[trigger] b[i]),
        m.len() > 0,
        !is_space(m[0]),
        !is_space(m.last()),
    ensures
        trimmed(a + m + b) == m,
        trimmed(a).len() == 0,
{
    assert(a + m + b =~= a + (m + b));
    leading_space_is_trimmed(a, m + b);
    trailing_space_is_trimmed(m, b);
    assert(a + Seq::<char>::empty() =~= a);
    leading_space_is_trimmed(a, Seq::empty());
}

/// A line feed ends a line, and a carriage return before it goes with it; a
/// text without one is a single line.
pub proof fn line_feeds_end_lines(a: Seq<char>, b: Seq<char>)
    requires
        !a.contains('\n'),
    ensures
        lines_of(a + seq!['\n'] + b) == seq![
            if a.len() > 0 && a.last() == '\r' {
                a.take(a.len() - 1)
            } else {
                a
            },
        ] + lines_of(b),
        a.len() > 0 ==> lines_of(a) == seq![a],
        lines_of(Seq::empty()).len() == 0,
{
    let s = a + seq!['\n'] + b;
    assert(s[a.len() as int] == '\n');
    assert forall|j: int| 0 <= j < a.len() implies s[j] != '\n' by {
        assert(a.contains(a[j]));
    }
    first_index_is(s, '\n', a.len() as int);
    assert(s.take(a.len() as int) =~= a);
    assert(s.skip(a.len() as int + 1) =~= b);
    assert forall|j: int| 0 <= j < a.len() implies a[j] != '\n' by {
        assert(a.contains(a[j]));
    }
    first_index_is(a, '\n', a.len() as int);
}

/// A separator ends a piece; a text without one is a single piece.
pub proof fn separators_end_pieces(a: Seq<char>, b: Seq<char>, c: char)
    requires
        !a.contains(c),
    ensures
        pieces_of(a + seq![c] + b, c) == seq![a] + pieces_of(b, c),
        pieces_of(a, c) == seq![a],
{
    let s = a + seq![c] + b;
    assert(s[a.len() as int] == c);
    assert forall|j: int| 0 <= j < a.len() implies s[j] != c && a[j] != c by {
        assert(a.contains(a[j]));
        assert(s[j] == a[j]);
    }
    first_index_is(s, c, a.len() as int);
    first_index_is(a, c, a.len() as int);
    assert(s.take(a.len() as int) =~= a);
    assert(s.skip(a.len() as int + 1) =~= b);
}

/// Words stand between white space, however much of it there is.
pub proof fn white_space_parts_words(a: Seq<char>, w: Seq<char>, b: Seq<char>)
    requires
        forall|i: int| 0 <= i < a.len() ==> is_space(#[trigger] a[i]),
        w.len() > 0,
        forall|i: int| 0 <= i < w.len() ==> !is_space(#[trigger] w[i]),
        b.len() > 0 ==> is_space(b[0]),
    ensures
        words_of(a + w + b) == seq![w] + words_of(b),
        words_of(a).len() == 0,
{
    let s = a + w + b;
    assert(s =~= a + (w + b));
    assert(!is_space(w[0]));
    leading_space_is_trimmed(a, w + b);
    assert forall|j: int| 0 <= j < w.len() implies !is_space(#[trigger] (w + b)[j]) by {
        assert((w + b)[j] == w[j]);
    }
    word_len_is(w + b, w.len());
    assert((w + b).take(w.len() as int) =~= w);
    assert((w + b).skip(w.len() as int) =~= b);
    assert(a + Seq::<char>::empty() =~= a);
    leading_space_is_trimmed(a, Seq::empty());
}

/// A text begins and ends with what it was put together from, and holds what
/// stands in its middle; and what it begins or ends with can be taken off.
pub proof fn texts_hold_their_parts(a: Seq<char>, m: Seq<char>, b: Seq<char>)
    ensures
        has_prefix(a + b, a),
        has_suffix(a + b, b),
        has_infix(a + m + b, m),
        has_prefix(b, a) ==> b == a + b.skip(a.len() as int),
        has_suffix(b, a) ==> b == b.take(b.len() - a.len()) + a,
        has_infix(b, a) ==> exists|i: int|
            0 <= i && i + a.len() <= b.len() && #[trigger] b.subrange(i, i + a.len()) == a,
{
    assert((a + b).take(a.len() as int) =~= a);
    assert((a + b).skip((a + b).len() - b.len()) =~= b);
    assert((a + m + b).subrange(a.len() as int, a.len() as int + m.len()) =~= m);
    if has_prefix(b, a) {
        assert(b =~= b.take(a.len() as int) + b.skip(a.len() as int));
    }
    if has_suffix(b, a) {
        assert(b =~= b.take(b.len() - a.len()) + b.skip(b.len() - a.len()));
    }
}

/// In lower case, the letters from A to Z are their small counterparts and
/// every other character is itself.
pub proof fn lower_case_folds_ascii_letters(s: Seq<char>, i: int)
    requires
        0 <= i < s.len(),
    ensures
        ascii_lowercased(s).len() == s.len(),
        'A' <= s[i] <= 'Z' ==> ascii_lowercased(s)[i] as int == s[i] as int + 32,
        !('A' <= s[i] <= 'Z') ==> ascii_lowercased(s)[i] == s[i],
        ascii_lowercased(ascii_lowercased(s)) == ascii_lowercased(s),
{
    assert(ascii_lowercased(ascii_lowercased(s)) =~= ascii_lowercased(s));
}

} // verus!
