//! Paths as text: joining, and the expansion of `~` and of environment
//! variables. The environment is a value handed in by the caller.

use vstd::prelude::*;
use crate::text::{chars_of, concat2, concat3, copy_of, has_prefix, same, starts_with, string_of};

verus! {

// ---------------------------------------------------------------- environment

/// Environment variables, by name.
pub struct Env {
    vars: Vec<(String, String)>,
}

spec fn bindings(v: Seq<(String, String)>) -> Map<Seq<char>, Seq<char>>
    decreases v.len(),
{
    if v.len() == 0 {
        Map::empty()
    } else {
        bindings(v.drop_last()).insert(v.last().0@, v.last().1@)
    }
}

impl View for Env {
    type V = Map<Seq<char>, Seq<char>>;

    closed spec fn view(&self) -> Map<Seq<char>, Seq<char>> {
        bindings(self.vars@)
    }
}

impl Env {
    pub fn new() -> (e: Env)
        ensures
            e@ == Map::<Seq<char>, Seq<char>>::empty(),
    {
        Env { vars: Vec::new() }
    }

    /// Gives a variable a value, replacing the one it had.
    pub fn set(&mut self, name: &str, value: &str)
        ensures
            final(self)@ == old(self)@.insert(name@, value@),
    {
        let pair: (String, String) = (copy_of(name), copy_of(value));
        proof {
            let after = self.vars@.push(pair);
            assert(after.drop_last() =~= self.vars@);
        }
        self.vars.push(pair);
    }

    /// The value of a variable, when it is set.
    pub fn get(&self, name: &str) -> (r: Option<String>)
        ensures
            match r {
                Some(v) => self@.dom().contains(name@) && self@[name@] == v@,
                None => !self@.dom().contains(name@),
            },
    {
        let mut i: usize = self.vars.len();
        assert(self.vars@.take(i as int) =~= self.vars@);
        while i > 0
            invariant
                i <= self.vars@.len(),
                self@.dom().contains(name@) == bindings(self.vars@.take(i as int)).dom().contains(
                    name@,
                ),
                self@.dom().contains(name@) ==> self@[name@] == bindings(
                    self.vars@.take(i as int),
                )[name@],
            decreases i,
        {
            let ghost seen = self.vars@.take(i as int);
            assert(seen.drop_last() =~= self.vars@.take(i - 1));
            assert(seen.last() == self.vars@[i - 1]);
            if same(self.vars[i - 1].0.as_str(), name) {
                return Some(copy_of(self.vars[i - 1].1.as_str()));
            }
            i = i - 1;
        }
        None
    }

    /// The value of a variable, empty when it is not set.
    pub fn get_or_empty(&self, name: &str) -> (r: String)
        ensures
            r@ == value_or_empty(self@, name@),
    {
        match self.get(name) {
            Some(v) => v,
            None => String::new(),
        }
    }
}

pub open spec fn value_or_empty(env: Map<Seq<char>, Seq<char>>, name: Seq<char>) -> Seq<char> {
    if env.dom().contains(name) {
        env[name]
    } else {
        Seq::empty()
    }
}

// ---------------------------------------------------------------- joining

/// `rest` below the directory `base`: an absolute `rest` stands for itself,
/// and a separator is added where `base` does not end in one.
pub open spec fn joined(base: Seq<char>, rest: Seq<char>) -> Seq<char> {
    if (rest.len() > 0 && rest[0] == '/') || base.len() == 0 {
        rest
    } else if base.last() == '/' {
        base + rest
    } else {
        base + "/"@ + rest
    }
}

pub fn join_path(base: &str, rest: &str) -> (r: String)
    ensures
        r@ == joined(base@, rest@),
{
    let b: Vec<char> = chars_of(base);
    let t: Vec<char> = chars_of(rest);
    if (t.len() > 0 && t[0] == '/') || b.len() == 0 {
        copy_of(rest)
    } else if b[b.len() - 1] == '/' {
        concat2(base, rest)
    } else {
        concat3(base, "/", rest)
    }
}

/// What lies below a directory is named by the directory's path, then the
/// rest; joining twice is joining once with the joined rest.
pub proof fn joining_is_associative(a: Seq<char>, b: Seq<char>, c: Seq<char>)
    requires
        b.len() > 0,
    ensures
        joined(joined(a, b), c) == joined(a, joined(b, c)),
{
    reveal_strlit("/");
    if c.len() > 0 && c[0] == '/' {
    } else if b[0] == '/' || a.len() == 0 {
        assert(joined(b, c)[0] == b[0]);
    } else {
        assert(joined(joined(a, b), c) =~= joined(a, joined(b, c)));
    }
}

// ---------------------------------------------------------------- expansion

/// Where an XDG base directory lies below the home directory when its
/// variable is unset.
pub open spec fn xdg_fallback(name: Seq<char>) -> Option<Seq<char>> {
    if name == "XDG_CACHE_HOME"@ {
        Some(".cache"@)
    } else if name == "XDG_CONFIG_HOME"@ {
        Some(".config"@)
    } else if name == "XDG_DATA_HOME"@ {
        Some(".local/share"@)
    } else if name == "XDG_STATE_HOME"@ {
        Some(".local/state"@)
    } else {
        None
    }
}

/// What a variable stands for in a path: its value when that is not empty,
/// else the XDG default below a known home directory, else nothing.
pub open spec fn path_var(
    name: Seq<char>,
    home: Seq<char>,
    env: Map<Seq<char>, Seq<char>>,
) -> Seq<char> {
    if value_or_empty(env, name).len() > 0 {
        env[name]
    } else if xdg_fallback(name) is Some && home.len() > 0 {
        home + "/"@ + xdg_fallback(name)->0
    } else {
        Seq::empty()
    }
}

pub fn lookup_path_var(name: &str, home: &str, env: &Env) -> (r: String)
    ensures
        r@ == path_var(name@, home@, env@),
{
    let fallback: Option<&str> = if same(name, "XDG_CACHE_HOME") {
        Some(".cache")
    } else if same(name, "XDG_CONFIG_HOME") {
        Some(".config")
    } else if same(name, "XDG_DATA_HOME") {
        Some(".local/share")
    } else if same(name, "XDG_STATE_HOME") {
        Some(".local/state")
    } else {
        None
    };
    let value: String = env.get_or_empty(name);
    if !value.as_str().is_empty() {
        return value;
    }
    match fallback {
        Some(rel) => if !home.is_empty() {
            concat3(home, "/", rel)
        } else {
            String::new()
        },
        None => String::new(),
    }
}

/// A leading `~`, alone or before a separator, is the home directory.
pub open spec fn with_home(input: Seq<char>, home: Seq<char>) -> Seq<char> {
    if input == "~"@ {
        home
    } else if has_prefix(input, "~/"@) {
        home + "/"@ + input.skip(2)
    } else {
        input
    }
}

pub open spec fn is_name_char(c: char) -> bool {
    'a' <= c <= 'z' || 'A' <= c <= 'Z' || '0' <= c <= '9' || c == '_'
}

/// How far a variable's name reaches: up to the closing brace when it stands
/// in braces, else over letters, digits and underscores.
pub open spec fn name_len(s: Seq<char>, braced: bool) -> nat
    decreases s.len(),
{
    if s.len() == 0 || (if braced {
        s[0] == '}'
    } else {
        !is_name_char(s[0])
    }) {
        0
    } else {
        1 + name_len(s.drop_first(), braced)
    }
}

/// `s` with every `$NAME` and `${NAME}` replaced; a `$` that names nothing
/// stays a `$`.
pub open spec fn expand_vars(
    s: Seq<char>,
    home: Seq<char>,
    env: Map<Seq<char>, Seq<char>>,
) -> Seq<char>
    decreases s.len(),
{
    if s.len() == 0 {
        s
    } else if s[0] != '$' {
        seq![s[0]] + expand_vars(s.skip(1), home, env)
    } else {
        let braced = s.len() > 1 && s[1] == '{';
        let start: int = if braced {
            2
        } else {
            1
        };
        let end = start + name_len(s.skip(start), braced);
        let name = s.subrange(start, end);
        let next = if braced && end < s.len() {
            end + 1
        } else {
            end
        };
        let value = if name.len() == 0 {
            seq!['$']
        } else {
            path_var(name, home, env)
        };
        if 0 < next <= s.len() {
            value + expand_vars(s.skip(next), home, env)
        } else {
            value
        }
    }
}

/// A path as written in the configuration, expanded.
pub open spec fn expanded(input: Seq<char>, env: Map<Seq<char>, Seq<char>>) -> Seq<char> {
    let home = value_or_empty(env, "HOME"@);
    expand_vars(with_home(input, home), home, env)
}

fn scan_name(v: &Vec<char>, from: usize, braced: bool) -> (end: usize)
    requires
        from <= v@.len(),
    ensures
        end == from + name_len(v@.skip(from as int), braced),
        from <= end <= v@.len(),
{
    let mut i: usize = from;
    while i < v.len()
        invariant
            from <= i <= v@.len(),
            i - from + name_len(v@.skip(i as int), braced) == name_len(
                v@.skip(from as int),
                braced,
            ),
        decreases v@.len() - i,
    {
        let c: char = v[i];
        let stop: bool = if braced {
            c == '}'
        } else {
            !(('a' <= c && c <= 'z') || ('A' <= c && c <= 'Z') || ('0' <= c && c <= '9') || c
                == '_')
        };
        if stop {
            return i;
        }
        assert(v@.skip(i as int).drop_first() =~= v@.skip(i + 1));
        i = i + 1;
    }
    i
}

fn expand_home(input: &str, home: &str) -> (r: String)
    ensures
        r@ == with_home(input@, home@),
{
    proof {
        reveal_strlit("~/");
    }
    if same(input, "~") {
        copy_of(home)
    } else if starts_with(input, "~/") {
        let v: Vec<char> = chars_of(input);
        let rest: String = string_of(&v, 2, v.len());
        assert(rest@ =~= input@.skip(2));
        concat3(home, "/", rest.as_str())
    } else {
        copy_of(input)
    }
}

/// Expands a leading `~` and all `$NAME` and `${NAME}` references.
pub fn expand_path(input: &str, env: &Env) -> (r: String)
    ensures
        r@ == expanded(input@, env@),
{
    let home: String = env.get_or_empty("HOME");
    let full: String = expand_home(input, home.as_str());
    let v: Vec<char> = chars_of(full.as_str());
    let mut out: String = String::new();
    let mut i: usize = 0;
    assert(v@.skip(0) =~= full@);
    assert(out@ + expand_vars(full@, home@, env@) =~= expand_vars(full@, home@, env@));
    while i < v.len()
        invariant
            i <= v@.len(),
            v@ == full@,
            out@ + expand_vars(v@.skip(i as int), home@, env@) == expand_vars(
                full@,
                home@,
                env@,
            ),
        decreases v@.len() - i,
    {
        let ghost rest = v@.skip(i as int);
        let ghost before = out@;
        if v[i] != '$' {
            out.push(v[i]);
            proof {
                assert(rest.skip(1) =~= v@.skip(i + 1));
                assert(out@ + expand_vars(v@.skip(i + 1), home@, env@) =~= before + expand_vars(
                    rest,
                    home@,
                    env@,
                ));
            }
            i = i + 1;
        } else {
            let braced: bool = i + 1 < v.len() && v[i + 1] == '{';
            let start: usize = if braced {
                i + 2
            } else {
                i + 1
            };
            let end: usize = scan_name(&v, start, braced);
            let next: usize = if braced && end < v.len() {
                end + 1
            } else {
                end
            };
            let name: String = string_of(&v, start, end);
            let value: String = if start == end {
                copy_of("$")
            } else {
                lookup_path_var(name.as_str(), home.as_str(), env)
            };
            out.append(value.as_str());
            proof {
                reveal_strlit("$");
                assert("$"@ =~= seq!['$']);
                assert(rest.skip(start - i) =~= v@.skip(start as int));
                assert(name@ =~= rest.subrange(start - i, end - i));
                assert(rest.skip(next - i) =~= v@.skip(next as int));
                assert(expand_vars(rest, home@, env@) == value@ + expand_vars(
                    v@.skip(next as int),
                    home@,
                    env@,
                ));
                assert(out@ + expand_vars(v@.skip(next as int), home@, env@) =~= before
                    + expand_vars(rest, home@, env@));
            }
            i = next;
        }
    }
    assert(v@.skip(i as int).len() == 0);
    assert(out@ =~= expand_vars(full@, home@, env@));
    out
}

proof fn plain_text_expands_to_itself(
    s: Seq<char>,
    home: Seq<char>,
    env: Map<Seq<char>, Seq<char>>,
)
    requires
        !s.contains('$'),
    ensures
        expand_vars(s, home, env) == s,
    decreases s.len(),
{
    if s.len() > 0 {
        assert(s.contains(s[0]));
        let t = s.skip(1);
        assert forall|c: char| t.contains(c) implies s.contains(c) by {
            let j = choose|j: int| 0 <= j < t.len() && t[j] == c;
            assert(s[j + 1] == c);
        }
        plain_text_expands_to_itself(t, home, env);
        assert(seq![s[0]] + t =~= s);
    }
}

/// A path without `$` that does not begin with `~` expands to itself,
/// whatever the environment holds.
pub proof fn plain_paths_are_untouched(input: Seq<char>, env: Map<Seq<char>, Seq<char>>)
    requires
        !input.contains('$'),
        input.len() > 0 ==> input[0] != '~',
    ensures
        expanded(input, env) == input,
{
    reveal_strlit("~");
    reveal_strlit("~/");
    let home = value_or_empty(env, "HOME"@);
    if has_prefix(input, "~/"@) {
        assert(input.take(2)[0] == input[0]);
    }
    plain_text_expands_to_itself(input, home, env);
}

/// An unset or empty XDG base directory never collapses to nothing while the
/// home directory is known.
pub proof fn xdg_directories_have_a_default(
    name: Seq<char>,
    home: Seq<char>,
    env: Map<Seq<char>, Seq<char>>,
)
    requires
        xdg_fallback(name) is Some,
        home.len() > 0,
    ensures
        path_var(name, home, env).len() > 0,
        value_or_empty(env, name).len() == 0 ==> path_var(name, home, env) == home + "/"@
            + xdg_fallback(name)->0,
        value_or_empty(env, name).len() > 0 ==> path_var(name, home, env) == env[name],
{
}

/// A variable without an XDG default that is unset stands for nothing.
pub proof fn other_variables_have_no_default(
    name: Seq<char>,
    home: Seq<char>,
    env: Map<Seq<char>, Seq<char>>,
)
    requires
        xdg_fallback(name) is None,
    ensures
        path_var(name, home, env) == value_or_empty(env, name),
{
    assert(value_or_empty(env, name).len() == 0 ==> value_or_empty(env, name) =~= Seq::empty());
}

// ---------------------------------------------------------------- defaults

/// `rest` below the home directory, or on its own when that is not known.
pub open spec fn below_home(rest: Seq<char>, env: Map<Seq<char>, Seq<char>>) -> Seq<char> {
    let home = value_or_empty(env, "HOME"@);
    if home.len() > 0 {
        joined(home, rest)
    } else {
        rest
    }
}

/// `rest` below the user's cache directory.
pub open spec fn below_cache(rest: Seq<char>, env: Map<Seq<char>, Seq<char>>) -> Seq<char> {
    let base = value_or_empty(env, "XDG_CACHE_HOME"@);
    if base.len() > 0 {
        joined(base, rest)
    } else {
        below_home(".cache/"@ + rest, env)
    }
}

pub fn home_relative(rest: &str, env: &Env) -> (r: String)
    ensures
        r@ == below_home(rest@, env@),
{
    let home: String = env.get_or_empty("HOME");
    if home.as_str().is_empty() {
        copy_of(rest)
    } else {
        join_path(home.as_str(), rest)
    }
}

pub fn cache_relative(rest: &str, env: &Env) -> (r: String)
    ensures
        r@ == below_cache(rest@, env@),
{
    let base: String = env.get_or_empty("XDG_CACHE_HOME");
    if base.as_str().is_empty() {
        let below: String = concat2(".cache/", rest);
        home_relative(below.as_str(), env)
    } else {
        join_path(base.as_str(), rest)
    }
}

// ---------------------------------------------------------------- laws

/// Below a directory: its path, one separator, and the name. A directory that
/// ends in a separator needs no other; what is absolute stands for itself.
pub proof fn paths_are_joined_by_one_separator(dir: Seq<char>, name: Seq<char>)
    ensures
        name.len() > 0 && name[0] == '/' ==> joined(dir, name) == name,
        dir.len() == 0 ==> joined(dir, name) == name,
        dir.len() > 0 && dir.last() != '/' && (name.len() == 0 || name[0] != '/') ==> joined(
            dir,
            name,
        ) == dir + seq!['/'] + name,
        dir.len() > 0 && dir.last() == '/' && (name.len() == 0 || name[0] != '/') ==> joined(
            dir,
            name,
        ) == dir + name,
{
    reveal_strlit("/");
    assert("/"@ =~= seq!['/']);
}

proof fn plain_fronts_are_kept(
    a: Seq<char>,
    b: Seq<char>,
    home: Seq<char>,
    env: Map<Seq<char>, Seq<char>>,
)
    requires
        !a.contains('$'),
    ensures
        expand_vars(a + b, home, env) == a + expand_vars(b, home, env),
    decreases a.len(),
{
    if a.len() > 0 {
        let s = a + b;
        assert(a.contains(a[0]));
        assert(s[0] == a[0]);
        assert(s.skip(1) =~= a.skip(1) + b);
        assert forall|c: char| a.skip(1).contains(c) implies a.contains(c) by {
            let j = choose|j: int| 0 <= j < a.skip(1).len() && a.skip(1)[j] == c;
            assert(a[j + 1] == c);
        }
        plain_fronts_are_kept(a.skip(1), b, home, env);
        assert(seq![s[0]] + (a.skip(1) + expand_vars(b, home, env)) =~= a + expand_vars(
            b,
            home,
            env,
        ));
    } else {
        assert(a + b =~= b);
        assert(a + expand_vars(b, home, env) =~= expand_vars(b, home, env));
    }
}

proof fn names_reach_to_their_end(name: Seq<char>, rest: Seq<char>, braced: bool)
    requires
        forall|i: int|
            0 <= i < name.len() ==> if braced {
                #[trigger] name[i] != '}'
            } else {
                is_name_char(#[trigger] name[i])
            },
        rest.len() > 0 ==> if braced {
            rest[0] == '}'
        } else {
            !is_name_char(rest[0])
        },
    ensures
        name_len(name + rest, braced) == name.len(),
    decreases name.len(),
{
    let s = name + rest;
    if name.len() > 0 {
        assert(s[0] == name[0]);
        assert(s.drop_first() =~= name.drop_first() + rest);
        assert forall|i: int| 0 <= i < name.drop_first().len() implies if braced {
            #[trigger] name.drop_first()[i] != '}'
        } else {
            is_name_char(#[trigger] name.drop_first()[i])
        } by {
            assert(name.drop_first()[i] == name[i + 1]);
        }
        names_reach_to_their_end(name.drop_first(), rest, braced);
    } else {
        assert(s =~= rest);
    }
}

/// A variable in a path is replaced by what it stands for, with or without
/// braces, and what stands before and after it is kept: a name reaches over
/// letters, digits and underscores, or up to its closing brace. A `$` without a
/// name stays.
pub proof fn variables_are_replaced(
    before: Seq<char>,
    name: Seq<char>,
    after: Seq<char>,
    home: Seq<char>,
    env: Map<Seq<char>, Seq<char>>,
)
    requires
        !before.contains('$'),
        name.len() > 0,
        forall|i: int| 0 <= i < name.len() ==> is_name_char(#[trigger] name[i]),
    ensures
        after.len() == 0 || !is_name_char(after[0]) ==> expand_vars(
            before + (seq!['$'] + name + after),
            home,
            env,
        ) == before + path_var(name, home, env) + expand_vars(after, home, env),
        expand_vars(before + (seq!['$', '{'] + name + seq!['}'] + after), home, env) == before
            + path_var(name, home, env) + expand_vars(after, home, env),
        after.len() == 0 || (!is_name_char(after[0]) && after[0] != '{') ==> expand_vars(
            before + (seq!['$'] + after),
            home,
            env,
        ) == before + seq!['$'] + expand_vars(after, home, env),
{
    let value = path_var(name, home, env);
    let tail = expand_vars(after, home, env);
    if after.len() == 0 || !is_name_char(after[0]) {
        let s = seq!['$'] + name + after;
        assert(is_name_char(name[0]));
        assert(s[1] == name[0]);
        assert(s.skip(1) =~= name + after);
        names_reach_to_their_end(name, after, false);
        assert(s.subrange(1, 1 + name.len() as int) =~= name);
        assert(s.skip(1 + name.len() as int) =~= after);
        plain_fronts_are_kept(before, s, home, env);
        assert(before + (value + tail) =~= before + value + tail);
    }
    let b = seq!['$', '{'] + name + seq!['}'] + after;
    let close = seq!['}'] + after;
    assert(b.skip(2) =~= name + close);
    assert forall|i: int| 0 <= i < name.len() implies #[trigger] name[i] != '}' by {
        assert(is_name_char(name[i]));
    }
    names_reach_to_their_end(name, close, true);
    assert(b.subrange(2, 2 + name.len() as int) =~= name);
    assert(b.skip(3 + name.len() as int) =~= after);
    plain_fronts_are_kept(before, b, home, env);
    assert(before + (value + tail) =~= before + value + tail);
    if after.len() == 0 || (!is_name_char(after[0]) && after[0] != '{') {
        let d = seq!['$'] + after;
        let none = Seq::<char>::empty();
        assert(d.skip(1) =~= after);
        assert(none + after =~= after);
        names_reach_to_their_end(none, after, false);
        assert(d.subrange(1, 1) =~= none);
        plain_fronts_are_kept(before, d, home, env);
        assert(before + (seq!['$'] + tail) =~= before + seq!['$'] + tail);
    }
}

/// A leading `~` is the home directory: alone, or before a separator. Anywhere
/// else it is itself.
pub proof fn the_tilde_is_home(rest: Seq<char>, env: Map<Seq<char>, Seq<char>>)
    requires
        env.dom().contains("HOME"@),
        !env["HOME"@].contains('$'),
    ensures
        expanded(seq!['~'], env) == env["HOME"@],
        expanded(seq!['~', '/'] + rest, env) == env["HOME"@] + seq!['/'] + expand_vars(
            rest,
            env["HOME"@],
            env,
        ),
        !rest.contains('$') ==> expanded(seq!['~', '/'] + rest, env) == env["HOME"@] + seq!['/']
            + rest,
        !rest.contains('$') && rest.len() > 0 && rest[0] != '/' ==> expanded(seq!['~'] + rest, env)
            == seq!['~'] + rest,
        rest.len() > 0 && rest[0] != '~' ==> expanded(rest, env) == expand_vars(
            rest,
            env["HOME"@],
            env,
        ),
{
    reveal_strlit("~");
    reveal_strlit("~/");
    reveal_strlit("/");
    let home = env["HOME"@];
    assert("~"@ =~= seq!['~']);
    assert("/"@ =~= seq!['/']);
    plain_text_expands_to_itself(home, home, env);
    let s = seq!['~', '/'] + rest;
    assert(s.take(2) =~= "~/"@);
    assert(s.skip(2) =~= rest);
    assert(s.len() >= 2 && "~"@.len() == 1);
    let front = home + "/"@;
    assert(!front.contains('$')) by {
        if front.contains('$') {
            let j = choose|j: int| 0 <= j < front.len() && front[j] == '$';
            if j < home.len() {
                assert(home.contains(home[j]));
            }
        }
    }
    plain_fronts_are_kept(front, rest, home, env);
    if !rest.contains('$') {
        plain_text_expands_to_itself(rest, home, env);
        let u = seq!['~'] + rest;
        assert(!u.contains('$')) by {
            if u.contains('$') {
                let j = choose|j: int| 0 <= j < u.len() && u[j] == '$';
                if j > 0 {
                    assert(rest.contains(rest[j - 1]));
                }
            }
        }
        plain_text_expands_to_itself(u, home, env);
        if rest.len() > 0 && rest[0] != '/' {
            assert(u.len() >= 2);
            if has_prefix(u, "~/"@) {
                assert(u.take(2)[1] == u[1]);
            }
        }
    }
    if rest.len() > 0 && rest[0] != '~' && has_prefix(rest, "~/"@) {
        assert(rest.take(2)[0] == rest[0]);
    }
}

/// The base directories have their places below the home directory.
pub proof fn base_directories_have_their_places(home: Seq<char>, env: Map<Seq<char>, Seq<char>>)
    requires
        home.len() > 0,
    ensures
        value_or_empty(env, "XDG_CACHE_HOME"@).len() == 0 ==> path_var(
            "XDG_CACHE_HOME"@,
            home,
            env,
        ) == home + "/"@ + ".cache"@,
        value_or_empty(env, "XDG_CONFIG_HOME"@).len() == 0 ==> path_var(
            "XDG_CONFIG_HOME"@,
            home,
            env,
        ) == home + "/"@ + ".config"@,
        value_or_empty(env, "XDG_DATA_HOME"@).len() == 0 ==> path_var("XDG_DATA_HOME"@, home, env)
            == home + "/"@ + ".local/share"@,
        value_or_empty(env, "XDG_STATE_HOME"@).len() == 0 ==> path_var(
            "XDG_STATE_HOME"@,
            home,
            env,
        ) == home + "/"@ + ".local/state"@,
        forall|name: Seq<char>|
            #![trigger path_var(name, home, env)]
            env.dom().contains(name) && env[name].len() > 0 ==> path_var(name, home, env)
                == env[name],
        forall|name: Seq<char>|
            #![trigger path_var(name, home, env)]
            name != "XDG_CACHE_HOME"@ && name != "XDG_CONFIG_HOME"@ && name != "XDG_DATA_HOME"@
                && name != "XDG_STATE_HOME"@ && !env.dom().contains(name) ==> path_var(
                name,
                home,
                env,
            ).len() == 0,
{
    reveal_strlit("XDG_CACHE_HOME");
    reveal_strlit("XDG_CONFIG_HOME");
    reveal_strlit("XDG_DATA_HOME");
    reveal_strlit("XDG_STATE_HOME");
    assert("XDG_CACHE_HOME"@[4] == 'C' && "XDG_STATE_HOME"@[4] == 'S');
    assert("XDG_CACHE_HOME"@.len() == 14 && "XDG_STATE_HOME"@.len() == 14);
    assert("XDG_CONFIG_HOME"@.len() == 15 && "XDG_DATA_HOME"@.len() == 13);
}

/// What lies in the home or the cache directory by default lies below them:
/// below `HOME`, and below `XDG_CACHE_HOME` or else `.cache` in the home
/// directory.
pub proof fn defaults_lie_below_their_directories(
    rest: Seq<char>,
    env: Map<Seq<char>, Seq<char>>,
)
    requires
        rest.len() > 0,
        rest[0] != '/',
        env.dom().contains("HOME"@),
        env["HOME"@].len() > 0,
        env["HOME"@].last() != '/',
    ensures
        below_home(rest, env) == env["HOME"@] + "/"@ + rest,
        value_or_empty(env, "XDG_CACHE_HOME"@).len() == 0 ==> below_cache(rest, env) == env["HOME"@]
            + "/"@ + (".cache/"@ + rest),
        ({
            let base = value_or_empty(env, "XDG_CACHE_HOME"@);
            base.len() > 0 && base.last() != '/' ==> below_cache(rest, env)
                == env["XDG_CACHE_HOME"@] + "/"@ + rest
        }),
{
    reveal_strlit(".cache/");
    assert((".cache/"@ + rest)[0] == ".cache/"@[0]);
}

/// A name in braces reaches up to the closing brace, whatever it holds, or to
/// the end of the text where there is none; empty braces leave the `$`.
pub proof fn braces_hold_any_name(
    before: Seq<char>,
    name: Seq<char>,
    after: Seq<char>,
    home: Seq<char>,
    env: Map<Seq<char>, Seq<char>>,
)
    requires
        !before.contains('$'),
        !name.contains('}'),
    ensures
        name.len() > 0 ==> expand_vars(
            before + (seq!['$', '{'] + name + seq!['}'] + after),
            home,
            env,
        ) == before + path_var(name, home, env) + expand_vars(after, home, env),
        name.len() == 0 ==> expand_vars(
            before + (seq!['$', '{'] + name + seq!['}'] + after),
            home,
            env,
        ) == before + seq!['$'] + expand_vars(after, home, env),
        name.len() > 0 ==> expand_vars(before + (seq!['$', '{'] + name), home, env) == before
            + path_var(name, home, env),
{
    let value = if name.len() == 0 {
        seq!['$']
    } else {
        path_var(name, home, env)
    };
    let none = Seq::<char>::empty();
    let tail = expand_vars(after, home, env);
    assert forall|i: int| 0 <= i < name.len() implies #[trigger] name[i] != '}' by {
        assert(name.contains(name[i]));
    }
    let b = seq!['$', '{'] + name + seq!['}'] + after;
    let close = seq!['}'] + after;
    assert(b.skip(2) =~= name + close);
    names_reach_to_their_end(name, close, true);
    assert(b.subrange(2, 2 + name.len() as int) =~= name);
    assert(b.skip(3 + name.len() as int) =~= after);
    plain_fronts_are_kept(before, b, home, env);
    assert(before + (value + tail) =~= before + value + tail);
    let u = seq!['$', '{'] + name;
    assert(u.skip(2) =~= name + none);
    names_reach_to_their_end(name, none, true);
    assert(u.subrange(2, 2 + name.len() as int) =~= name);
    assert(u.skip(2 + name.len() as int) =~= none);
    plain_fronts_are_kept(before, u, home, env);
    assert(expand_vars(none, home, env) == none);
    assert(before + (value + none) =~= before + value);
}

/// A path is expanded in the environment's home directory, which is empty where
/// it is not known: first a leading `~`, then the variables.
pub proof fn paths_are_expanded_at_home(input: Seq<char>, env: Map<Seq<char>, Seq<char>>)
    ensures
        ({
            let home = if env.dom().contains("HOME"@) {
                env["HOME"@]
            } else {
                Seq::empty()
            };
            let full = if input == seq!['~'] {
                home
            } else if input.len() >= 2 && input[0] == '~' && input[1] == '/' {
                home + seq!['/'] + input.skip(2)
            } else {
                input
            };
            expanded(input, env) == expand_vars(full, home, env)
        }),
{
    reveal_strlit("~");
    reveal_strlit("~/");
    reveal_strlit("/");
    assert("~"@ =~= seq!['~']);
    assert("/"@ =~= seq!['/']);
    if input.len() >= 2 {
        assert(input.take(2)[0] == input[0] && input.take(2)[1] == input[1]);
        if input[0] == '~' && input[1] == '/' {
            assert(input.take(2) =~= "~/"@);
        }
    }
}

/// What lies in the home directory by default is joined to it, and stands alone
/// where it is not known; what lies in the cache is joined to the cache
/// directory, and else lies below `.cache` at home.
pub proof fn defaults_are_joined_to_their_directories(
    rest: Seq<char>,
    env: Map<Seq<char>, Seq<char>>,
)
    ensures
        ({
            let home = value_or_empty(env, "HOME"@);
            let cache = value_or_empty(env, "XDG_CACHE_HOME"@);
            &&& home.len() > 0 ==> below_home(rest, env) == joined(home, rest)
            &&& home.len() == 0 ==> below_home(rest, env) == rest
            &&& cache.len() > 0 ==> below_cache(rest, env) == joined(cache, rest)
            &&& cache.len() == 0 ==> below_cache(rest, env) == below_home(".cache/"@ + rest, env)
        }),
        forall|name: Seq<char>|
            #[trigger] value_or_empty(env, name) == (if env.dom().contains(name) {
                env[name]
            } else {
                Seq::empty()
            }),
{
}

} // verus!
