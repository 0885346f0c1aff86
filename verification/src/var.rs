//! The variable expander: finding `{name}` placeholders in a template and
//! replacing them by the values bound to their names.

use crate::text::{chars_of, texts};
use indexmap::IndexMap;
use vstd::prelude::*;
use vstd::string::StringExecFns;

verus! {

/// The names that the scanner emits from position `i` of `s` on, when it
/// arrives there with the name buffer `buf` (`None`: no name is open).
///
/// A `{` opens an empty buffer and a `}` emits and closes the open one; either
/// brace directly followed by its twin is an escape, skipped as a pair without
/// touching the buffer. Every other character goes to the open buffer.
pub open spec fn scan(s: Seq<char>, i: int, buf: Option<Seq<char>>) -> Seq<Seq<char>>
    decreases s.len() - i,
{
    if i < 0 || i >= s.len() {
        Seq::empty()
    } else if s[i] == '{' {
        if i + 1 < s.len() && s[i + 1] == '{' {
            scan(s, i + 2, buf)
        } else {
            scan(s, i + 1, Some(Seq::empty()))
        }
    } else if s[i] == '}' {
        if i + 1 < s.len() && s[i + 1] == '}' {
            scan(s, i + 2, buf)
        } else {
            match buf {
                Some(name) => seq![name] + scan(s, i + 1, None),
                None => scan(s, i + 1, None),
            }
        }
    } else {
        match buf {
            Some(name) => scan(s, i + 1, Some(name.push(s[i]))),
            None => scan(s, i + 1, None),
        }
    }
}

/// The placeholder names of a template, in the order in which they close.
pub open spec fn var_names(s: Seq<char>) -> Seq<Seq<char>> {
    scan(s, 0, None)
}

/// The view of the scanner's buffer.
pub open spec fn buffer_view(buf: Option<String>) -> Option<Seq<char>> {
    match buf {
        Some(name) => Some(name@),
        None => None,
    }
}

/// Scans `input` for placeholders and returns their names in order, or `None`
/// when it holds none.
pub fn parse_var_names(input: &str) -> (r: Option<Vec<String>>)
    ensures
        match r {
            Some(names) => names@.len() > 0 && texts(names@) == var_names(input@),
            None => var_names(input@).len() == 0,
        },
{
    let chars = chars_of(input);
    let n = chars.len();
    let mut result: Vec<String> = Vec::new();
    let mut buf: Option<String> = None;
    let mut i: usize = 0;
    while i < n
        invariant
            n == chars@.len(),
            i <= n,
            texts(result@) + scan(chars@, i as int, buffer_view(buf)) == var_names(chars@),
        decreases n - i,
    {
        let c = chars[i];
        if c == '{' {
            if i + 1 < n && chars[i + 1] == '{' {
                i += 2;
            } else {
                buf = Some(String::new());
                i += 1;
            }
        } else if c == '}' {
            if i + 1 < n && chars[i + 1] == '}' {
                i += 2;
            } else {
                let ghost before = texts(result@);
                match buf {
                    Some(name) => {
                        result.push(name);
                        assert(texts(result@) =~= before + seq![name@]);
                        assert(texts(result@) + scan(chars@, i + 1, None) =~= before + (seq![name@]
                            + scan(chars@, i + 1, None)));
                    },
                    None => {},
                }
                buf = None;
                i += 1;
            }
        } else {
            match buf {
                Some(mut name) => {
                    name.push(c);
                    buf = Some(name);
                },
                None => {},
            }
            i += 1;
        }
    }
    assert(texts(result@) =~= var_names(chars@));
    if result.len() == 0 {
        None
    } else {
        Some(result)
    }
}

/// The placeholder that stands for `name` in a template: the name in braces.
pub open spec fn placeholder(name: Seq<char>) -> Seq<char> {
    seq!['{'] + name + seq!['}']
}

/// Whether `pat` stands in `text` at position `i`.
pub open spec fn occurs_at(text: Seq<char>, pat: Seq<char>, i: int) -> bool {
    0 <= i && i + pat.len() <= text.len() && text.subrange(i, i + pat.len()) == pat
}

/// `text` from position `i` on, with every occurrence of the non-empty `pat`
/// replaced by `value`. Occurrences are taken from left to right and do not
/// overlap; what was put in is not searched again.
pub open spec fn substitute(text: Seq<char>, pat: Seq<char>, value: Seq<char>, i: int) -> Seq<char>
    decreases text.len() - i,
{
    if i < 0 || i >= text.len() {
        Seq::empty()
    } else if pat.len() > 0 && occurs_at(text, pat, i) {
        value + substitute(text, pat, value, i + pat.len())
    } else {
        seq![text[i]] + substitute(text, pat, value, i + 1)
    }
}

/// `text` with every placeholder of `name` replaced by `value`.
pub open spec fn expand_one_spec(text: Seq<char>, name: Seq<char>, value: Seq<char>) -> Seq<char> {
    substitute(text, placeholder(name), value, 0)
}

/// What a placeholder of `name` is replaced by under `vars`: the bound value,
/// or the placeholder itself where the name is unbound.
pub open spec fn bound_value(vars: Map<Seq<char>, Seq<char>>, name: Seq<char>) -> Seq<char> {
    if vars.contains_key(name) {
        vars[name]
    } else {
        placeholder(name)
    }
}

/// `text` after the placeholders of each of `names` have been replaced, one
/// name after the other, by what `vars` binds them to.
pub open spec fn expand_names(
    text: Seq<char>,
    names: Seq<Seq<char>>,
    vars: Map<Seq<char>, Seq<char>>,
) -> Seq<char>
    decreases names.len(),
{
    if names.len() == 0 {
        text
    } else {
        expand_names(
            expand_one_spec(text, names[0], bound_value(vars, names[0])),
            names.skip(1),
            vars,
        )
    }
}

/// The expansion of a template: the names are those found in the template as
/// it was given, so a value that was put in is not scanned for names.
pub open spec fn expand_spec(text: Seq<char>, vars: Map<Seq<char>, Seq<char>>) -> Seq<char> {
    expand_names(text, var_names(text), vars)
}

/// The bindings of variables that bind no name.
pub open spec fn no_bindings() -> Map<Seq<char>, Seq<char>> {
    Map::empty()
}

/// What the variable map binds: each name that it holds, with its value.
pub uninterp spec fn var_bindings(m: IndexMap<String, String>) -> Map<Seq<char>, Seq<char>>;

/// The variables of a configuration: values by name, kept in the order in
/// which they were written.
#[derive(Debug)]
pub struct Vars(pub IndexMap<String, String>);

impl View for Vars {
    type V = Map<Seq<char>, Seq<char>>;

    open spec fn view(&self) -> Map<Seq<char>, Seq<char>> {
        var_bindings(self.0)
    }
}

/// [`IndexMap::get`] returns the value stored for `key` where the map holds
/// the key, and `None` where it does not.
#[verifier::external_body]
fn vars_get<'a>(m: &'a IndexMap<String, String>, key: &str) -> (r: Option<&'a String>)
    ensures
        r is Some <==> var_bindings(*m).contains_key(key@),
        r matches Some(value) ==> value@ == var_bindings(*m)[key@],
{
    m.get(key)
}

/// [`IndexMap::new`] creates a map that holds nothing.
#[verifier::external_body]
fn vars_new() -> (created: IndexMap<String, String>)
    ensures
        var_bindings(created) == no_bindings(),
{
    IndexMap::new()
}

impl Vars {
    /// Variables that bind no name.
    pub fn empty() -> (vars: Vars)
        ensures
            vars@ == no_bindings(),
    {
        Vars(vars_new())
    }

    /// The value bound to `name`, if any.
    pub fn lookup(&self, name: &str) -> (r: Option<&String>)
        ensures
            r is Some <==> self@.contains_key(name@),
            r matches Some(value) ==> value@ == self@[name@],
    {
        vars_get(&self.0, name)
    }
}

/// The placeholder of `name` as a string.
pub fn placeholder_of(name: &str) -> (key: String)
    ensures
        key@ == placeholder(name@),
{
    let mut key = String::new();
    key.push('{');
    key.append(name);
    key.push('}');
    assert(key@ =~= placeholder(name@));
    key
}

/// Whether `pat` stands in `text` at position `i`.
fn matches_at(text: &Vec<char>, pat: &Vec<char>, i: usize) -> (r: bool)
    requires
        i <= text@.len(),
    ensures
        r == occurs_at(text@, pat@, i as int),
{
    let m = pat.len();
    if m > text.len() - i {
        return false;
    }
    let mut j: usize = 0;
    while j < m
        invariant
            m == pat@.len(),
            i + m <= text@.len() <= usize::MAX,
            j <= m,
            forall|k: int| 0 <= k < j ==> text@[i + k] == pat@[k],
        decreases m - j,
    {
        if text[i + j] != pat[j] {
            assert(text@.subrange(i as int, i + m)[j as int] != pat@[j as int]);
            return false;
        }
        j += 1;
    }
    assert(text@.subrange(i as int, i + m) =~= pat@);
    true
}

/// Replaces every occurrence of `pat` in `text` by `value`.
fn replace_all(text: &str, pat: &str, value: &str) -> (r: String)
    requires
        pat@.len() > 0,
    ensures
        r@ == substitute(text@, pat@, value@, 0),
{
    let chars = chars_of(text);
    let pattern = chars_of(pat);
    let n = chars.len();
    let mut out = String::new();
    let mut i: usize = 0;
    while i < n
        invariant
            n == chars@.len(),
            i <= n,
            pattern@.len() > 0,
            out@ + substitute(chars@, pattern@, value@, i as int) == substitute(
                chars@,
                pattern@,
                value@,
                0,
            ),
        decreases n - i,
    {
        let ghost before = out@;
        if matches_at(&chars, &pattern, i) {
            out.append(value);
            assert(out@ + substitute(chars@, pattern@, value@, i + pattern@.len()) =~= before + (
            value@ + substitute(chars@, pattern@, value@, i + pattern@.len())));
            i += pattern.len();
        } else {
            out.push(chars[i]);
            assert(out@ + substitute(chars@, pattern@, value@, i + 1) =~= before + (seq![
                chars@[i as int],
            ] + substitute(chars@, pattern@, value@, i + 1)));
            i += 1;
        }
    }
    assert(out@ =~= substitute(chars@, pattern@, value@, 0));
    out
}

/// Replaces every placeholder of `name` in `text` by `value`, whatever else
/// the text holds.
pub fn expand_one(text: &str, name: &str, value: &str) -> (r: String)
    ensures
        r@ == expand_one_spec(text@, name@, value@),
{
    let key = placeholder_of(name);
    replace_all(text, key.as_str(), value)
}

/// Expands a template: each placeholder whose name `vars` binds is replaced by
/// the bound value, and every other placeholder stays as it is.
pub fn expand(text: &str, vars: &Vars) -> (r: String)
    ensures
        r@ == expand_spec(text@, vars@),
{
    let mut result = String::from_str(text);
    match parse_var_names(text) {
        Some(names) => {
            let mut i: usize = 0;
            assert(texts(names@).skip(0) =~= var_names(text@));
            while i < names.len()
                invariant
                    i <= names@.len(),
                    expand_names(result@, texts(names@).skip(i as int), vars@) == expand_spec(
                        text@,
                        vars@,
                    ),
                decreases names@.len() - i,
            {
                let name = names[i].as_str();
                let key = placeholder_of(name);
                let ghost rest = texts(names@).skip(i as int);
                assert(rest[0] == name@);
                assert(rest.skip(1) =~= texts(names@).skip(i + 1));
                result = match vars.lookup(name) {
                    Some(value) => replace_all(result.as_str(), key.as_str(), value.as_str()),
                    None => replace_all(result.as_str(), key.as_str(), key.as_str()),
                };
                i += 1;
            }
            assert(texts(names@).skip(i as int) =~= Seq::<Seq<char>>::empty());
        },
        None => {},
    }
    result
}

/// Replacing a pattern by itself changes nothing.
pub proof fn lemma_substitute_itself(text: Seq<char>, pat: Seq<char>, i: int)
    requires
        0 <= i <= text.len(),
    ensures
        substitute(text, pat, pat, i) == text.skip(i),
    decreases text.len() - i,
{
    if i >= text.len() {
        assert(text.skip(i) =~= Seq::<char>::empty());
    } else if pat.len() > 0 && occurs_at(text, pat, i) {
        lemma_substitute_itself(text, pat, i + pat.len());
        assert(pat + text.skip(i + pat.len()) =~= text.skip(i)) by {
            assert(text.subrange(i, i + pat.len()) + text.skip(i + pat.len()) =~= text.skip(i));
        }
    } else {
        lemma_substitute_itself(text, pat, i + 1);
        assert(seq![text[i]] + text.skip(i + 1) =~= text.skip(i));
    }
}

/// Names that `vars` does not bind leave a text as it is.
pub proof fn lemma_expand_unbound_names(
    text: Seq<char>,
    names: Seq<Seq<char>>,
    vars: Map<Seq<char>, Seq<char>>,
)
    requires
        forall|k: int| 0 <= k < names.len() ==> !vars.contains_key(#[trigger] names[k]),
    ensures
        expand_names(text, names, vars) == text,
    decreases names.len(),
{
    if names.len() > 0 {
        lemma_substitute_itself(text, placeholder(names[0]), 0);
        assert(text.skip(0) =~= text);
        assert forall|k: int| 0 <= k < names.skip(1).len() implies !vars.contains_key(
            #[trigger] names.skip(1)[k],
        ) by {
            assert(names.skip(1)[k] == names[k + 1]);
        }
        lemma_expand_unbound_names(text, names.skip(1), vars);
    }
}

/// The empty template expands to itself, whatever the variables.
pub proof fn lemma_expand_empty(vars: Map<Seq<char>, Seq<char>>)
    ensures
        expand_spec(Seq::empty(), vars) == Seq::<char>::empty(),
{
}

/// A template in which the scanner finds no placeholder expands to itself,
/// whatever the variables.
pub proof fn lemma_expand_without_placeholders(text: Seq<char>, vars: Map<Seq<char>, Seq<char>>)
    requires
        var_names(text).len() == 0,
    ensures
        expand_spec(text, vars) == text,
{
}

/// A template of whose names `vars` binds none expands to itself: what is
/// unbound is left as it is written.
pub proof fn lemma_expand_unbound(text: Seq<char>, vars: Map<Seq<char>, Seq<char>>)
    requires
        forall|k: int|
            0 <= k < var_names(text).len() ==> !vars.contains_key(#[trigger] var_names(text)[k]),
    ensures
        expand_spec(text, vars) == text,
{
    lemma_expand_unbound_names(text, var_names(text), vars);
}

/// Without variables every template expands to itself.
pub proof fn lemma_expand_no_bindings(text: Seq<char>)
    ensures
        expand_spec(text, no_bindings()) == text,
{
    lemma_expand_unbound(text, no_bindings());
}

} // verus!
