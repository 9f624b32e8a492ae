//! The rules behind the `#[component]` attribute and the `view!` tags:
//! the default class and description a component's root node gets, the
//! token-level guess at whether its body reads reactive state, and which
//! attributes each tag accepts and requires.

use vstd::prelude::*;

use crate::text::{chars_of, is_white, push_char, push_str, str_eq, white};
use crate::ui_tree::NodeMeta;

verus! {

broadcast use vstd::string::group_string_axioms;

/// `ident` with every underscore replaced by a hyphen.
pub open spec fn kebab_of(ident: Seq<char>) -> Seq<char> {
    ident.map_values(|c: char| if c == '_' { '-' } else { c })
}

/// The kebab-case of a function name (`counter_row` becomes
/// `counter-row`), the default class of a component's root node.
pub fn kebab_case(ident: &str) -> (r: String)
    ensures
        r@ == kebab_of(ident@),
{
    let cs = chars_of(ident);
    let mut r = String::new();
    let mut i: usize = 0;
    while i < cs.len()
        invariant
            i <= cs@.len(),
            cs@ == ident@,
            r@ == kebab_of(ident@.take(i as int)),
        decreases cs.len() - i,
    {
        let c = cs[i];
        push_char(&mut r, if c == '_' { '-' } else { c });
        assert(kebab_of(ident@.take(i + 1)) =~= kebab_of(ident@.take(i as int)).push(
            if c == '_' { '-' } else { c },
        ));
        i += 1;
    }
    assert(ident@.take(cs@.len() as int) =~= ident@);
    r
}

/// `s` without its leading and trailing whitespace.
pub open spec fn trimmed(s: Seq<char>) -> Seq<char>
    decreases s.len(),
{
    if s.len() > 0 && is_white(s[0]) {
        trimmed(s.skip(1))
    } else if s.len() > 0 && is_white(s.last()) {
        trimmed(s.drop_last())
    } else {
        s
    }
}

proof fn lemma_trim_prefix(s: Seq<char>, i: int)
    requires
        0 <= i <= s.len(),
        forall|k: int| 0 <= k < i ==> is_white(#[trigger] s[k]),
    ensures
        trimmed(s) == trimmed(s.skip(i)),
    decreases i,
{
    if i == 0 {
        assert(s.skip(0) =~= s);
    } else {
        assert(is_white(s[0]));
        let t = s.skip(1);
        assert forall|k: int| 0 <= k < i - 1 implies is_white(#[trigger] t[k]) by {
            assert(t[k] == s[k + 1]);
        }
        lemma_trim_prefix(t, i - 1);
        assert(t.skip(i - 1) =~= s.skip(i));
    }
}

proof fn lemma_trim_suffix(t: Seq<char>, j: int)
    requires
        0 <= j <= t.len(),
        t.len() == 0 || !is_white(t[0]),
        t.len() > 0 ==> j > 0,
        forall|k: int| j <= k < t.len() ==> is_white(#[trigger] t[k]),
        j > 0 ==> !is_white(t[j - 1]),
    ensures
        trimmed(t) == t.take(j),
    decreases t.len() - j,
{
    if j == t.len() {
        assert(t.take(j) =~= t);
    } else {
        assert(is_white(t.last()));
        let u = t.drop_last();
        assert forall|k: int| j <= k < u.len() implies is_white(#[trigger] u[k]) by {
            assert(u[k] == t[k]);
        }
        lemma_trim_suffix(u, j);
        assert(u.take(j) =~= t.take(j));
    }
}

/// `s` without its leading and trailing whitespace.
pub fn trim(s: &str) -> (r: String)
    ensures
        r@ == trimmed(s@),
{
    let cs = chars_of(s);
    let n = cs.len();
    let mut i: usize = 0;
    while i < n && white(cs[i])
        invariant
            i <= n,
            n == cs@.len(),
            cs@ == s@,
            forall|k: int| 0 <= k < i ==> is_white(#[trigger] s@[k]),
        decreases n - i,
    {
        i += 1;
    }
    let mut j: usize = n;
    while j > i && white(cs[j - 1])
        invariant
            i <= j <= n,
            n == cs@.len(),
            cs@ == s@,
            forall|k: int| j <= k < n ==> is_white(#[trigger] s@[k]),
        decreases j - i,
    {
        j -= 1;
    }
    let mut r = String::new();
    let mut k: usize = i;
    while k < j
        invariant
            i <= k <= j <= n,
            n == cs@.len(),
            cs@ == s@,
            r@ == s@.subrange(i as int, k as int),
        decreases j - k,
    {
        push_char(&mut r, cs[k]);
        assert(r@ =~= s@.subrange(i as int, k + 1));
        k += 1;
    }
    proof {
        lemma_trim_prefix(s@, i as int);
        let t = s@.skip(i as int);
        assert forall|q: int| (j - i) <= q < t.len() implies is_white(#[trigger] t[q]) by {
            assert(t[q] == s@[i + q]);
        }
        if j > i {
            assert(t[j - i - 1] == s@[j - 1]);
        }
        if t.len() > 0 {
            assert(t[0] == s@[i as int]);
        }
        lemma_trim_suffix(t, j - i);
        assert(t.take(j - i) =~= s@.subrange(i as int, j as int));
    }
    r
}

/// The trimmed lines of `lines`, joined by single spaces.
pub open spec fn joined_lines(lines: Seq<String>) -> Seq<char>
    decreases lines.len(),
{
    if lines.len() == 0 {
        Seq::empty()
    } else if lines.len() == 1 {
        trimmed(lines[0]@)
    } else {
        joined_lines(lines.drop_last()) + " "@ + trimmed(lines.last()@)
    }
}

/// The description a component gets from its doc comment: each line
/// trimmed, the lines joined by spaces and the result trimmed again; none
/// when there are no doc lines.
pub open spec fn description_of(lines: Seq<String>) -> Option<Seq<char>> {
    if lines.len() == 0 {
        None
    } else {
        Some(trimmed(joined_lines(lines)))
    }
}

/// The description a component takes from its doc comment lines, or `None`
/// when it has none.
pub fn doc_description(lines: &Vec<String>) -> (r: Option<String>)
    ensures
        match r {
            Some(d) => description_of(lines@) == Some(d@),
            None => description_of(lines@) is None,
        },
{
    if lines.len() == 0 {
        return None;
    }
    let mut joined = String::new();
    let mut i: usize = 0;
    while i < lines.len()
        invariant
            i <= lines.len(),
            joined@ == joined_lines(lines@.take(i as int)),
        decreases lines.len() - i,
    {
        if i > 0 {
            push_str(&mut joined, " ");
        }
        let t = trim(lines[i].as_str());
        push_str(&mut joined, t.as_str());
        proof {
            reveal_strlit(" ");
            let p = lines@.take(i + 1);
            assert(p.drop_last() =~= lines@.take(i as int));
            assert(joined@ =~= joined_lines(p));
        }
        i += 1;
    }
    assert(lines@.take(lines.len() as int) =~= lines@);
    Some(trim(joined.as_str()))
}

/// Fills in what a component's root node did not set itself: the class
/// defaults to `name` (the component's kebab-case name) and the AI description to
/// its doc description; whether it is dynamic is always what the body scan
/// found. Nothing else changes.
pub fn apply_component_meta<Msg>(
    meta: &mut NodeMeta<Msg>,
    name: &str,
    description: Option<String>,
    is_dynamic: bool,
)
    ensures
        old(meta).class is Some ==> final(meta).class == old(meta).class,
        old(meta).class is None ==> (final(meta).class matches Some(c) && c@ == name@),
        final(meta).ai.description == (match old(meta).ai.description {
            Some(d) => Some(d),
            None => description,
        }),
        final(meta).is_dynamic == is_dynamic,
        final(meta).on_click == old(meta).on_click,
        final(meta).ai.action == old(meta).ai.action,
        final(meta).ai.params == old(meta).ai.params,
        final(meta).data_appfront_id == old(meta).data_appfront_id,
        final(meta).key == old(meta).key,
{
    if meta.class.is_none() {
        meta.class = Some(String::from_str(name));
    }
    if meta.ai.description.is_none() {
        meta.ai.description = description;
    }
    meta.is_dynamic = is_dynamic;
}

/// A token of a function body, as far as the reactive-state scan cares.
pub enum BodyToken {
    Ident(String),
    /// A delimited group and the tokens inside it.
    Group(Vec<BodyToken>),
    /// A punctuation mark or a literal.
    Other,
}

/// The names that suggest a body reads reactive state.
pub open spec fn is_marker(name: Seq<char>) -> bool {
    ||| name == "Signal"@
    ||| name == "get"@
    ||| name == "get_untracked"@
    ||| name == "create_effect"@
    ||| name == "route_signal"@
    ||| name == "current_route"@
}

/// A marker name occurs in the token, at any depth.
pub open spec fn token_mentions(t: BodyToken) -> bool
    decreases t,
{
    match t {
        BodyToken::Ident(name) => is_marker(name@),
        BodyToken::Group(inner) => tokens_mention(inner@),
        BodyToken::Other => false,
    }
}

/// A marker name occurs in one of the tokens, at any depth.
pub open spec fn tokens_mention(ts: Seq<BodyToken>) -> bool
    decreases ts,
{
    if ts.len() == 0 {
        false
    } else {
        tokens_mention(ts.drop_last()) || token_mentions(ts.last())
    }
}

fn marker(name: &str) -> (r: bool)
    ensures
        r == is_marker(name@),
{
    str_eq(name, "Signal") || str_eq(name, "get") || str_eq(name, "get_untracked") || str_eq(
        name,
        "create_effect",
    ) || str_eq(name, "route_signal") || str_eq(name, "current_route")
}

fn token_reads_signal(t: &BodyToken) -> (r: bool)
    ensures
        r == token_mentions(*t),
    decreases *t, 1nat,
{
    match t {
        BodyToken::Ident(name) => marker(name.as_str()),
        BodyToken::Group(inner) => body_reads_signal(inner),
        BodyToken::Other => false,
    }
}

/// A token-level guess at whether a component body reads reactive state:
/// whether any identifier in it, at any depth, is `Signal`, `get`,
/// `get_untracked`, `create_effect`, `route_signal` or `current_route`.
/// It sees no types, so it cannot look inside helpers that read a signal,
/// and an unrelated method called `get` counts.
pub fn body_reads_signal(tokens: &Vec<BodyToken>) -> (r: bool)
    ensures
        r == tokens_mention(tokens@),
    decreases tokens@, 0nat,
{
    let mut i: usize = 0;
    while i < tokens.len()
        invariant
            i <= tokens.len(),
            !tokens_mention(tokens@.take(i as int)),
        decreases tokens.len() - i,
    {
        assert(decreases_to!(tokens@ => tokens@[i as int]));
        let found = token_reads_signal(&tokens[i]);
        proof {
            let p = tokens@.take(i + 1);
            assert(p.drop_last() =~= tokens@.take(i as int));
        }
        if found {
            proof {
                lemma_mention_prefix(tokens@, i + 1);
            }
            return true;
        }
        i += 1;
    }
    assert(tokens@.take(tokens.len() as int) =~= tokens@);
    false
}

proof fn lemma_mention_prefix(ts: Seq<BodyToken>, n: int)
    requires
        0 <= n <= ts.len(),
        tokens_mention(ts.take(n)),
    ensures
        tokens_mention(ts),
    decreases ts.len() - n,
{
    if n < ts.len() {
        let p = ts.take(n + 1);
        assert(p.drop_last() =~= ts.take(n));
        lemma_mention_prefix(ts, n + 1);
    } else {
        assert(ts.take(n) =~= ts);
    }
}

/// The tags `view!` knows.
pub open spec fn is_view_tag(tag: Seq<char>) -> bool {
    ||| tag == "Container"@
    ||| tag == "Heading"@
    ||| tag == "Text"@
    ||| tag == "Button"@
    ||| tag == "Input"@
    ||| tag == "List"@
    ||| tag == "DataGrid"@
}

/// The attributes a tag accepts; none for an unknown tag.
pub open spec fn allowed_attrs(tag: Seq<char>) -> Seq<Seq<char>> {
    if tag == "Container"@ || tag == "Text"@ || tag == "List"@ {
        seq!["class"@, "key"@]
    } else if tag == "Heading"@ {
        seq!["level"@, "class"@, "key"@]
    } else if tag == "Button"@ {
        seq!["on_click"@, "class"@, "key"@]
    } else if tag == "Input"@ {
        seq!["value"@, "class"@, "key"@, "on_input"@]
    } else if tag == "DataGrid"@ {
        seq!["columns"@, "rows"@, "class"@, "key"@]
    } else {
        Seq::empty()
    }
}

/// The attributes a tag requires; none for an unknown tag.
pub open spec fn required_attrs(tag: Seq<char>) -> Seq<Seq<char>> {
    if tag == "Heading"@ {
        seq!["level"@]
    } else if tag == "Button"@ {
        seq!["on_click"@]
    } else if tag == "Input"@ {
        seq!["value"@]
    } else if tag == "DataGrid"@ {
        seq!["columns"@, "rows"@]
    } else {
        Seq::empty()
    }
}

/// The characters of each name.
pub open spec fn names_of(v: Seq<&'static str>) -> Seq<Seq<char>> {
    v.map_values(|s: &'static str| s@)
}

/// The attributes a `view!` tag accepts.
pub fn allowed_for(tag: &str) -> (r: Vec<&'static str>)
    ensures
        names_of(r@) == allowed_attrs(tag@),
{
    let mut r: Vec<&'static str> = Vec::new();
    if str_eq(tag, "Container") || str_eq(tag, "Text") || str_eq(tag, "List") {
        r.push("class");
        r.push("key");
    } else if str_eq(tag, "Heading") {
        r.push("level");
        r.push("class");
        r.push("key");
    } else if str_eq(tag, "Button") {
        r.push("on_click");
        r.push("class");
        r.push("key");
    } else if str_eq(tag, "Input") {
        r.push("value");
        r.push("class");
        r.push("key");
        r.push("on_input");
    } else if str_eq(tag, "DataGrid") {
        r.push("columns");
        r.push("rows");
        r.push("class");
        r.push("key");
    }
    assert(names_of(r@) =~= allowed_attrs(tag@));
    r
}

/// The attributes a `view!` tag requires.
pub fn required_for(tag: &str) -> (r: Vec<&'static str>)
    ensures
        names_of(r@) == required_attrs(tag@),
{
    let mut r: Vec<&'static str> = Vec::new();
    if str_eq(tag, "Heading") {
        r.push("level");
    } else if str_eq(tag, "Button") {
        r.push("on_click");
    } else if str_eq(tag, "Input") {
        r.push("value");
    } else if str_eq(tag, "DataGrid") {
        r.push("columns");
        r.push("rows");
    }
    assert(names_of(r@) =~= required_attrs(tag@));
    r
}

/// The first of `xs` that `set` lacks.
pub open spec fn first_missing(xs: Seq<Seq<char>>, set: Seq<Seq<char>>) -> Option<Seq<char>>
    decreases xs.len(),
{
    if xs.len() == 0 {
        None
    } else if !set.contains(xs[0]) {
        Some(xs[0])
    } else {
        first_missing(xs.skip(1), set)
    }
}

/// Why a tag's attributes are refused.
#[derive(Debug, Clone, PartialEq, Eq)]
pub enum AttrError {
    /// The tag does not accept this attribute.
    NotAccepted(String),
    /// The tag requires this attribute and it is absent.
    Missing(String),
}

/// The characters of each string.
pub open spec fn strings_of(v: Seq<String>) -> Seq<Seq<char>> {
    v.map_values(|s: String| s@)
}

fn contains_name(set: &Vec<&'static str>, name: &str) -> (r: bool)
    ensures
        r == names_of(set@).contains(name@),
{
    let mut i: usize = 0;
    while i < set.len()
        invariant
            i <= set.len(),
            forall|k: int| 0 <= k < i ==> set@[k]@ != name@,
        decreases set.len() - i,
    {
        if str_eq(set[i], name) {
            assert(names_of(set@)[i as int] == name@);
            return true;
        }
        i += 1;
    }
    proof {
        if names_of(set@).contains(name@) {
            let k = choose|k: int| 0 <= k < names_of(set@).len() && names_of(set@)[k] == name@;
            assert(set@[k]@ == name@);
        }
    }
    false
}

fn contains_string(set: &Vec<String>, name: &str) -> (r: bool)
    ensures
        r == strings_of(set@).contains(name@),
{
    let mut i: usize = 0;
    while i < set.len()
        invariant
            i <= set.len(),
            forall|k: int| 0 <= k < i ==> set@[k]@ != name@,
        decreases set.len() - i,
    {
        if str_eq(set[i].as_str(), name) {
            assert(strings_of(set@)[i as int] == name@);
            return true;
        }
        i += 1;
    }
    proof {
        if strings_of(set@).contains(name@) {
            let k = choose|k: int| 0 <= k < strings_of(set@).len() && strings_of(set@)[k] == name@;
            assert(set@[k]@ == name@);
        }
    }
    false
}

/// Checks a node's attribute names against its tag: the first attribute,
/// in the order written, that the tag does not accept is refused; then the
/// first attribute the tag requires, in the tag's order, that is absent.
pub fn check_attrs(tag: &str, names: &Vec<String>) -> (r: Result<(), AttrError>)
    ensures
        match r {
            Ok(()) => first_missing(strings_of(names@), allowed_attrs(tag@)) is None
                && first_missing(required_attrs(tag@), strings_of(names@)) is None,
            Err(AttrError::NotAccepted(n)) => first_missing(strings_of(names@), allowed_attrs(tag@))
                == Some(n@),
            Err(AttrError::Missing(n)) => first_missing(strings_of(names@), allowed_attrs(tag@)) is None
                && first_missing(required_attrs(tag@), strings_of(names@)) == Some(n@),
        },
{
    let allowed = allowed_for(tag);
    let mut i: usize = 0;
    assert(strings_of(names@).skip(0) =~= strings_of(names@));
    while i < names.len()
        invariant
            i <= names.len(),
            names_of(allowed@) == allowed_attrs(tag@),
            first_missing(strings_of(names@), allowed_attrs(tag@)) == first_missing(
                strings_of(names@).skip(i as int),
                allowed_attrs(tag@),
            ),
        decreases names.len() - i,
    {
        let ghost rest = strings_of(names@).skip(i as int);
        assert(rest[0] == names@[i as int]@);
        if !contains_name(&allowed, names[i].as_str()) {
            return Err(AttrError::NotAccepted(names[i].clone()));
        }
        assert(rest.skip(1) =~= strings_of(names@).skip(i + 1));
        i += 1;
    }
    assert(strings_of(names@).skip(names.len() as int) =~= Seq::<Seq<char>>::empty());
    let required = required_for(tag);
    let mut j: usize = 0;
    assert(names_of(required@).skip(0) =~= names_of(required@));
    while j < required.len()
        invariant
            j <= required.len(),
            names_of(required@) == required_attrs(tag@),
            first_missing(strings_of(names@), allowed_attrs(tag@)) is None,
            first_missing(required_attrs(tag@), strings_of(names@)) == first_missing(
                names_of(required@).skip(j as int),
                strings_of(names@),
            ),
        decreases required.len() - j,
    {
        let ghost rest = names_of(required@).skip(j as int);
        assert(rest[0] == required@[j as int]@);
        if !contains_string(names, required[j]) {
            return Err(AttrError::Missing(String::from_str(required[j])));
        }
        assert(rest.skip(1) =~= names_of(required@).skip(j + 1));
        j += 1;
    }
    assert(names_of(required@).skip(required.len() as int) =~= Seq::<Seq<char>>::empty());
    Ok(())
}

impl AttrError {
    /// The compile error shown for a node with tag `tag`.
    pub fn message(&self, tag: &str) -> (r: String)
        ensures
            r@ == match self {
                AttrError::NotAccepted(n) => "`<"@ + tag@ + ">` does not accept a `"@ + n@ + "` attribute"@,
                AttrError::Missing(n) => "`<"@ + tag@ + ">` requires a `"@ + n@ + "` attribute"@,
            },
    {
        let mut r = String::from_str("`<");
        push_str(&mut r, tag);
        match self {
            AttrError::NotAccepted(n) => {
                push_str(&mut r, ">` does not accept a `");
                push_str(&mut r, n.as_str());
            },
            AttrError::Missing(n) => {
                push_str(&mut r, ">` requires a `");
                push_str(&mut r, n.as_str());
            },
        }
        push_str(&mut r, "` attribute");
        r
    }
}

} // verus!
