//! The utility-class layer: recognised utility classes (in the familiar
//! Tailwind naming, such as `bg-blue-500` or `p-4`) resolve to inline CSS
//! declarations, so server-rendered output is styled without a stylesheet
//! build step. Unknown classes are left to the page's own stylesheet.

use vstd::prelude::*;

use crate::text::{chars_of, is_white, push_char, push_str, str_eq, white};

verus! {

broadcast use vstd::string::group_string_axioms;

/// A spacing step of the scale (one digit): a quarter `rem` per step.
pub open spec fn spacing_of(d: char) -> Option<Seq<char>> {
    if d == '0' {
        Some("0"@)
    } else if d == '1' {
        Some("0.25rem"@)
    } else if d == '2' {
        Some("0.5rem"@)
    } else if d == '3' {
        Some("0.75rem"@)
    } else if d == '4' {
        Some("1rem"@)
    } else if d == '5' {
        Some("1.25rem"@)
    } else if d == '6' {
        Some("1.5rem"@)
    } else if d == '7' {
        Some("1.75rem"@)
    } else if d == '8' {
        Some("2rem"@)
    } else if d == '9' {
        Some("2.25rem"@)
    } else {
        None
    }
}

/// The CSS property of a spacing utility's prefix (`p`, `pt`, ... `ml`).
pub open spec fn spacing_property(prefix: Seq<char>) -> Option<Seq<char>> {
    if prefix == "p"@ {
        Some("padding"@)
    } else if prefix == "pt"@ {
        Some("padding-top"@)
    } else if prefix == "pr"@ {
        Some("padding-right"@)
    } else if prefix == "pb"@ {
        Some("padding-bottom"@)
    } else if prefix == "pl"@ {
        Some("padding-left"@)
    } else if prefix == "m"@ {
        Some("margin"@)
    } else if prefix == "mt"@ {
        Some("margin-top"@)
    } else if prefix == "mr"@ {
        Some("margin-right"@)
    } else if prefix == "mb"@ {
        Some("margin-bottom"@)
    } else if prefix == "ml"@ {
        Some("margin-left"@)
    } else {
        None
    }
}

/// The hex value of a palette colour name (`blue-500`, `white`, ...).
pub open spec fn color_of(name: Seq<char>) -> Option<Seq<char>> {
    if name == "white"@ {
        Some("#ffffff"@)
    } else if name == "black"@ {
        Some("#000000"@)
    } else if name == "gray-100"@ {
        Some("#f3f4f6"@)
    } else if name == "gray-500"@ {
        Some("#6b7280"@)
    } else if name == "gray-900"@ {
        Some("#111827"@)
    } else if name == "red-500"@ {
        Some("#ef4444"@)
    } else if name == "green-500"@ {
        Some("#22c55e"@)
    } else if name == "blue-500"@ {
        Some("#3b82f6"@)
    } else if name == "blue-600"@ {
        Some("#2563eb"@)
    } else {
        None
    }
}

/// The declaration of a utility class without parameters.
pub open spec fn keyword_decl(word: Seq<char>) -> Option<Seq<char>> {
    if word == "font-bold"@ {
        Some("font-weight: 700"@)
    } else if word == "italic"@ {
        Some("font-style: italic"@)
    } else if word == "underline"@ {
        Some("text-decoration: underline"@)
    } else if word == "text-center"@ {
        Some("text-align: center"@)
    } else if word == "flex"@ {
        Some("display: flex"@)
    } else if word == "hidden"@ {
        Some("display: none"@)
    } else if word == "rounded"@ {
        Some("border-radius: 0.25rem"@)
    } else {
        None
    }
}

/// The CSS declaration a utility class stands for, if it is one: a
/// keyword utility, `bg-<colour>`, `text-<colour>`, or a spacing prefix, a
/// hyphen and one step digit.
pub open spec fn utility_decl(word: Seq<char>) -> Option<Seq<char>> {
    if keyword_decl(word) is Some {
        keyword_decl(word)
    } else if word.len() > 3 && word.take(3) == "bg-"@ && color_of(word.skip(3)) is Some {
        Some("background-color: "@ + color_of(word.skip(3))->0)
    } else if word.len() > 5 && word.take(5) == "text-"@ && color_of(word.skip(5)) is Some {
        Some("color: "@ + color_of(word.skip(5))->0)
    } else if word.len() >= 3 && word[word.len() - 2] == '-' && spacing_property(
        word.take(word.len() - 2),
    ) is Some && spacing_of(word.last()) is Some {
        Some(
            spacing_property(word.take(word.len() - 2))->0 + ": "@ + spacing_of(word.last())->0,
        )
    } else {
        None
    }
}

/// Splits a class attribute at whitespace: the words completed so far
/// and the word being read.
pub open spec fn words_scan(s: Seq<char>) -> (Seq<Seq<char>>, Seq<char>)
    decreases s.len(),
{
    if s.len() == 0 {
        (Seq::empty(), Seq::empty())
    } else {
        let (done, cur) = words_scan(s.drop_last());
        if is_white(s.last()) {
            (if cur.len() > 0 { done.push(cur) } else { done }, Seq::empty())
        } else {
            (done, cur.push(s.last()))
        }
    }
}

/// The whitespace-separated words of a class attribute, in order.
pub open spec fn class_words(s: Seq<char>) -> Seq<Seq<char>> {
    let (done, cur) = words_scan(s);
    if cur.len() > 0 {
        done.push(cur)
    } else {
        done
    }
}

/// The declarations of the recognised words, joined with `; `.
pub open spec fn styles_of(words: Seq<Seq<char>>) -> Seq<char>
    decreases words.len(),
{
    if words.len() == 0 {
        Seq::empty()
    } else {
        let before = styles_of(words.drop_last());
        match utility_decl(words.last()) {
            Some(d) => if before.len() == 0 {
                d
            } else {
                before + "; "@ + d
            },
            None => before,
        }
    }
}

/// The inline style of a class attribute: empty when no word of it is a
/// recognised utility.
pub open spec fn inline_style_of(class: Seq<char>) -> Seq<char> {
    styles_of(class_words(class))
}

/// Classes that are not utilities add nothing to the style: when no word
/// of a class attribute is a recognised utility, its inline style is
/// empty (and the renderer writes no `style` attribute).
pub proof fn lemma_unrecognised_classes_add_no_style(words: Seq<Seq<char>>)
    requires
        forall|i: int| 0 <= i < words.len() ==> utility_decl(#[trigger] words[i]) is None,
    ensures
        styles_of(words).len() == 0,
    decreases words.len(),
{
    if words.len() > 0 {
        let init = words.drop_last();
        assert forall|i: int| 0 <= i < init.len() implies utility_decl(#[trigger] init[i]) is None by {
            assert(init[i] == words[i]);
        }
        lemma_unrecognised_classes_add_no_style(init);
        assert(utility_decl(words[words.len() - 1]) is None);
    }
}

fn spacing(d: char) -> (r: Option<&'static str>)
    ensures
        match r {
            Some(v) => spacing_of(d) == Some(v@),
            None => spacing_of(d) is None,
        },
{
    proof {
        reveal_strlit("0");
        reveal_strlit("0.25rem");
        reveal_strlit("0.5rem");
        reveal_strlit("0.75rem");
        reveal_strlit("1rem");
        reveal_strlit("1.25rem");
        reveal_strlit("1.5rem");
        reveal_strlit("1.75rem");
        reveal_strlit("2rem");
        reveal_strlit("2.25rem");
    }
    if d == '0' {
        Some("0")
    } else if d == '1' {
        Some("0.25rem")
    } else if d == '2' {
        Some("0.5rem")
    } else if d == '3' {
        Some("0.75rem")
    } else if d == '4' {
        Some("1rem")
    } else if d == '5' {
        Some("1.25rem")
    } else if d == '6' {
        Some("1.5rem")
    } else if d == '7' {
        Some("1.75rem")
    } else if d == '8' {
        Some("2rem")
    } else if d == '9' {
        Some("2.25rem")
    } else {
        None
    }
}

fn property(prefix: &str) -> (r: Option<&'static str>)
    ensures
        match r {
            Some(v) => spacing_property(prefix@) == Some(v@),
            None => spacing_property(prefix@) is None,
        },
{
    if str_eq(prefix, "p") {
        Some("padding")
    } else if str_eq(prefix, "pt") {
        Some("padding-top")
    } else if str_eq(prefix, "pr") {
        Some("padding-right")
    } else if str_eq(prefix, "pb") {
        Some("padding-bottom")
    } else if str_eq(prefix, "pl") {
        Some("padding-left")
    } else if str_eq(prefix, "m") {
        Some("margin")
    } else if str_eq(prefix, "mt") {
        Some("margin-top")
    } else if str_eq(prefix, "mr") {
        Some("margin-right")
    } else if str_eq(prefix, "mb") {
        Some("margin-bottom")
    } else if str_eq(prefix, "ml") {
        Some("margin-left")
    } else {
        None
    }
}

fn color(name: &str) -> (r: Option<&'static str>)
    ensures
        match r {
            Some(v) => color_of(name@) == Some(v@),
            None => color_of(name@) is None,
        },
{
    if str_eq(name, "white") {
        Some("#ffffff")
    } else if str_eq(name, "black") {
        Some("#000000")
    } else if str_eq(name, "gray-100") {
        Some("#f3f4f6")
    } else if str_eq(name, "gray-500") {
        Some("#6b7280")
    } else if str_eq(name, "gray-900") {
        Some("#111827")
    } else if str_eq(name, "red-500") {
        Some("#ef4444")
    } else if str_eq(name, "green-500") {
        Some("#22c55e")
    } else if str_eq(name, "blue-500") {
        Some("#3b82f6")
    } else if str_eq(name, "blue-600") {
        Some("#2563eb")
    } else {
        None
    }
}

fn keyword(word: &str) -> (r: Option<&'static str>)
    ensures
        match r {
            Some(v) => keyword_decl(word@) == Some(v@),
            None => keyword_decl(word@) is None,
        },
{
    if str_eq(word, "font-bold") {
        Some("font-weight: 700")
    } else if str_eq(word, "italic") {
        Some("font-style: italic")
    } else if str_eq(word, "underline") {
        Some("text-decoration: underline")
    } else if str_eq(word, "text-center") {
        Some("text-align: center")
    } else if str_eq(word, "flex") {
        Some("display: flex")
    } else if str_eq(word, "hidden") {
        Some("display: none")
    } else if str_eq(word, "rounded") {
        Some("border-radius: 0.25rem")
    } else {
        None
    }
}

/// The characters `cs[from..to]` as a string.
fn slice_string(cs: &Vec<char>, from: usize, to: usize) -> (r: String)
    requires
        from <= to <= cs@.len(),
    ensures
        r@ == cs@.subrange(from as int, to as int),
{
    let mut r = String::new();
    let mut i = from;
    while i < to
        invariant
            from <= i <= to <= cs@.len(),
            r@ == cs@.subrange(from as int, i as int),
        decreases to - i,
    {
        push_char(&mut r, cs[i]);
        assert(r@ =~= cs@.subrange(from as int, i + 1));
        i += 1;
    }
    r
}

/// The CSS declaration of one utility class, if it is one.
pub fn utility(word: &str) -> (r: Option<String>)
    ensures
        match r {
            Some(d) => utility_decl(word@) == Some(d@),
            None => utility_decl(word@) is None,
        },
{
    if let Some(k) = keyword(word) {
        return Some(String::from_str(k));
    }
    let cs = chars_of(word);
    let n = cs.len();
    proof {
        reveal_strlit("bg-");
        reveal_strlit("text-");
    }
    if n > 3 && cs[0] == 'b' && cs[1] == 'g' && cs[2] == '-' {
        assert(word@.take(3) =~= "bg-"@);
        let rest = slice_string(&cs, 3, n);
        assert(rest@ =~= word@.skip(3));
        if let Some(c) = color(rest.as_str()) {
            let mut d = String::from_str("background-color: ");
            push_str(&mut d, c);
            return Some(d);
        }
    }
    let ghost bg = word@.len() > 3 && word@.take(3) == "bg-"@ && color_of(word@.skip(3)) is Some;
    assert(!bg) by {
        if word@.len() > 3 && word@.take(3) == "bg-"@ {
            assert(cs@[0] == 'b' && cs@[1] == 'g' && cs@[2] == '-') by {
                assert(word@.take(3)[0] == 'b');
                assert(word@.take(3)[1] == 'g');
                assert(word@.take(3)[2] == '-');
            }
            assert(word@.skip(3) =~= cs@.subrange(3, n as int));
        }
    }
    if n > 5 && cs[0] == 't' && cs[1] == 'e' && cs[2] == 'x' && cs[3] == 't' && cs[4] == '-' {
        assert(word@.take(5) =~= "text-"@);
        let rest = slice_string(&cs, 5, n);
        assert(rest@ =~= word@.skip(5));
        if let Some(c) = color(rest.as_str()) {
            let mut d = String::from_str("color: ");
            push_str(&mut d, c);
            return Some(d);
        }
    }
    let ghost tx = word@.len() > 5 && word@.take(5) == "text-"@ && color_of(word@.skip(5)) is Some;
    assert(!tx) by {
        if word@.len() > 5 && word@.take(5) == "text-"@ {
            assert(cs@[0] == 't' && cs@[1] == 'e' && cs@[2] == 'x' && cs@[3] == 't' && cs@[4]
                == '-') by {
                assert(word@.take(5)[0] == 't');
                assert(word@.take(5)[1] == 'e');
                assert(word@.take(5)[2] == 'x');
                assert(word@.take(5)[3] == 't');
                assert(word@.take(5)[4] == '-');
            }
            assert(word@.skip(5) =~= cs@.subrange(5, n as int));
        }
    }
    if n >= 3 && cs[n - 2] == '-' {
        let prefix = slice_string(&cs, 0, n - 2);
        assert(prefix@ =~= word@.take(n - 2));
        if let Some(p) = property(prefix.as_str()) {
            if let Some(v) = spacing(cs[n - 1]) {
                let mut d = String::from_str(p);
                push_str(&mut d, ": ");
                push_str(&mut d, v);
                proof {
                    reveal_strlit(": ");
                }
                return Some(d);
            }
        }
    }
    None
}

/// The words of a class attribute, split at whitespace.
pub fn words(class: &str) -> (r: Vec<String>)
    ensures
        r@.map_values(|w: String| w@) == class_words(class@),
{
    let cs = chars_of(class);
    let mut done: Vec<String> = Vec::new();
    let mut cur = String::new();
    let mut i: usize = 0;
    while i < cs.len()
        invariant
            i <= cs@.len(),
            cs@ == class@,
            (done@.map_values(|w: String| w@), cur@) == words_scan(class@.take(i as int)),
        decreases cs.len() - i,
    {
        let c = cs[i];
        assert(class@.take(i + 1).drop_last() =~= class@.take(i as int));
        assert(class@.take(i + 1).last() == c);
        if white(c) {
            if !cur.as_str().is_empty() {
                let ghost before = done@;
                done.push(cur);
                assert(done@.map_values(|w: String| w@) =~= before.map_values(|w: String| w@).push(
                    done@.last()@,
                ));
            }
            cur = String::new();
        } else {
            push_char(&mut cur, c);
        }
        i += 1;
    }
    assert(class@.take(cs@.len() as int) =~= class@);
    if !cur.as_str().is_empty() {
        let ghost before = done@;
        done.push(cur);
        assert(done@.map_values(|w: String| w@) =~= before.map_values(|w: String| w@).push(
            done@.last()@,
        ));
    }
    done
}

/// The inline style of a class attribute: the declarations of its
/// recognised utility classes, in order, joined with `; `.
pub fn inline_style(class: &str) -> (r: String)
    ensures
        r@ == inline_style_of(class@),
{
    let ws = words(class);
    let ghost views = ws@.map_values(|w: String| w@);
    let mut out = String::new();
    let mut j: usize = 0;
    while j < ws.len()
        invariant
            j <= ws@.len(),
            views == ws@.map_values(|w: String| w@),
            views == class_words(class@),
            out@ == styles_of(views.take(j as int)),
        decreases ws.len() - j,
    {
        assert(views.take(j + 1).drop_last() =~= views.take(j as int));
        assert(views.take(j + 1).last() == ws@[j as int]@);
        match utility(ws[j].as_str()) {
            Some(d) => {
                if !out.as_str().is_empty() {
                    push_str(&mut out, "; ");
                    proof {
                        reveal_strlit("; ");
                    }
                }
                push_str(&mut out, d.as_str());
            },
            None => {},
        }
        j += 1;
    }
    assert(views.take(ws@.len() as int) =~= views);
    out
}

} // verus!
