//! The decisions of the smart router: how an inbound agent command is
//! vetted before the application's handler sees it, the default rate limit
//! and cross-origin policy, and the HTML shells served to human browsers.
//! Serving requests is the host's job.

use vstd::prelude::*;

use crate::html::{esc_attr, esc_attr_of, esc_script_json, esc_script_json_of};
use crate::text::{chars_of, is_white, push_char, push_str, white};

verus! {

broadcast use vstd::string::group_string_axioms;

/// Result of executing a command, returned as the `POST /command` body.
#[derive(Debug, Clone, PartialEq, Eq)]
pub struct CommandResponse {
    pub ok: bool,
    pub message: String,
}

impl CommandResponse {
    /// A success with a message.
    pub fn ok(message: &str) -> (r: CommandResponse)
        ensures
            r.ok,
            r.message@ == message@,
    {
        CommandResponse { ok: true, message: String::from_str(message) }
    }

    /// A failure with a message.
    pub fn err(message: &str) -> (r: CommandResponse)
        ensures
            !r.ok,
            r.message@ == message@,
    {
        CommandResponse { ok: false, message: String::from_str(message) }
    }
}

/// Rate limit applied to `POST /command`, per client.
#[derive(Debug, Clone, Copy, PartialEq, Eq)]
pub struct RateLimitConfig {
    /// Sustained requests per second once the burst allowance is exhausted.
    pub per_second: u64,
    /// Number of requests permitted in a burst above the steady rate.
    pub burst: u32,
}

impl Default for RateLimitConfig {
    /// Five requests per second with a burst of ten: a route with an
    /// application-supplied handler does not ship unthrottled.
    fn default() -> (r: Self)
        ensures
            r.per_second == 5,
            r.burst == 10,
    {
        RateLimitConfig { per_second: 5, burst: 10 }
    }
}

/// Cross-origin policy for the read routes. `POST /command` never gets a
/// cross-origin layer, whatever this says.
#[derive(Debug, Clone, PartialEq, Eq)]
pub enum CorsPolicy {
    /// Any origin may read the public routes.
    Permissive,
    /// Only the listed origins may read the public routes cross-origin.
    Origins(Vec<String>),
}

impl Default for CorsPolicy {
    fn default() -> (r: Self)
        ensures
            r matches CorsPolicy::Permissive,
    {
        CorsPolicy::Permissive
    }
}

/// The text is empty once surrounding whitespace is trimmed.
pub open spec fn is_blank(s: Seq<char>) -> bool {
    forall|i: int| 0 <= i < s.len() ==> is_white(#[trigger] s[i])
}

fn blank(s: &str) -> (r: bool)
    ensures
        r == is_blank(s@),
{
    for c in it: s.chars()
        invariant
            it.seq() == s@,
            forall|j: int| 0 <= j < it.index() ==> is_white(#[trigger] s@[j]),
    {
        if !white(c) {
            assert(s@[it.index() as int] == c);
            return false;
        }
    }
    true
}

/// What happens to an inbound command.
#[derive(Debug, Clone, PartialEq, Eq)]
pub enum CommandVerdict {
    /// Pass the command to the application's handler.
    Run,
    /// Answer with this status and body without running anything.
    Reject { status: u16, response: CommandResponse },
}

/// The status and message an inbound command is refused with, if any: an
/// empty (or all-whitespace) action is a bad request (400), an action
/// outside a configured allowlist is forbidden (403), and a router without
/// a handler is not implemented (501). The checks apply in that order.
pub open spec fn command_refusal(action: Seq<char>, allowed: Option<Seq<Seq<char>>>, has_handler: bool) -> Option<(u16, Seq<char>)> {
    if is_blank(action) {
        Some((400u16, "`action` must not be empty"@))
    } else if allowed matches Some(list) && !list.contains(action) {
        Some((403u16, "action `"@ + action + "` is not in the configured allowlist"@))
    } else if !has_handler {
        Some((501u16, "this router has no `on_command` handler configured"@))
    } else {
        None
    }
}

fn list_contains(list: &Vec<String>, s: &str) -> (r: bool)
    ensures
        r == list@.map_values(|x: String| x@).contains(s@),
{
    let target = String::from_str(s);
    let mut i: usize = 0;
    while i < list.len()
        invariant
            i <= list.len(),
            target@ == s@,
            forall|j: int| 0 <= j < i ==> list@[j]@ != s@,
        decreases list.len() - i,
    {
        if list[i] == target {
            assert(list@.map_values(|x: String| x@)[i as int] == s@);
            return true;
        }
        i += 1;
    }
    proof {
        let v = list@.map_values(|x: String| x@);
        if v.contains(s@) {
            let j = choose|j: int| 0 <= j < v.len() && v[j] == s@;
            assert(list@[j]@ == s@);
        }
    }
    false
}

/// Vets an inbound command before the application's handler sees it.
pub fn check_command(action: &str, allowed: &Option<Vec<String>>, has_handler: bool) -> (r: CommandVerdict)
    ensures
        match command_refusal(
            action@,
            match allowed {
                Some(v) => Some(v@.map_values(|x: String| x@)),
                None => None,
            },
            has_handler,
        ) {
            None => r == CommandVerdict::Run,
            Some((status, message)) => r matches CommandVerdict::Reject { status: st, response } && st
                == status && !response.ok && response.message@ == message,
        },
{
    if blank(action) {
        return CommandVerdict::Reject {
            status: 400,
            response: CommandResponse::err("`action` must not be empty"),
        };
    }
    if let Some(list) = allowed {
        if !list_contains(list, action) {
            let mut message = String::from_str("action `");
            push_str(&mut message, action);
            push_str(&mut message, "` is not in the configured allowlist");
            return CommandVerdict::Reject {
                status: 403,
                response: CommandResponse { ok: false, message },
            };
        }
    }
    if !has_handler {
        return CommandVerdict::Reject {
            status: 501,
            response: CommandResponse::err("this router has no `on_command` handler configured"),
        };
    }
    CommandVerdict::Run
}

/// `s` with every non-overlapping occurrence of `from`, scanning left to
/// right, replaced by `to`, as `str::replace` does. The empty pattern
/// occurs before every character and at the end.
pub open spec fn replaced(s: Seq<char>, from: Seq<char>, to: Seq<char>) -> Seq<char>
    decreases s.len(),
{
    if from.len() == 0 {
        if s.len() == 0 {
            to
        } else {
            to + seq![s[0]] + replaced(s.skip(1), from, to)
        }
    } else if s.len() < from.len() {
        s
    } else if s.take(from.len() as int) == from {
        to + replaced(s.skip(from.len() as int), from, to)
    } else {
        seq![s[0]] + replaced(s.skip(1), from, to)
    }
}

fn matches_at(s: &Vec<char>, i: usize, pat: &Vec<char>) -> (r: bool)
    requires
        i + pat@.len() <= s@.len(),
    ensures
        r == (s@.skip(i as int).take(pat@.len() as int) == pat@),
{
    let mut j: usize = 0;
    while j < pat.len()
        invariant
            j <= pat@.len(),
            i + pat@.len() <= s.len(),
            forall|k: int| 0 <= k < j ==> s@[i + k] == pat@[k],
        decreases pat.len() - j,
    {
        if s[i + j] != pat[j] {
            assert(s@.skip(i as int).take(pat@.len() as int)[j as int] != pat@[j as int]);
            return false;
        }
        j += 1;
    }
    assert(s@.skip(i as int).take(pat@.len() as int) =~= pat@);
    true
}

/// Whether `pat` occurs in `s` starting at position `i`.
pub open spec fn occurs_at(s: Seq<char>, pat: Seq<char>, i: int) -> bool {
    0 <= i && i + pat.len() <= s.len() && s.subrange(i, i + pat.len()) == pat
}

/// The first position at or after `i` where `pat` occurs in `s`.
pub open spec fn find_from(s: Seq<char>, pat: Seq<char>, i: int) -> Option<int>
    decreases s.len() + 1 - i,
{
    if i < 0 || i + pat.len() > s.len() {
        None
    } else if occurs_at(s, pat, i) {
        Some(i)
    } else {
        find_from(s, pat, i + 1)
    }
}

/// The last position at or before `i` where `pat` occurs in `s`.
pub open spec fn find_back(s: Seq<char>, pat: Seq<char>, i: int) -> Option<int>
    decreases i + 1,
{
    if i < 0 {
        None
    } else if occurs_at(s, pat, i) {
        Some(i)
    } else {
        find_back(s, pat, i - 1)
    }
}

/// `s` with `t` inserted at position `i`.
pub open spec fn insert_at(s: Seq<char>, i: int, t: Seq<char>) -> Seq<char> {
    s.take(i) + t + s.skip(i)
}

/// A page with the PWA glue added, when PWA is on: the manifest link on a
/// line of its own before the first `</head>`, then the registration
/// script before the last `</body>`. A page lacking either tag gets
/// nothing there; with PWA off the page is unchanged.
pub open spec fn pwa_injected(page: Seq<char>, pwa_on: bool, link: Seq<char>, script: Seq<char>) -> Seq<char> {
    if !pwa_on {
        page
    } else {
        let p1 = match find_from(page, "</head>"@, 0) {
            Some(i) => insert_at(page, i, "\n    "@ + link),
            None => page,
        };
        match find_back(p1, "</body>"@, p1.len() - "</body>"@.len()) {
            Some(j) => insert_at(p1, j, "\n    "@ + script),
            None => p1,
        }
    }
}

fn first_occurrence(s: &Vec<char>, pat: &Vec<char>) -> (r: Option<usize>)
    ensures
        match r {
            Some(i) => i <= s@.len() && find_from(s@, pat@, 0) == Some(i as int),
            None => find_from(s@, pat@, 0) is None,
        },
{
    let n = pat.len();
    if n == 0 {
        assert(s@.subrange(0, 0) =~= pat@);
        return Some(0);
    }
    let mut i: usize = 0;
    while i <= s.len() && n <= s.len() - i
        invariant
            n == pat@.len(),
            n > 0,
            i <= s@.len(),
            find_from(s@, pat@, 0) == find_from(s@, pat@, i as int),
        decreases s.len() + 1 - i,
    {
        if matches_at(s, i, pat) {
            assert(s@.skip(i as int).take(n as int) =~= s@.subrange(i as int, i + n));
            return Some(i);
        }
        assert(s@.skip(i as int).take(n as int) =~= s@.subrange(i as int, i + n));
        i += 1;
    }
    None
}

fn last_occurrence(s: &Vec<char>, pat: &Vec<char>) -> (r: Option<usize>)
    ensures
        match r {
            Some(j) => j <= s@.len() && find_back(s@, pat@, s@.len() - pat@.len()) == Some(j as int),
            None => find_back(s@, pat@, s@.len() - pat@.len()) is None,
        },
{
    let n = pat.len();
    if n > s.len() {
        return None;
    }
    let mut i: usize = s.len() - n;
    loop
        invariant
            n == pat@.len(),
            i + n <= s@.len(),
            find_back(s@, pat@, s@.len() - pat@.len()) == find_back(s@, pat@, i as int),
        decreases i,
    {
        assert(s@.skip(i as int).take(n as int) =~= s@.subrange(i as int, i + n));
        if matches_at(s, i, pat) {
            return Some(i);
        }
        if i == 0 {
            assert(find_back(s@, pat@, -1) is None);
            return None;
        }
        i -= 1;
    }
}

fn spliced(s: &Vec<char>, i: usize, t: &str) -> (r: String)
    requires
        i <= s@.len(),
    ensures
        r@ == insert_at(s@, i as int, t@),
{
    let mut r = String::new();
    let mut k: usize = 0;
    while k < i
        invariant
            k <= i <= s@.len(),
            r@ == s@.take(k as int),
        decreases i - k,
    {
        push_char(&mut r, s[k]);
        assert(r@ =~= s@.take(k + 1));
        k += 1;
    }
    push_str(&mut r, t);
    let ghost mid = r@;
    while k < s.len()
        invariant
            i <= k <= s@.len(),
            mid == s@.take(i as int) + t@,
            r@ == mid + s@.subrange(i as int, k as int),
        decreases s.len() - k,
    {
        push_char(&mut r, s[k]);
        assert(r@ =~= mid + s@.subrange(i as int, k + 1));
        k += 1;
    }
    assert(s@.subrange(i as int, s@.len() as int) =~= s@.skip(i as int));
    r
}

/// Adds the PWA manifest link and service-worker registration script to
/// an HTML shell when PWA is on (see [`pwa_injected`]); with PWA off the
/// shell is returned unchanged.
pub fn inject_pwa(page: &str, pwa_on: bool, link: &str, script: &str) -> (r: String)
    ensures
        r@ == pwa_injected(page@, pwa_on, link@, script@),
{
    if !pwa_on {
        return String::from_str(page);
    }
    let cs = chars_of(page);
    let head_end = chars_of("</head>");
    let mut head = String::from_str("\n    ");
    push_str(&mut head, link);
    let p1 = match first_occurrence(&cs, &head_end) {
        Some(i) => spliced(&cs, i, head.as_str()),
        None => String::from_str(page),
    };
    let cs1 = chars_of(p1.as_str());
    let body_end = chars_of("</body>");
    let mut tail = String::from_str("\n    ");
    push_str(&mut tail, script);
    match last_occurrence(&cs1, &body_end) {
        Some(j) => spliced(&cs1, j, tail.as_str()),
        None => p1,
    }
}

/// Replaces every non-overlapping occurrence of `from`, left to right,
/// with `to`.
pub fn replace_all(s: &str, from: &str, to: &str) -> (r: String)
    ensures
        r@ == replaced(s@, from@, to@),
{
    let cs = chars_of(s);
    let pat = chars_of(from);
    let n = pat.len();
    let mut out = String::new();
    if n == 0 {
        let mut i: usize = 0;
        assert(s@.skip(0) =~= s@);
        assert(out@ + replaced(s@, from@, to@) =~= replaced(s@, from@, to@));
        while i < cs.len()
            invariant
                i <= cs@.len(),
                cs@ == s@,
                from@.len() == 0,
                replaced(s@, from@, to@) == out@ + replaced(s@.skip(i as int), from@, to@),
            decreases cs.len() - i,
        {
            let ghost rest = s@.skip(i as int);
            let ghost before = out@;
            push_str(&mut out, to);
            push_char(&mut out, cs[i]);
            assert(rest.skip(1) =~= s@.skip(i + 1));
            assert(rest[0] == cs@[i as int]);
            assert(replaced(rest, from@, to@) == to@ + seq![cs@[i as int]] + replaced(
                s@.skip(i + 1),
                from@,
                to@,
            ));
            assert(before + replaced(rest, from@, to@) =~= out@ + replaced(s@.skip(i + 1), from@, to@));
            i = i + 1;
        }
        push_str(&mut out, to);
        assert(s@.skip(cs@.len() as int) =~= Seq::<char>::empty());
        return out;
    }
    let mut i: usize = 0;
    assert(s@.skip(0) =~= s@);
    assert(out@ + replaced(s@, from@, to@) =~= replaced(s@, from@, to@));
    while i < cs.len()
        invariant
            i <= cs@.len(),
            cs@ == s@,
            pat@ == from@,
            n == pat@.len(),
            n > 0,
            replaced(s@, from@, to@) == out@ + replaced(s@.skip(i as int), from@, to@),
        decreases cs.len() - i,
    {
        let ghost rest = s@.skip(i as int);
        if n <= cs.len() - i && matches_at(&cs, i, &pat) {
            push_str(&mut out, to);
            assert(rest.skip(n as int) =~= s@.skip(i + n));
            assert(replaced(rest, from@, to@) == to@ + replaced(s@.skip(i + n), from@, to@));
            i = i + n;
        } else {
            push_char(&mut out, cs[i]);
            assert(rest.skip(1) =~= s@.skip(i + 1));
            assert(rest[0] == cs@[i as int]);
            assert(replaced(rest, from@, to@) == seq![cs@[i as int]] + replaced(s@.skip(i + 1), from@, to@));
            i = i + 1;
        }
    }
    assert(s@.skip(cs@.len() as int) =~= Seq::<char>::empty());
    out
}

/// The bare page served to browsers when hydration is off. `{TITLE}`,
/// `{DESC}` and `{WASM}` are filled in at serve time.
pub open spec fn wasm_shell_template_text() -> Seq<char> {
    "<!DOCTYPE html>\n<html lang=\"en\">\n<head>\n<meta charset=\"utf-8\">\n<meta name=\"viewport\" content=\"width=device-width, initial-scale=1\">\n<title>{TITLE}</title>\n<meta property=\"og:title\" content=\"{TITLE}\">\n<meta property=\"og:description\" content=\"{DESC}\">\n<meta property=\"og:type\" content=\"website\">\n</head>\n<body>\n<div id=\"appfront-root\"></div>\n<script type=\"module\">\nimport init from '{WASM}';\ninit().catch(e => console.error('appfront init failed', e));\n</script>\n</body>\n</html>\n"@
}

/// The bare page template served to browsers when hydration is off.
pub fn wasm_shell_template() -> (r: String)
    ensures
        r@ == wasm_shell_template_text(),
{
    String::from_str("<!DOCTYPE html>\n<html lang=\"en\">\n<head>\n<meta charset=\"utf-8\">\n<meta name=\"viewport\" content=\"width=device-width, initial-scale=1\">\n<title>{TITLE}</title>\n<meta property=\"og:title\" content=\"{TITLE}\">\n<meta property=\"og:description\" content=\"{DESC}\">\n<meta property=\"og:type\" content=\"website\">\n</head>\n<body>\n<div id=\"appfront-root\"></div>\n<script type=\"module\">\nimport init from '{WASM}';\ninit().catch(e => console.error('appfront init failed', e));\n</script>\n</body>\n</html>\n")
}

/// The content security policy of a page served with `nonce`.
pub open spec fn csp_of(nonce: Seq<char>) -> Seq<char> {
    "script-src 'self' 'nonce-"@ + nonce + "' 'wasm-unsafe-eval'; object-src 'none'; base-uri 'self'"@
}

/// The content security policy of a page served with `nonce`: scripts
/// from the same origin or carrying the nonce, no plugins, same-origin
/// base URI.
pub fn csp_for(nonce: &str) -> (r: String)
    ensures
        r@ == csp_of(nonce@),
{
    let mut s = String::from_str("script-src 'self' 'nonce-");
    push_str(&mut s, nonce);
    push_str(&mut s, "' 'wasm-unsafe-eval'; object-src 'none'; base-uri 'self'");
    s
}

/// The bare page: the template with the escaped title, description and
/// module path filled in (in that order) and the nonce added to the module
/// script tag.
pub open spec fn legacy_shell_of(template: Seq<char>, title: Seq<char>, description: Seq<char>, wasm_path: Seq<char>, nonce: Seq<char>) -> Seq<char> {
    let a = replaced(template, "{TITLE}"@, esc_attr_of(title));
    let b = replaced(a, "{DESC}"@, esc_attr_of(description));
    let c = replaced(b, "{WASM}"@, esc_attr_of(wasm_path));
    replaced(c, "<script type=\"module\">"@, "<script type=\"module\" nonce=\""@ + nonce + "\">"@)
}

/// Fills in the bare page served to browsers when hydration is off.
pub fn legacy_shell(template: &str, title: &str, description: &str, wasm_path: &str, nonce: &str) -> (r: String)
    ensures
        r@ == legacy_shell_of(template@, title@, description@, wasm_path@, nonce@),
{
    proof {
        reveal_strlit("{TITLE}");
        reveal_strlit("{DESC}");
        reveal_strlit("{WASM}");
        reveal_strlit("<script type=\"module\">");
    }
    let t = esc_attr(title);
    let d = esc_attr(description);
    let w = esc_attr(wasm_path);
    let a = replace_all(template, "{TITLE}", t.as_str());
    let b = replace_all(a.as_str(), "{DESC}", d.as_str());
    let c = replace_all(b.as_str(), "{WASM}", w.as_str());
    let mut tag = String::from_str("<script type=\"module\" nonce=\"");
    push_str(&mut tag, nonce);
    push_str(&mut tag, "\">");
    replace_all(c.as_str(), "<script type=\"module\">", tag.as_str())
}

/// The hydration page: the server-rendered body, the serialised state
/// (escaped for the inline script) and the module bootstrap carrying the
/// nonce.
pub open spec fn hydration_page_of(title: Seq<char>, description: Seq<char>, body: Seq<char>, state_json: Seq<char>, wasm_path: Seq<char>, nonce: Seq<char>) -> Seq<char> {
    "<!DOCTYPE html>\n<html lang=\"en\">\n<head>\n<meta charset=\"utf-8\">\n<meta name=\"viewport\" content=\"width=device-width, initial-scale=1\">\n<title>"@ + esc_attr_of(title) + "</title>\n<meta property=\"og:title\" content=\""@ + esc_attr_of(title) + "\">\n<meta property=\"og:description\" content=\""@ + esc_attr_of(description)
        + "\">\n<meta property=\"og:type\" content=\"website\">\n</head>\n<body>\n<div id=\"appfront-root\">\n"@ + body + "\n</div>\n<script id=\"__APPFRONT_STATE__\" type=\"application/json\">"@ + esc_script_json_of(state_json) + "</script>\n<script type=\"module\" nonce=\""@ + nonce + "\">\nimport init from '"@
        + esc_attr_of(wasm_path) + "';\ninit().catch(e => console.error('appfront init failed', e));\n</script>\n</body>\n</html>\n"@
}

/// Builds the hydration page for browsers.
pub fn hydration_page(title: &str, description: &str, body: &str, state_json: &str, wasm_path: &str, nonce: &str) -> (r: String)
    ensures
        r@ == hydration_page_of(title@, description@, body@, state_json@, wasm_path@, nonce@),
{
    let t = esc_attr(title);
    let d = esc_attr(description);
    let j = esc_script_json(state_json);
    let w = esc_attr(wasm_path);
    let mut s = String::from_str("<!DOCTYPE html>\n<html lang=\"en\">\n<head>\n<meta charset=\"utf-8\">\n<meta name=\"viewport\" content=\"width=device-width, initial-scale=1\">\n<title>");
    push_str(&mut s, t.as_str());
    push_str(&mut s, "</title>\n<meta property=\"og:title\" content=\"");
    push_str(&mut s, t.as_str());
    push_str(&mut s, "\">\n<meta property=\"og:description\" content=\"");
    push_str(&mut s, d.as_str());
    push_str(&mut s, "\">\n<meta property=\"og:type\" content=\"website\">\n</head>\n<body>\n<div id=\"appfront-root\">\n");
    push_str(&mut s, body);
    push_str(&mut s, "\n</div>\n<script id=\"__APPFRONT_STATE__\" type=\"application/json\">");
    push_str(&mut s, j.as_str());
    push_str(&mut s, "</script>\n<script type=\"module\" nonce=\"");
    push_str(&mut s, nonce);
    push_str(&mut s, "\">\nimport init from '");
    push_str(&mut s, w.as_str());
    push_str(&mut s, "';\ninit().catch(e => console.error('appfront init failed', e));\n</script>\n</body>\n</html>\n");
    s
}

/// A lowercase hexadecimal digit.
pub open spec fn hex_digit(d: nat) -> char {
    if d < 10 {
        (48 + d) as char
    } else {
        (87 + d) as char
    }
}

/// The lowercase hexadecimal spelling of `n`, with no leading zeros.
pub open spec fn hex(n: nat) -> Seq<char>
    decreases n,
{
    if n < 16 {
        seq![hex_digit(n)]
    } else {
        hex(n / 16).push(hex_digit(n % 16))
    }
}

/// The hexadecimal spelling of `n`, zero-padded on the left to at least
/// `width` digits.
pub open spec fn hex_padded(n: nat, width: nat) -> Seq<char> {
    let h = hex(n);
    if h.len() >= width {
        h
    } else {
        Seq::new((width - h.len()) as nat, |i: int| '0') + h
    }
}

/// A document nonce: the time in nanoseconds and a per-process counter,
/// each as at least sixteen hexadecimal digits.
pub open spec fn nonce_of(nanos: nat, count: nat) -> Seq<char> {
    hex_padded(nanos, 16) + hex_padded(count, 16)
}

fn hex_digit_char(d: u128) -> (c: char)
    requires
        d < 16,
    ensures
        c == hex_digit(d as nat),
{
    if d < 10 {
        ((d as u8) + 48) as char
    } else {
        ((d as u8) + 87) as char
    }
}

fn hex_chars(n: u128) -> (r: Vec<char>)
    ensures
        r@ == hex(n as nat),
    decreases n,
{
    if n < 16 {
        let mut v: Vec<char> = Vec::new();
        v.push(hex_digit_char(n));
        assert(v@ =~= seq![hex_digit(n as nat)]);
        v
    } else {
        let mut v = hex_chars(n / 16);
        v.push(hex_digit_char(n % 16));
        v
    }
}

fn push_hex_padded(s: &mut String, n: u128, width: usize)
    ensures
        final(s)@ == old(s)@ + hex_padded(n as nat, width as nat),
{
    let d = hex_chars(n);
    let mut k: usize = d.len();
    let ghost start = s@;
    while k < width
        invariant
            d@ == hex(n as nat),
            d@.len() <= k <= width || (k == d@.len() && k >= width),
            s@ == start + Seq::new((k - d@.len()) as nat, |i: int| '0'),
        decreases width - k,
    {
        push_char(s, '0');
        assert(Seq::new((k + 1 - d@.len()) as nat, |i: int| '0') =~= Seq::new((k - d@.len()) as nat, |i: int| '0').push('0'));
        k += 1;
    }
    let ghost padded = s@;
    let mut i: usize = 0;
    while i < d.len()
        invariant
            i <= d@.len(),
            s@ == padded + d@.take(i as int),
        decreases d.len() - i,
    {
        push_char(s, d[i]);
        assert(d@.take(i + 1) =~= d@.take(i as int).push(d@[i as int]));
        i += 1;
    }
    assert(d@.take(d@.len() as int) =~= d@);
    proof {
        if d@.len() >= width {
            assert(Seq::new((k - d@.len()) as nat, |i: int| '0') =~= Seq::<char>::empty());
        }
    }
}

/// The nonce of a document served at `nanos` nanoseconds past the epoch
/// as the process's `count`-th response.
pub fn nonce_from(nanos: u128, count: u64) -> (r: String)
    ensures
        r@ == nonce_of(nanos as nat, count as nat),
{
    let mut s = String::new();
    push_hex_padded(&mut s, nanos, 16);
    push_hex_padded(&mut s, count as u128, 16);
    s
}

} // verus!
