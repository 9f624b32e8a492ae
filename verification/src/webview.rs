//! The rules of the desktop webview shell: the window and IPC options, how
//! an IPC message from the hosted page is screened before the application
//! sees it, the command rate it may reach, and the content type of a
//! bundled file. Opening windows and serving files is the host's job.

use vstd::prelude::*;

use crate::text::{chars_of, push_char, str_eq};

verus! {

broadcast use vstd::string::group_string_axioms;

/// Makes `std::path::PathBuf` usable in the options below. Trusted: it is
/// carried through opaquely; nothing is claimed about its contents.
#[verifier::external_type_specification]
#[verifier::external_body]
pub struct ExPathBuf(std::path::PathBuf);

/// Options controlling the webview window and the IPC bridge.
pub struct WebviewOptions {
    /// Window title.
    pub title: String,
    /// Window width in logical pixels.
    pub width: u32,
    /// Window height in logical pixels.
    pub height: u32,
    /// Directory holding the built page (`index.html` and its assets).
    pub dist_dir: std::path::PathBuf,
    /// Action names the hosted page may dispatch back to native code;
    /// anything else is refused.
    pub allowed_actions: Vec<String>,
    /// Maximum IPC commands accepted per second, also the burst allowance.
    pub max_commands_per_second: u32,
}

/// The largest IPC message, in bytes, that is parsed at all.
pub const MAX_IPC_MESSAGE_BYTES: usize = 16384;

/// Whether an IPC message of `len` bytes is small enough to be parsed.
pub fn ipc_size_ok(len: usize) -> (r: bool)
    ensures
        r == (len <= MAX_IPC_MESSAGE_BYTES),
{
    len <= MAX_IPC_MESSAGE_BYTES
}

/// The commands per second (and burst) the IPC limiter allows: the
/// configured number, or one when it is configured as zero.
pub fn ipc_rate(max_commands_per_second: u32) -> (r: u32)
    ensures
        r == if max_commands_per_second == 0 { 1 } else { max_commands_per_second },
        r > 0,
{
    if max_commands_per_second == 0 {
        1
    } else {
        max_commands_per_second
    }
}

/// What becomes of an IPC message.
#[derive(Debug, Clone, PartialEq, Eq)]
pub enum IpcVerdict {
    /// Not JSON: ignored.
    Malformed,
    /// No string `action` field: ignored.
    NoAction,
    /// The action is not on the allowlist: refused.
    NotAllowed(String),
    /// The action is allowed (and, after [`throttle`], within the rate).
    Allowed(String),
    /// The action is allowed but the rate limit refused it.
    Throttled(String),
}

/// The characters of each string.
pub open spec fn texts(v: Seq<String>) -> Seq<Seq<char>> {
    v.map_values(|s: String| s@)
}

/// Screens an IPC message that was small enough to parse. `action` is the
/// outcome of parsing it: `None` when it is not JSON, `Some(None)` when it
/// has no string `action` field, else the action.
pub fn screen_ipc_action(action: Option<Option<String>>, allowed: &Vec<String>) -> (r: IpcVerdict)
    ensures
        match action {
            None => r == IpcVerdict::Malformed,
            Some(None) => r == IpcVerdict::NoAction,
            Some(Some(a)) => if texts(allowed@).contains(a@) {
                r == IpcVerdict::Allowed(a)
            } else {
                r == IpcVerdict::NotAllowed(a)
            },
        },
{
    match action {
        None => IpcVerdict::Malformed,
        Some(None) => IpcVerdict::NoAction,
        Some(Some(a)) => {
            let mut i: usize = 0;
            while i < allowed.len()
                invariant
                    i <= allowed.len(),
                    action == Some(Some(a)),
                    forall|k: int| 0 <= k < i ==> allowed@[k]@ != a@,
                decreases allowed.len() - i,
            {
                if str_eq(allowed[i].as_str(), a.as_str()) {
                    assert(texts(allowed@)[i as int] == a@);
                    assert(texts(allowed@).contains(a@));
                    return IpcVerdict::Allowed(a);
                }
                i += 1;
            }
            proof {
                if texts(allowed@).contains(a@) {
                    let k = choose|k: int| 0 <= k < texts(allowed@).len() && texts(allowed@)[k] == a@;
                    assert(allowed@[k]@ == a@);
                }
            }
            IpcVerdict::NotAllowed(a)
        },
    }
}

/// What the JSON parser makes of an IPC message: `None` when it is not
/// JSON, `Some(None)` when it is not an object with a string `action`
/// field, else that field's text.
pub uninterp spec fn ipc_action_of(message: Seq<char>) -> Option<Option<Seq<char>>>;

/// The characters of a parsed action, level by level.
pub open spec fn action_view(a: Option<Option<String>>) -> Option<Option<Seq<char>>> {
    match a {
        None => None,
        Some(None) => Some(None),
        Some(Some(s)) => Some(Some(s@)),
    }
}

/// Parses an IPC message with `serde_json::from_str` into a
/// `serde_json::Value` and reads its `action` field when it is a string
/// (`Value::get` yields nothing on non-objects). Trusted: the contract only
/// names the outcome (`ipc_action_of`), a function of the message alone.
#[verifier::external_body]
fn parse_ipc_action(message: &str) -> (r: Option<Option<String>>)
    ensures
        action_view(r) == ipc_action_of(message@),
{
    match serde_json::from_str::<serde_json::Value>(message) {
        Err(_) => None,
        Ok(v) => match v.get("action") {
            Some(serde_json::Value::String(a)) => Some(Some(a.clone())),
            _ => Some(None),
        },
    }
}

/// Screens an IPC message (one that was small enough to parse) against the
/// allowlist: malformed JSON, a missing action and a refused action are
/// told apart; an allowed action still has to pass [`throttle`].
pub fn screen_ipc_message(message: &str, allowed: &Vec<String>) -> (r: IpcVerdict)
    ensures
        match ipc_action_of(message@) {
            None => r == IpcVerdict::Malformed,
            Some(None) => r == IpcVerdict::NoAction,
            Some(Some(a)) => if texts(allowed@).contains(a) {
                r matches IpcVerdict::Allowed(x) && x@ == a
            } else {
                r matches IpcVerdict::NotAllowed(x) && x@ == a
            },
        },
{
    let action = parse_ipc_action(message);
    screen_ipc_action(action, allowed)
}

/// Rate limiting: an allowed action is throttled when the limiter has no
/// room for it; every other verdict stands. Only allowed actions are put
/// to the limiter, so refused messages do not count against the rate.
pub fn throttle(verdict: IpcVerdict, limiter_allows: bool) -> (r: IpcVerdict)
    ensures
        match verdict {
            IpcVerdict::Allowed(a) => if limiter_allows {
                r == IpcVerdict::Allowed(a)
            } else {
                r == IpcVerdict::Throttled(a)
            },
            _ => r == verdict,
        },
{
    match verdict {
        IpcVerdict::Allowed(a) => if limiter_allows {
            IpcVerdict::Allowed(a)
        } else {
            IpcVerdict::Throttled(a)
        },
        other => other,
    }
}

/// The index of the last `.` of `s`, or -1 when it has none.
pub open spec fn last_dot(s: Seq<char>) -> int
    decreases s.len(),
{
    if s.len() == 0 {
        -1
    } else if s.last() == '.' {
        s.len() - 1
    } else {
        last_dot(s.drop_last())
    }
}

/// The extension of a file name: what follows its last `.`, unless it has
/// none or its only `.` is the leading one.
pub open spec fn extension_of(name: Seq<char>) -> Option<Seq<char>> {
    let k = last_dot(name);
    if k <= 0 {
        None
    } else {
        Some(name.skip(k + 1))
    }
}

/// `s` with ASCII capitals lowered.
pub open spec fn ascii_lower(s: Seq<char>) -> Seq<char> {
    s.map_values(|c: char| if 'A' <= c <= 'Z' { ((c as int) + 32) as char } else { c })
}

/// The content type served for a file extension (compared without regard
/// to ASCII case).
pub open spec fn mime_of(ext: Option<Seq<char>>) -> Seq<char> {
    match ext {
        Some(e) => {
            let x = ascii_lower(e);
            if x == "html"@ || x == "htm"@ {
                "text/html"@
            } else if x == "js"@ || x == "mjs"@ {
                "text/javascript"@
            } else if x == "css"@ {
                "text/css"@
            } else if x == "wasm"@ {
                "application/wasm"@
            } else if x == "json"@ {
                "application/json"@
            } else if x == "svg"@ {
                "image/svg+xml"@
            } else if x == "png"@ {
                "image/png"@
            } else if x == "jpg"@ || x == "jpeg"@ {
                "image/jpeg"@
            } else if x == "ico"@ {
                "image/x-icon"@
            } else {
                "application/octet-stream"@
            }
        },
        None => "application/octet-stream"@,
    }
}

fn lower(c: char) -> (r: char)
    ensures
        r == (if 'A' <= c <= 'Z' { ((c as int) + 32) as char } else { c }),
{
    if 'A' <= c && c <= 'Z' {
        let u = c as u32;
        let b = u as u8;
        (b + 32) as char
    } else {
        c
    }
}

/// Best-effort content type of a bundled file, from the extension of its
/// file name.
pub fn mime_for(file_name: &str) -> (r: &'static str)
    ensures
        r@ == mime_of(extension_of(file_name@)),
{
    let cs = chars_of(file_name);
    let mut k: usize = cs.len();
    assert(file_name@.take(cs@.len() as int) =~= file_name@);
    while k > 0 && cs[k - 1] != '.'
        invariant
            k <= cs@.len(),
            cs@ == file_name@,
            last_dot(file_name@) == last_dot(file_name@.take(k as int)),
        decreases k,
    {
        assert(file_name@.take(k as int).drop_last() =~= file_name@.take(k - 1));
        k -= 1;
    }
    proof {
        assert(file_name@.take(cs@.len() as int) =~= file_name@);
    }
    if k <= 1 {
        assert(k == 0 ==> file_name@.take(0) =~= Seq::<char>::empty());
        return "application/octet-stream";
    }
    let mut ext = String::new();
    let mut i: usize = k;
    while i < cs.len()
        invariant
            k <= i <= cs@.len(),
            cs@ == file_name@,
            ext@ == ascii_lower(file_name@.subrange(k as int, i as int)),
        decreases cs.len() - i,
    {
        let l = lower(cs[i]);
        push_char(&mut ext, l);
        assert(ascii_lower(file_name@.subrange(k as int, i + 1)) =~= ascii_lower(
            file_name@.subrange(k as int, i as int),
        ).push(l));
        i += 1;
    }
    proof {
        assert(file_name@.subrange(k as int, cs@.len() as int) =~= file_name@.skip(k as int));
        assert(extension_of(file_name@) == Some(file_name@.skip(k as int)));
    }
    let x = ext.as_str();
    if str_eq(x, "html") || str_eq(x, "htm") {
        "text/html"
    } else if str_eq(x, "js") || str_eq(x, "mjs") {
        "text/javascript"
    } else if str_eq(x, "css") {
        "text/css"
    } else if str_eq(x, "wasm") {
        "application/wasm"
    } else if str_eq(x, "json") {
        "application/json"
    } else if str_eq(x, "svg") {
        "image/svg+xml"
    } else if str_eq(x, "png") {
        "image/png"
    } else if str_eq(x, "jpg") || str_eq(x, "jpeg") {
        "image/jpeg"
    } else if str_eq(x, "ico") {
        "image/x-icon"
    } else {
        "application/octet-stream"
    }
}

/// The segments of `s` between `/` separators, in order.
pub open spec fn segments(s: Seq<char>) -> Seq<Seq<char>>
    decreases s.len(),
{
    if s.len() == 0 {
        seq![Seq::empty()]
    } else {
        let rest = segments(s.drop_last());
        if s.last() == '/' {
            rest.push(Seq::empty())
        } else {
            rest.update(rest.len() - 1, rest.last().push(s.last()))
        }
    }
}

/// `s` without its leading `/` characters.
pub open spec fn trim_slashes(s: Seq<char>) -> Seq<char>
    decreases s.len(),
{
    if s.len() > 0 && s[0] == '/' {
        trim_slashes(s.skip(1))
    } else {
        s
    }
}

/// The file of the bundle a request path names: the path without its
/// leading slashes, `index.html` for the root, and nothing when any segment
/// starts with `..` (a way out of the bundle).
pub open spec fn bundle_file_of(path: Seq<char>) -> Option<Seq<char>> {
    let rel = requested_file(path);
    if leaves_bundle(rel) {
        None
    } else {
        Some(rel)
    }
}

/// The file a request path names: without its leading slashes, and
/// `index.html` for the root.
pub open spec fn requested_file(path: Seq<char>) -> Seq<char> {
    let rel = trim_slashes(path);
    if rel.len() == 0 {
        "index.html"@
    } else {
        rel
    }
}

/// Some segment of `rel` starts with `..`.
pub open spec fn leaves_bundle(rel: Seq<char>) -> bool {
    exists|i: int| 0 <= i < segments(rel).len() && #[trigger] segments(rel)[i].len() >= 2
        && segments(rel)[i][0] == '.' && segments(rel)[i][1] == '.'
}

proof fn lemma_segments_nonempty(s: Seq<char>)
    ensures
        segments(s).len() >= 1,
    decreases s.len(),
{
    if s.len() > 0 {
        lemma_segments_nonempty(s.drop_last());
    }
}

proof fn lemma_trim_prefix_slashes(s: Seq<char>, i: int)
    requires
        0 <= i <= s.len(),
        forall|k: int| 0 <= k < i ==> s[k] == '/',
    ensures
        trim_slashes(s) == trim_slashes(s.skip(i)),
    decreases i,
{
    if i == 0 {
        assert(s.skip(0) =~= s);
    } else {
        let t = s.skip(1);
        assert forall|k: int| 0 <= k < i - 1 implies t[k] == '/' by {
            assert(t[k] == s[k + 1]);
        }
        lemma_trim_prefix_slashes(t, i - 1);
        assert(t.skip(i - 1) =~= s.skip(i));
    }
}

fn requested(path: &str) -> (r: Vec<char>)
    ensures
        r@ == requested_file(path@),
{
    let cs = chars_of(path);
    let mut i: usize = 0;
    while i < cs.len() && cs[i] == '/'
        invariant
            i <= cs@.len(),
            cs@ == path@,
            forall|k: int| 0 <= k < i ==> path@[k] == '/',
        decreases cs.len() - i,
    {
        i += 1;
    }
    proof {
        lemma_trim_prefix_slashes(path@, i as int);
        if i < cs@.len() {
            assert(path@.skip(i as int)[0] == path@[i as int]);
        }
    }
    let mut rel: Vec<char> = Vec::new();
    let mut j: usize = i;
    while j < cs.len()
        invariant
            i <= j <= cs@.len(),
            cs@ == path@,
            rel@ == path@.subrange(i as int, j as int),
        decreases cs.len() - j,
    {
        rel.push(cs[j]);
        assert(rel@ =~= path@.subrange(i as int, j + 1));
        j += 1;
    }
    assert(rel@ =~= trim_slashes(path@)) by {
        assert(path@.subrange(i as int, cs@.len() as int) =~= path@.skip(i as int));
    }
    if rel.len() == 0 {
        proof {
            reveal_strlit("index.html");
        }
        let idx = chars_of("index.html");
        return idx;
    }
    rel
}

fn scan_leaves(rel: &Vec<char>) -> (b: bool)
    ensures
        b == leaves_bundle(rel@),
{
    let ghost r = rel@;
    let mut k: usize = 0;
    let mut seg_start: usize = 0;
    proof {
        lemma_segments_nonempty(r.take(0));
        assert(r.take(0) =~= Seq::<char>::empty());
    }
    while k < rel.len()
        invariant
            rel@ == r,
            seg_start <= k <= r.len(),
            segments(r.take(k as int)).len() >= 1,
            segments(r.take(k as int)).last() == r.subrange(seg_start as int, k as int),
            forall|q: int| 0 <= q < segments(r.take(k as int)).len() - 1 ==> !(#[trigger] segments(r.take(k as int))[q].len() >= 2
                && segments(r.take(k as int))[q][0] == '.' && segments(r.take(k as int))[q][1] == '.'),
        decreases rel.len() - k,
    {
        proof {
            assert(r.take(k + 1).drop_last() =~= r.take(k as int));
            assert(r.take(k + 1).last() == r[k as int]);
        }
        if rel[k] == '/' {
            if k - seg_start >= 2 && rel[seg_start] == '.' && rel[seg_start + 1] == '.' {
                proof {
                    let segs = segments(r.take(k as int));
                    assert(segs.last()[0] == '.' && segs.last()[1] == '.');
                    lemma_segments_prefix_bad(r, k as int, segs.len() - 1);
                }
                return true;
            }
            proof {
                let segs = segments(r.take(k as int));
                assert(segments(r.take(k + 1)) == segs.push(Seq::<char>::empty()));
                assert(r.subrange(k + 1, k + 1) =~= Seq::<char>::empty());
            }
            seg_start = k + 1;
        } else {
            proof {
                let segs = segments(r.take(k as int));
                assert(segments(r.take(k + 1)) == segs.update(segs.len() - 1, segs.last().push(r[k as int])));
                assert(r.subrange(seg_start as int, k + 1) =~= r.subrange(seg_start as int, k as int).push(r[k as int]));
            }
        }
        k += 1;
    }
    assert(r.take(r.len() as int) =~= r);
    let n = rel.len();
    if n - seg_start >= 2 && rel[seg_start] == '.' && rel[seg_start + 1] == '.' {
        proof {
            let segs = segments(r);
            assert(segs[segs.len() - 1] == segs.last());
            assert(segments(r)[segs.len() - 1].len() >= 2);
        }
        return true;
    }
    proof {
        let segs = segments(r);
        assert forall|i: int| 0 <= i < segs.len() implies !(#[trigger] segs[i].len() >= 2 && segs[i][0] == '.'
            && segs[i][1] == '.') by {
            if i == segs.len() - 1 {
                assert(segs[i] == segs.last());
            }
        }
    }
    false
}

/// Which bundled file a request for `path` may be served from: `None` when
/// the path tries to leave the bundle through a segment starting with `..`.
pub fn bundle_file(path: &str) -> (r: Option<String>)
    ensures
        match r {
            Some(f) => bundle_file_of(path@) == Some(f@),
            None => bundle_file_of(path@) is None,
        },
{
    let rel = requested(path);
    if scan_leaves(&rel) {
        return None;
    }
    let mut out = String::new();
    let mut q: usize = 0;
    while q < rel.len()
        invariant
            q <= rel@.len(),
            out@ == rel@.take(q as int),
        decreases rel.len() - q,
    {
        push_char(&mut out, rel[q]);
        assert(rel@.take(q + 1) =~= rel@.take(q as int).push(rel@[q as int]));
        q += 1;
    }
    assert(rel@.take(rel@.len() as int) =~= rel@);
    Some(out)
}

proof fn lemma_segments_prefix_bad(r: Seq<char>, k: int, q: int)
    requires
        0 <= k <= r.len(),
        0 <= q < segments(r.take(k)).len(),
        segments(r.take(k))[q].len() >= 2,
        segments(r.take(k))[q][0] == '.',
        segments(r.take(k))[q][1] == '.',
    ensures
        leaves_bundle(r),
    decreases r.len() - k,
{
    if k == r.len() {
        assert(r.take(k) =~= r);
        assert(segments(r)[q].len() >= 2);
    } else {
        lemma_segments_nonempty(r.take(k));
        let t = r.take(k + 1);
        assert(t.drop_last() =~= r.take(k));
        let segs = segments(r.take(k));
        if r[k] == '/' {
            assert(segments(t)[q] == segs[q]);
            lemma_segments_prefix_bad(r, k + 1, q);
        } else {
            let ext = segments(t);
            assert(ext.len() == segs.len());
            if q == segs.len() - 1 {
                assert(ext[q] == segs.last().push(r[k]));
                assert(ext[q][0] == segs[q][0]);
                assert(ext[q][1] == segs[q][1]);
            } else {
                assert(ext[q] == segs[q]);
            }
            lemma_segments_prefix_bad(r, k + 1, q);
        }
    }
}

} // verus!
