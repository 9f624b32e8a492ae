//! The decisions of the Model Context Protocol server: what a request line
//! holds, which JSON-RPC methods are answered and how, where a tool call
//! goes, and the texts a client is shown. Reading lines and writing the
//! JSON replies is the host's job.

use vstd::prelude::*;

use crate::component::{trim, trimmed};
use crate::text::{push_str, str_eq};

verus! {

broadcast use vstd::string::group_string_axioms;

/// The result of executing an application command, reported back to the
/// client as tool-call content (a failure is flagged as an error).
#[derive(Debug, Clone, PartialEq, Eq)]
pub struct McpCommandResult {
    pub ok: bool,
    pub message: String,
}

impl McpCommandResult {
    /// A success with a message.
    pub fn ok(message: &str) -> (r: McpCommandResult)
        ensures
            r.ok,
            r.message@ == message@,
    {
        McpCommandResult { ok: true, message: String::from_str(message) }
    }

    /// A failure with a message.
    pub fn err(message: &str) -> (r: McpCommandResult)
        ensures
            !r.ok,
            r.message@ == message@,
    {
        McpCommandResult { ok: false, message: String::from_str(message) }
    }
}

/// How a JSON-RPC request is answered.
#[derive(Debug, Clone, Copy, PartialEq, Eq, Structural)]
pub enum McpMethod {
    /// `initialize`: server name, version and capabilities.
    Initialize,
    /// A notification the server acknowledges with no response.
    Notification,
    /// `tools/list`: the tool definitions.
    ToolsList,
    /// `tools/call`: run one tool.
    ToolsCall,
    /// Anything else: a "method not found" error when the request has an id,
    /// nothing when it is a notification.
    Unknown,
}

/// The answer kind of a JSON-RPC method name.
pub open spec fn method_kind(method: Seq<char>) -> McpMethod {
    if method == "initialize"@ {
        McpMethod::Initialize
    } else if method == "notifications/initialized"@ || method == "notifications/cancelled"@ {
        McpMethod::Notification
    } else if method == "tools/list"@ {
        McpMethod::ToolsList
    } else if method == "tools/call"@ {
        McpMethod::ToolsCall
    } else {
        McpMethod::Unknown
    }
}

/// Classifies a JSON-RPC method name (a request without one is treated as
/// the empty name).
pub fn classify_method(method: &str) -> (r: McpMethod)
    ensures
        r == method_kind(method@),
{
    if str_eq(method, "initialize") {
        McpMethod::Initialize
    } else if str_eq(method, "notifications/initialized") || str_eq(
        method,
        "notifications/cancelled",
    ) {
        McpMethod::Notification
    } else if str_eq(method, "tools/list") {
        McpMethod::ToolsList
    } else if str_eq(method, "tools/call") {
        McpMethod::ToolsCall
    } else {
        McpMethod::Unknown
    }
}

/// The JSON-RPC error code for an unknown method.
pub const METHOD_NOT_FOUND: i64 = -32601;

/// The message of the error for an unknown method.
pub fn method_not_found_message(method: &str) -> (r: String)
    ensures
        r@ == "method not found: "@ + method@,
{
    let mut r = String::from_str("method not found: ");
    push_str(&mut r, method);
    r
}

/// Where a tool call goes.
#[derive(Debug, Clone, Copy, PartialEq, Eq, Structural)]
pub enum ToolRoute {
    /// The built-in read-only UI snapshot.
    QueryState,
    /// The built-in route change.
    Navigate,
    /// Any other name: an application action, handed to its command handler.
    App,
}

/// The destination of a tool call named `name`.
pub open spec fn tool_route(name: Seq<char>) -> ToolRoute {
    if name == "query_state"@ {
        ToolRoute::QueryState
    } else if name == "navigate"@ {
        ToolRoute::Navigate
    } else {
        ToolRoute::App
    }
}

/// Routes a tool call by its name.
pub fn route_tool(name: &str) -> (r: ToolRoute)
    ensures
        r == tool_route(name@),
{
    if str_eq(name, "query_state") {
        ToolRoute::QueryState
    } else if str_eq(name, "navigate") {
        ToolRoute::Navigate
    } else {
        ToolRoute::App
    }
}

/// What the client is told of a tool call: whether it failed, and the text.
#[derive(Debug, Clone, PartialEq, Eq)]
pub struct ToolOutcome {
    pub is_error: bool,
    pub text: String,
}

/// The outcome of a `navigate` call: with a `route` argument the app is
/// sent there; without one the call fails.
pub fn navigate_outcome(route: Option<&str>) -> (r: ToolOutcome)
    ensures
        match route {
            Some(p) => !r.is_error && r.text@ == "navigated to "@ + p@,
            None => r.is_error && r.text@ == "missing required `route` argument"@,
        },
{
    match route {
        Some(p) => {
            let mut text = String::from_str("navigated to ");
            push_str(&mut text, p);
            ToolOutcome { is_error: false, text }
        },
        None => ToolOutcome {
            is_error: true,
            text: String::from_str("missing required `route` argument"),
        },
    }
}

/// The outcome of an application action: an error exactly when the
/// handler reported failure, with the handler's message.
pub fn app_outcome(result: McpCommandResult) -> (r: ToolOutcome)
    ensures
        r.is_error == !result.ok,
        r.text == result.message,
{
    ToolOutcome { is_error: !result.ok, text: result.message }
}

/// The description of an action tool: the element's own description, or
/// else `Invoke the "<label>" <kind>` (an absent label reads as empty).
pub open spec fn tool_description_of(
    description: Option<Seq<char>>,
    label: Option<Seq<char>>,
    kind: Seq<char>,
) -> Seq<char> {
    match description {
        Some(d) => d,
        None => "Invoke the \""@ + (match label {
            Some(l) => l,
            None => Seq::<char>::empty(),
        }) + "\" "@ + kind,
    }
}

/// Describes the tool generated for an interactive element.
pub fn tool_description(description: Option<&str>, label: Option<&str>, kind: &str) -> (r: String)
    ensures
        r@ == tool_description_of(
            match description {
                Some(d) => Some(d@),
                None => None,
            },
            match label {
                Some(l) => Some(l@),
                None => None,
            },
            kind@,
        ),
{
    match description {
        Some(d) => String::from_str(d),
        None => {
            let mut r = String::from_str("Invoke the \"");
            match label {
                Some(l) => push_str(&mut r, l),
                None => {},
            }
            push_str(&mut r, "\" ");
            push_str(&mut r, kind);
            r
        },
    }
}

/// Describes one parameter of a generated tool by its example value.
pub fn param_description(example: &str) -> (r: String)
    ensures
        r@ == "e.g. "@ + example@,
{
    let mut r = String::from_str("e.g. ");
    push_str(&mut r, example);
    r
}

/// One JSON-RPC request, as far as the server reads it.
#[derive(Debug, Clone, PartialEq, Eq)]
pub struct McpRequest {
    /// The request's `id`, as JSON text; absent for a notification.
    pub id: Option<String>,
    /// The `method`, when it is a string.
    pub method: Option<String>,
    /// `params.name`, when it is a string.
    pub tool: Option<String>,
    /// `params.arguments.route`, when it is a string.
    pub route: Option<String>,
    /// `params.arguments`, as JSON text, when it is an object.
    pub arguments: Option<String>,
}

/// The characters of an optional string.
pub open spec fn opt_chars(o: Option<String>) -> Option<Seq<char>> {
    match o {
        Some(s) => Some(s@),
        None => None,
    }
}

/// An optional text, or the empty text.
pub open spec fn or_empty(o: Option<Seq<char>>) -> Seq<char> {
    match o {
        Some(s) => s,
        None => Seq::empty(),
    }
}

/// The fields of a request, as characters.
pub struct McpRequestView {
    pub id: Option<Seq<char>>,
    pub method: Option<Seq<char>>,
    pub tool: Option<Seq<char>>,
    pub route: Option<Seq<char>>,
    pub arguments: Option<Seq<char>>,
}

impl View for McpRequest {
    type V = McpRequestView;

    open spec fn view(&self) -> McpRequestView {
        McpRequestView {
            id: opt_chars(self.id),
            method: opt_chars(self.method),
            tool: opt_chars(self.tool),
            route: opt_chars(self.route),
            arguments: opt_chars(self.arguments),
        }
    }
}

/// A parsed request, as characters.
pub open spec fn request_view(r: Option<McpRequest>) -> Option<McpRequestView> {
    match r {
        Some(q) => Some(q@),
        None => None,
    }
}

/// What the JSON parser reads from a request line: nothing when it is not
/// JSON, else the request's fields.
pub uninterp spec fn request_of_line(line: Seq<char>) -> Option<McpRequestView>;

/// Parses a request line with `serde_json::from_str` into a
/// `serde_json::Value` and reads its fields (`Value::get` and indexing
/// yield nothing on other shapes); `id` and `arguments` are written back
/// as JSON text with `to_string`. Trusted: the contract only names the
/// outcome (`request_of_line`), a function of the line alone.
#[verifier::external_body]
fn parse_request(line: &str) -> (r: Option<McpRequest>)
    ensures
        request_view(r) == request_of_line(line@),
{
    let v: serde_json::Value = match serde_json::from_str(line) {
        Ok(v) => v,
        Err(_) => return None,
    };
    let args = &v["params"]["arguments"];
    Some(McpRequest {
        id: v.get("id").map(serde_json::Value::to_string),
        method: v["method"].as_str().map(String::from),
        tool: v["params"]["name"].as_str().map(String::from),
        route: args["route"].as_str().map(String::from),
        arguments: match args {
            serde_json::Value::Object(_) => Some(args.to_string()),
            _ => None,
        },
    })
}

/// Reads one line of the stdio transport: blank lines carry no request;
/// otherwise the line, trimmed, is parsed (`None` when it is not JSON).
pub fn request_for_line(line: &str) -> (r: Option<McpRequest>)
    ensures
        trimmed(line@).len() == 0 ==> r is None,
        trimmed(line@).len() > 0 ==> request_view(r) == request_of_line(trimmed(line@)),
{
    let t = trim(line);
    if t.as_str().is_empty() {
        None
    } else {
        parse_request(t.as_str())
    }
}

/// How a request is answered.
#[derive(Debug, Clone, PartialEq, Eq)]
pub enum McpAnswer {
    /// The server's name, version and capabilities.
    Initialize,
    /// The tool definitions.
    ToolsList,
    /// The UI snapshot, as the tool-call text.
    QueryState,
    /// A route change: the host navigates to `route` when there is one,
    /// and reports `outcome`.
    Navigate { route: Option<String>, outcome: ToolOutcome },
    /// An application action, handed to the command handler with the
    /// call's arguments.
    RunAction { action: String },
    /// A "method not found" error (code [`METHOD_NOT_FOUND`]).
    MethodNotFound { message: String },
}

/// An answer, with its texts as characters.
pub enum McpAnswerView {
    Initialize,
    ToolsList,
    QueryState,
    Navigate { route: Option<Seq<char>>, is_error: bool, text: Seq<char> },
    RunAction { action: Seq<char> },
    MethodNotFound { message: Seq<char> },
}

/// The characters of an answer.
pub open spec fn answer_view(a: Option<McpAnswer>) -> Option<McpAnswerView> {
    match a {
        None => None,
        Some(McpAnswer::Initialize) => Some(McpAnswerView::Initialize),
        Some(McpAnswer::ToolsList) => Some(McpAnswerView::ToolsList),
        Some(McpAnswer::QueryState) => Some(McpAnswerView::QueryState),
        Some(McpAnswer::Navigate { route, outcome }) => Some(
            McpAnswerView::Navigate {
                route: opt_chars(route),
                is_error: outcome.is_error,
                text: outcome.text@,
            },
        ),
        Some(McpAnswer::RunAction { action }) => Some(McpAnswerView::RunAction { action: action@ }),
        Some(McpAnswer::MethodNotFound { message }) => Some(
            McpAnswerView::MethodNotFound { message: message@ },
        ),
    }
}

/// The answer a request gets: none for notifications and for unknown
/// methods without an id; a tool call goes where its name routes it.
pub open spec fn answer_of(req: McpRequestView) -> Option<McpAnswerView> {
    let method = or_empty(req.method);
    match method_kind(method) {
        McpMethod::Initialize => Some(McpAnswerView::Initialize),
        McpMethod::Notification => None,
        McpMethod::ToolsList => Some(McpAnswerView::ToolsList),
        McpMethod::ToolsCall => {
            let name = or_empty(req.tool);
            match tool_route(name) {
                ToolRoute::QueryState => Some(McpAnswerView::QueryState),
                ToolRoute::Navigate => Some(
                    McpAnswerView::Navigate {
                        route: req.route,
                        is_error: req.route is None,
                        text: match req.route {
                            Some(p) => "navigated to "@ + p,
                            None => "missing required `route` argument"@,
                        },
                    },
                ),
                ToolRoute::App => Some(McpAnswerView::RunAction { action: name }),
            }
        },
        McpMethod::Unknown => if req.id is Some {
            Some(McpAnswerView::MethodNotFound { message: "method not found: "@ + method })
        } else {
            None
        },
    }
}

fn text_or_empty(o: &Option<String>) -> (r: &str)
    ensures
        r@ == or_empty(opt_chars(*o)),
{
    match o {
        Some(s) => s.as_str(),
        None => {
            proof {
                reveal_strlit("");
            }
            ""
        },
    }
}

/// Decides how a request is answered.
pub fn answer(req: &McpRequest) -> (r: Option<McpAnswer>)
    ensures
        answer_view(r) == answer_of(req@),
{
    let method = text_or_empty(&req.method);
    match classify_method(method) {
        McpMethod::Initialize => Some(McpAnswer::Initialize),
        McpMethod::Notification => None,
        McpMethod::ToolsList => Some(McpAnswer::ToolsList),
        McpMethod::ToolsCall => {
            let name = text_or_empty(&req.tool);
            match route_tool(name) {
                ToolRoute::QueryState => Some(McpAnswer::QueryState),
                ToolRoute::Navigate => {
                    let outcome = match &req.route {
                        Some(p) => navigate_outcome(Some(p.as_str())),
                        None => navigate_outcome(None),
                    };
                    Some(McpAnswer::Navigate { route: req.route.clone(), outcome })
                },
                ToolRoute::App => Some(McpAnswer::RunAction { action: String::from_str(name) }),
            }
        },
        McpMethod::Unknown => if req.id.is_some() {
            Some(McpAnswer::MethodNotFound { message: method_not_found_message(method) })
        } else {
            None
        },
    }
}

} // verus!
