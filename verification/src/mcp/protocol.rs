//! The parts of the MCP protocol the agent speaks: the parameters of its
//! requests, how it treats what the server sends back, root entries, server
//! information and the content of tool-call results.
use vstd::prelude::*;
use vstd::string::*;
use crate::api::opt_text;
use crate::json::{item_models, json_str, lemma_item_models, lemma_member_models, member, member_models, object_of, Json, JsonModel};
use crate::text::decimal;
use crate::text::{append_chars, append_str, join, join_strings, str_chars, str_eq, string_from_chars, string_views};

verus! {

#[derive(Debug, Clone)]
pub struct ServerInfo {
    pub name: String,
    pub version: String,
}

#[derive(Debug, Clone)]
pub struct RootEntry {
    pub uri: String,
    pub name: String,
}

impl RootEntry {
    /// A root for a directory: its `file://` URI and a name.
    pub fn from_path(path: &str, name: &str) -> (r: Self)
        ensures
            r.uri@ == "file://"@ + path@,
            r.name@ == name@,
    {
        let mut v = str_chars("file://");
        append_str(&mut v, path);
        RootEntry { uri: string_from_chars(v.as_slice()), name: String::from_str(name) }
    }
}

/// One item of a tool-call result.
#[derive(Debug, Clone)]
pub struct ToolContent {
    pub kind: String,
    pub text: Option<String>,
    pub data: Option<String>,
    pub mime_type: Option<String>,
    pub uri: Option<String>,
    pub name: Option<String>,
}

#[derive(Debug, Clone)]
pub struct ToolCallResult {
    pub content: Vec<ToolContent>,
    pub is_error: Option<bool>,
}

pub open spec fn or_unknown(o: Option<Seq<char>>) -> Seq<char> {
    match o {
        Some(s) => s,
        None => "unknown"@,
    }
}

/// The text that one item contributes, if any: text items their text, image
/// and audio items a note of their MIME type, resources a note of their
/// name, type and URI, and other items their text when they have one.
pub open spec fn content_part(c: ToolContent) -> Option<Seq<char>> {
    let kind = c.kind@;
    if kind == "image"@ || kind == "audio"@ {
        Some("["@ + kind + " content: "@ + or_unknown(opt_text(c.mime_type)) + "]"@)
    } else if kind == "resource"@ {
        Some(
            "[resource: "@ + or_unknown(opt_text(c.name)) + " ("@ + or_unknown(
                opt_text(c.mime_type),
            ) + ") "@ + or_unknown(opt_text(c.uri)) + "]"@,
        )
    } else {
        opt_text(c.text)
    }
}

pub open spec fn content_parts(cs: Seq<ToolContent>) -> Seq<Seq<char>>
    decreases cs.len(),
{
    if cs.len() == 0 {
        Seq::empty()
    } else {
        content_parts(cs.drop_last()) + match content_part(cs.last()) {
            Some(p) => seq![p],
            None => Seq::empty(),
        }
    }
}

/// The parts joined by newlines, after `MCP tool error: ` for an error.
pub open spec fn spec_result_text(r: ToolCallResult) -> Seq<char> {
    let body = join(content_parts(r.content@), "\n"@);
    if r.is_error == Some(true) {
        "MCP tool error: "@ + body
    } else {
        body
    }
}

fn text_or_unknown(o: &Option<String>) -> (r: String)
    ensures
        r@ == or_unknown(opt_text(*o)),
{
    match o {
        Some(s) => s.clone(),
        None => String::from_str("unknown"),
    }
}

fn content_part_exec(c: &ToolContent) -> (r: Option<String>)
    ensures
        opt_text(r) == content_part(*c),
{
    let kind = c.kind.as_str();
    if str_eq(kind, "image") || str_eq(kind, "audio") {
        let mut v = str_chars("[");
        append_str(&mut v, kind);
        append_str(&mut v, " content: ");
        append_str(&mut v, text_or_unknown(&c.mime_type).as_str());
        append_str(&mut v, "]");
        Some(string_from_chars(v.as_slice()))
    } else if str_eq(kind, "resource") {
        let mut v = str_chars("[resource: ");
        append_str(&mut v, text_or_unknown(&c.name).as_str());
        append_str(&mut v, " (");
        append_str(&mut v, text_or_unknown(&c.mime_type).as_str());
        append_str(&mut v, ") ");
        append_str(&mut v, text_or_unknown(&c.uri).as_str());
        append_str(&mut v, "]");
        Some(string_from_chars(v.as_slice()))
    } else {
        match &c.text {
            Some(t) => Some(t.clone()),
            None => None,
        }
    }
}

impl ToolCallResult {
    pub fn to_text(&self) -> (s: String)
        ensures
            s@ == spec_result_text(*self),
    {
        let mut parts: Vec<String> = Vec::new();
        let mut i: usize = 0;
        assert(self.content@.take(0) =~= Seq::<ToolContent>::empty());
        while i < self.content.len()
            invariant
                i <= self.content@.len(),
                string_views(parts@) == content_parts(self.content@.take(i as int)),
            decreases self.content.len() - i,
        {
            assert(self.content@.take(i + 1).drop_last() =~= self.content@.take(i as int));
            match content_part_exec(&self.content[i]) {
                Some(p) => {
                    let ghost before = string_views(parts@);
                    parts.push(p);
                    assert(string_views(parts@) =~= before + seq![p@]);
                },
                None => {
                    let ghost before = string_views(parts@);
                    assert(before + Seq::<Seq<char>>::empty() =~= before);
                },
            }
            i = i + 1;
        }
        assert(self.content@.take(self.content@.len() as int) =~= self.content@);
        let body = join_strings(&parts, "\n");
        let is_error = match self.is_error {
            Some(b) => b,
            None => false,
        };
        if is_error {
            let mut v = str_chars("MCP tool error: ");
            append_str(&mut v, body.as_str());
            string_from_chars(v.as_slice())
        } else {
            body
        }
    }
}


// ---------------------------------------------------------------------------
// Request parameters.
// ---------------------------------------------------------------------------

pub const MCP_PROTOCOL_VERSION: &'static str = "2025-06-18";

/// The parameters of `initialize`: the client's roots capability, its name
/// and version, and the protocol version.
pub open spec fn initialize_json(client_name: Seq<char>, client_version: Seq<char>) -> JsonModel {
    JsonModel::Object(
        seq![
            (
                "capabilities"@,
                JsonModel::Object(
                    seq![
                        (
                            "roots"@,
                            JsonModel::Object(seq![("listChanged"@, JsonModel::Bool(true))]),
                        ),
                    ],
                ),
            ),
            (
                "clientInfo"@,
                JsonModel::Object(
                    seq![
                        ("name"@, JsonModel::Str(client_name)),
                        ("version"@, JsonModel::Str(client_version)),
                    ],
                ),
            ),
            ("protocolVersion"@, JsonModel::Str("2025-06-18"@)),
        ],
    )
}

pub fn initialize_params(client_name: &str, client_version: &str) -> (j: Json)
    ensures
        j@ == initialize_json(client_name@, client_version@),
{
    let mut list_changed: Vec<(String, Json)> = Vec::new();
    list_changed.push(member("listChanged", Json::Bool(true)));
    let mut roots: Vec<(String, Json)> = Vec::new();
    roots.push(member("roots", object_of(list_changed)));
    let mut info: Vec<(String, Json)> = Vec::new();
    info.push(member("name", json_str(client_name)));
    info.push(member("version", json_str(client_version)));
    let mut ms: Vec<(String, Json)> = Vec::new();
    ms.push(member("capabilities", object_of(roots)));
    ms.push(member("clientInfo", object_of(info)));
    ms.push(member("protocolVersion", json_str(MCP_PROTOCOL_VERSION)));
    proof {
        lemma_member_models(list_changed@);
        lemma_member_models(roots@);
        lemma_member_models(info@);
        lemma_member_models(ms@);
        reveal_strlit("listChanged");
        reveal_strlit("roots");
        reveal_strlit("name");
        reveal_strlit("version");
        reveal_strlit("capabilities");
        reveal_strlit("clientInfo");
        reveal_strlit("protocolVersion");
        reveal_strlit("2025-06-18");
        assert(member_models(list_changed@) =~= seq![("listChanged"@, JsonModel::Bool(true))]);
        assert(member_models(roots@) =~= seq![
            ("roots"@, JsonModel::Object(seq![("listChanged"@, JsonModel::Bool(true))])),
        ]);
        assert(member_models(info@) =~= seq![
            ("name"@, JsonModel::Str(client_name@)),
            ("version"@, JsonModel::Str(client_version@)),
        ]);
        assert(member_models(ms@) =~= initialize_json(client_name@, client_version@)->Object_0);
    }
    object_of(ms)
}

/// A root as the server sees it: its URI and name.
pub open spec fn root_json(uri: Seq<char>, name: Seq<char>) -> JsonModel {
    JsonModel::Object(seq![("name"@, JsonModel::Str(name)), ("uri"@, JsonModel::Str(uri))])
}

pub open spec fn roots_json(roots: Seq<RootEntry>) -> Seq<JsonModel> {
    roots.map_values(|r: RootEntry| root_json(r.uri@, r.name@))
}

/// The result of `roots/list`: the roots, in order.
pub fn roots_list_params(roots: &[RootEntry]) -> (j: Json)
    ensures
        j@ == JsonModel::Object(seq![("roots"@, JsonModel::Array(roots_json(roots@)))]),
{
    let mut items: Vec<Json> = Vec::new();
    let mut i: usize = 0;
    proof {
        reveal_strlit("name");
        reveal_strlit("uri");
        reveal_strlit("roots");
        assert(roots_json(roots@).take(0) =~= Seq::<JsonModel>::empty());
        assert(item_models(items@) =~= Seq::<JsonModel>::empty());
    }
    while i < roots.len()
        invariant
            i <= roots.len(),
            item_models(items@) == roots_json(roots@).take(i as int),
        decreases roots.len() - i,
    {
        let mut ms: Vec<(String, Json)> = Vec::new();
        ms.push(member("name", Json::Str(roots[i].name.clone())));
        ms.push(member("uri", Json::Str(roots[i].uri.clone())));
        proof {
            lemma_member_models(ms@);
            assert(member_models(ms@) =~= root_json(roots@[i as int].uri@, roots@[i as int].name@)->Object_0);
        }
        let ghost before = items@;
        items.push(object_of(ms));
        proof {
            assert(items@.drop_last() =~= before);
            assert(roots_json(roots@).take(i + 1) =~= roots_json(roots@).take(i as int).push(
                roots_json(roots@)[i as int],
            ));
        }
        i = i + 1;
    }
    proof {
        assert(roots_json(roots@).take(roots.len() as int) =~= roots_json(roots@));
    }
    let ghost im = item_models(items@);
    let mut ms: Vec<(String, Json)> = Vec::new();
    ms.push(member("roots", Json::Array(items)));
    proof {
        lemma_member_models(ms@);
        assert(member_models(ms@) =~= seq![("roots"@, JsonModel::Array(im))]);
    }
    object_of(ms)
}

/// The parameters of `tools/call`: the arguments and the tool's name.
pub fn tools_call_params(tool_name: &str, arguments: Json) -> (j: Json)
    ensures
        j@ == JsonModel::Object(
            seq![("arguments"@, arguments@), ("name"@, JsonModel::Str(tool_name@))],
        ),
{
    let ghost a = arguments@;
    let mut ms: Vec<(String, Json)> = Vec::new();
    ms.push(member("arguments", arguments));
    ms.push(member("name", json_str(tool_name)));
    proof {
        lemma_member_models(ms@);
        reveal_strlit("arguments");
        reveal_strlit("name");
        assert(member_models(ms@) =~= seq![("arguments"@, a), ("name"@, JsonModel::Str(tool_name@))]);
    }
    object_of(ms)
}

/// A notification: `jsonrpc` 2.0, the method and the parameters when
/// there are any.
pub fn build_notification(method: &str, params: Option<Json>) -> (j: Json)
    ensures
        j@ == JsonModel::Object(
            match params {
                Some(p) => seq![
                    ("jsonrpc"@, JsonModel::Str("2.0"@)),
                    ("method"@, JsonModel::Str(method@)),
                    ("params"@, p@),
                ],
                None => seq![("jsonrpc"@, JsonModel::Str("2.0"@)), ("method"@, JsonModel::Str(method@))],
            },
        ),
{
    let ghost pm = params;
    let mut ms: Vec<(String, Json)> = Vec::new();
    ms.push(member("jsonrpc", json_str("2.0")));
    ms.push(member("method", json_str(method)));
    proof {
        reveal_strlit("jsonrpc");
        reveal_strlit("2.0");
        reveal_strlit("method");
        reveal_strlit("params");
    }
    match params {
        Some(p) => {
            ms.push(member("params", p));
        },
        None => {},
    }
    proof {
        lemma_member_models(ms@);
        match pm {
            Some(p) => {
                assert(member_models(ms@) =~= seq![
                    ("jsonrpc"@, JsonModel::Str("2.0"@)),
                    ("method"@, JsonModel::Str(method@)),
                    ("params"@, p@),
                ]);
            },
            None => {
                assert(member_models(ms@) =~= seq![
                    ("jsonrpc"@, JsonModel::Str("2.0"@)),
                    ("method"@, JsonModel::Str(method@)),
                ]);
            },
        }
    }
    object_of(ms)
}

// ---------------------------------------------------------------------------
// What the client does with a message from the server.
// ---------------------------------------------------------------------------

/// What to do with a message read while waiting for the answer to a request.
#[derive(Debug, Clone, Copy, PartialEq, Eq, Structural)]
pub enum ResponseAction {
    /// The server asks for the roots: answer and keep waiting.
    AnswerRootsList,
    /// A notification: keep waiting.
    IgnoreNotification,
    /// The answer to the request.
    Accept,
    /// An answer to another request: keep waiting.
    IgnoreOther,
}

pub open spec fn spec_response_action(method: Option<Seq<char>>, id: Option<u64>, expected_id: u64) -> ResponseAction {
    if method == Some("roots/list"@) {
        ResponseAction::AnswerRootsList
    } else if id is None && method is Some {
        ResponseAction::IgnoreNotification
    } else if id == Some(expected_id) {
        ResponseAction::Accept
    } else {
        ResponseAction::IgnoreOther
    }
}

pub fn classify_response(method: Option<&str>, id: Option<u64>, expected_id: u64) -> (a: ResponseAction)
    ensures
        a == spec_response_action(
            match method {
                Some(m) => Some(m@),
                None => None,
            },
            id,
            expected_id,
        ),
{
    proof {
        reveal_strlit("roots/list");
    }
    match method {
        Some(m) => {
            if crate::json::same_text(m, "roots/list") {
                return ResponseAction::AnswerRootsList;
            }
        },
        None => {},
    }
    if id.is_none() && method.is_some() {
        ResponseAction::IgnoreNotification
    } else if id == Some(expected_id) {
        ResponseAction::Accept
    } else {
        ResponseAction::IgnoreOther
    }
}

/// The text of a signed integer.
pub open spec fn signed_decimal(n: int) -> Seq<char> {
    if n < 0 {
        "-"@ + decimal((-n) as nat)
    } else {
        decimal(n as nat)
    }
}

/// The message of an error answer to `tools/call`.
pub open spec fn tool_error_message(code: i64, message: Seq<char>) -> Seq<char> {
    "MCP tool error: code="@ + signed_decimal(code as int) + ", message="@ + message
}

pub fn mcp_tool_error_text(code: i64, message: &str) -> (s: String)
    ensures
        s@ == tool_error_message(code, message@),
{
    let mut v = str_chars("MCP tool error: code=");
    if code < 0 {
        append_str(&mut v, "-");
        let magnitude: u64 = if code == i64::MIN {
            9223372036854775808u64
        } else {
            (-code) as u64
        };
        let d = crate::text::decimal_chars(magnitude);
        append_chars(&mut v, d.as_slice());
    } else {
        let d = crate::text::decimal_chars(code as u64);
        append_chars(&mut v, d.as_slice());
    }
    append_str(&mut v, ", message=");
    append_str(&mut v, message);
    proof {
        reveal_strlit("-");
        assert(v@ =~= tool_error_message(code, message@));
    }
    string_from_chars(v.as_slice())
}

} // verus!
