//! The `server: tool` label shown for a tool call in the agent activity
//! timeline, read from the call's title or from its raw JSON input.
use vstd::prelude::*;
use vstd::string::{StringExecFns, StringSliceAdditionalSpecFns};
use vstd::utf8::{encode_utf8, is_char_boundary};
use crate::visuals::ThemeColor;
use crate::text::{
    chars_equal, chars_of, find_char_index, push_str, has_suffix, slice_chars, split_once, string_from_chars,
    strip_suffix, trim, trimmed, ends_with, find_char, is_first_index, is_ws, trim_end, trim_start,
};

verus! {

/// The server and the tool of a tool call.
pub struct ToolLabel {
    pub server: String,
    pub tool: String,
}

impl ToolLabel {
    /// `(server, tool)`.
    pub open spec fn pair(&self) -> (Seq<char>, Seq<char>) {
        (self.server@, self.tool@)
    }
}

/// A JSON member of a tool call's raw input: `None` where the key is absent,
/// `Some(None)` where its value is not a JSON string, `Some(Some(s))` where it
/// is the string `s`.
pub type JsonMember = Option<Option<String>>;

/// The members of a tool call's raw input that a label is read from.
pub struct PayloadFields {
    pub tool: JsonMember,
    pub name: JsonMember,
    pub server: JsonMember,
}

/// The raw input of a tool call: either a JSON string (whose text is JSON
/// again) or any other JSON value, given by the members a label reads.
pub enum ToolPayload {
    Text(String),
    Value(PayloadFields),
}

/// What `serde_json` gives for member `key` of the JSON text `raw`: `None`
/// where `raw` is not valid JSON; otherwise the member as a `JsonMember`.
pub uninterp spec fn json_text_member(raw: Seq<char>, key: Seq<char>) -> Option<Option<Option<Seq<char>>>>;

/// Parses `raw` with `serde_json::from_str::<serde_json::Value>` and reads
/// member `key` with `Value::get` and `Value::as_str`. The result is named by
/// `json_text_member`; nothing more is stated of it.
#[verifier::external_body]
fn parse_json_member(raw: &str, key: &str) -> (r: Option<JsonMember>)
    ensures
        r.deep_view() == json_text_member(raw@, key@),
{
    match serde_json::from_str::<serde_json::Value>(raw) {
        Ok(v) => Some(match v.get(key) {
            None => None,
            Some(serde_json::Value::String(s)) => Some(Some(s.clone())),
            Some(_) => Some(None),
        }),
        Err(_) => None,
    }
}

pub open spec fn known_lareview_tool(tool: Seq<char>) -> bool {
    ||| tool == "return_task"@
    ||| tool == "return_plans"@
    ||| tool == "finalize_review"@
    ||| tool == "repo_search"@
    ||| tool == "repo_list_files"@
}

/// The server that provides a tool of the review agent, when `tool` names one.
pub open spec fn fallback_server(tool: Seq<char>) -> Option<Seq<char>> {
    if known_lareview_tool(tool) {
        Some("lareview-tasks"@)
    } else {
        None
    }
}

fn fallback_server_chars(tool: &Vec<char>) -> (r: Option<Vec<char>>)
    ensures
        match r {
            Some(v) => fallback_server(tool@) == Some(v@),
            None => fallback_server(tool@) is None,
        },
{
    if chars_equal(tool, &chars_of("return_task")) || chars_equal(tool, &chars_of("return_plans"))
        || chars_equal(tool, &chars_of("finalize_review")) || chars_equal(
        tool,
        &chars_of("repo_search"),
    ) || chars_equal(tool, &chars_of("repo_list_files")) {
        Some(chars_of("lareview-tasks"))
    } else {
        None
    }
}

/// The server of the review agent's own tools.
pub fn fallback_server_for_tool(tool: &str) -> (r: Option<&'static str>)
    ensures
        match r {
            Some(s) => fallback_server(tool@) == Some(s@),
            None => fallback_server(tool@) is None,
        },
{
    let t = chars_of(tool);
    match fallback_server_chars(&t) {
        Some(_) => {
            Some("lareview-tasks")
        },
        None => None,
    }
}

/// `s` without the suffix `p`, or `s` itself.
pub open spec fn strip_suffix_or_self(s: Seq<char>, p: Seq<char>) -> Seq<char> {
    match strip_suffix(s, p) {
        Some(t) => t,
        None => s,
    }
}

/// A label from a title of the form `tool (server MCP Server): ...`.
pub open spec fn paren_label(t: Seq<char>) -> Option<(Seq<char>, Seq<char>)> {
    match split_once(t, '(') {
        Some((tool_part, rest)) => match split_once(rest, ')') {
            Some((server_part, _)) => {
                let tool = trim(tool_part);
                let server = trim(strip_suffix_or_self(trim(server_part), "MCP Server"@));
                if tool.len() > 0 && server.len() > 0 {
                    Some((server, tool))
                } else {
                    None
                }
            },
            None => None,
        },
        None => None,
    }
}

/// The label that a tool call's title gives, as `(server, tool)`: `None` for
/// an empty title or one that starts with `{` or `[`; else, in this order,
/// `tool (server MCP Server)`, `server/tool`, `server: tool` (both parts
/// non-empty), or a bare name of one of the review agent's tools.
pub open spec fn title_label(title: Seq<char>) -> Option<(Seq<char>, Seq<char>)> {
    let t = trim(title);
    if t.len() == 0 || t[0] == '{' || t[0] == '[' {
        None
    } else if paren_label(t) is Some {
        paren_label(t)
    } else if split_once(t, '/') is Some {
        let (server, tool) = split_once(t, '/').unwrap();
        Some((trim(server), trim(tool)))
    } else if split_once(t, ':') is Some && trim(split_once(t, ':').unwrap().0).len() > 0 && trim(
        split_once(t, ':').unwrap().1,
    ).len() > 0 {
        let (server, tool) = split_once(t, ':').unwrap();
        Some((trim(server), trim(tool)))
    } else {
        match fallback_server(t) {
            Some(server) => Some((server, t)),
            None => None,
        }
    }
}

fn label_of(server: &Vec<char>, tool: &Vec<char>) -> (r: ToolLabel)
    ensures
        r.pair() == (server@, tool@),
{
    ToolLabel { server: string_from_chars(server), tool: string_from_chars(tool) }
}

fn paren_label_chars(t: &Vec<char>) -> (r: Option<ToolLabel>)
    ensures
        match r {
            Some(l) => paren_label(t@) == Some(l.pair()),
            None => paren_label(t@) is None,
        },
{
    let open = match find_char_index(t, '(') {
        Some(i) => i,
        None => return None,
    };
    let tool_part = slice_chars(t, 0, open);
    let rest = slice_chars(t, open + 1, t.len());
    let close = match find_char_index(&rest, ')') {
        Some(i) => i,
        None => return None,
    };
    let server_part = trimmed(&slice_chars(&rest, 0, close));
    let tool = trimmed(&tool_part);
    let suffix = chars_of("MCP Server");
    let stripped = if has_suffix(&server_part, &suffix) {
        slice_chars(&server_part, 0, server_part.len() - suffix.len())
    } else {
        slice_chars(&server_part, 0, server_part.len())
    };
    assert(stripped@ == strip_suffix_or_self(server_part@, "MCP Server"@)) by {
        if !ends_with(server_part@, suffix@) {
            assert(server_part@.subrange(0, server_part@.len() as int) == server_part@);
        }
    }
    let server = trimmed(&stripped);
    if tool.len() > 0 && server.len() > 0 {
        Some(label_of(&server, &tool))
    } else {
        None
    }
}

/// The label that a tool call's title gives, if any.
pub fn parse_tool_label_from_title(title: &str) -> (r: Option<ToolLabel>)
    ensures
        match r {
            Some(l) => title_label(title@) == Some(l.pair()),
            None => title_label(title@) is None,
        },
{
    let t = trimmed(&chars_of(title));
    if t.len() == 0 || t[0] == '{' || t[0] == '[' {
        return None;
    }
    let p = paren_label_chars(&t);
    if p.is_some() {
        return p;
    }
    if let Some(i) = find_char_index(&t, '/') {
        let server = trimmed(&slice_chars(&t, 0, i));
        let tool = trimmed(&slice_chars(&t, i + 1, t.len()));
        return Some(label_of(&server, &tool));
    }
    if let Some(i) = find_char_index(&t, ':') {
        let server = trimmed(&slice_chars(&t, 0, i));
        let tool = trimmed(&slice_chars(&t, i + 1, t.len()));
        if server.len() > 0 && tool.len() > 0 {
            return Some(label_of(&server, &tool));
        }
    }
    match fallback_server_chars(&t) {
        Some(server) => Some(label_of(&server, &t)),
        None => None,
    }
}

/// The label that the members of a tool call's input give, as
/// `(server, tool)`: the tool is member `tool` where present (else `name`)
/// and must be a string; the server is member `server` where it is a string,
/// else the server of the review agent's own tools.
pub open spec fn fields_label(
    tool: Option<Option<Seq<char>>>,
    name: Option<Option<Seq<char>>>,
    server: Option<Option<Seq<char>>>,
) -> Option<(Seq<char>, Seq<char>)> {
    let chosen = match tool {
        Some(t) => t,
        None => match name {
            Some(n) => n,
            None => None,
        },
    };
    match chosen {
        Some(t) => {
            let srv = match server {
                Some(Some(s)) => Some(s),
                _ => fallback_server(t),
            };
            match srv {
                Some(s) => Some((s, t)),
                None => None,
            }
        },
        None => None,
    }
}

/// The label that a tool call's raw input gives; a JSON string is read as
/// JSON text first.
pub open spec fn payload_label(p: ToolPayload) -> Option<(Seq<char>, Seq<char>)> {
    match p {
        ToolPayload::Text(raw) => match (
            json_text_member(raw@, "tool"@),
            json_text_member(raw@, "name"@),
            json_text_member(raw@, "server"@),
        ) {
            (Some(t), Some(n), Some(s)) => fields_label(t, n, s),
            _ => None,
        },
        ToolPayload::Value(f) => fields_label(
            f.tool.deep_view(),
            f.name.deep_view(),
            f.server.deep_view(),
        ),
    }
}

fn member_text(m: &JsonMember) -> (r: Option<Vec<char>>)
    ensures
        match r {
            Some(v) => m.deep_view() == Some(Some(v@)),
            None => m.deep_view() is None || m.deep_view() == Some(None::<Seq<char>>),
        },
{
    match m {
        Some(Some(s)) => Some(chars_of(s.as_str())),
        _ => None,
    }
}

/// The label that the members of a tool call's input give.
pub fn label_from_fields(f: &PayloadFields) -> (r: Option<ToolLabel>)
    ensures
        match r {
            Some(l) => fields_label(f.tool.deep_view(), f.name.deep_view(), f.server.deep_view())
                == Some(l.pair()),
            None => fields_label(
                f.tool.deep_view(),
                f.name.deep_view(),
                f.server.deep_view(),
            ) is None,
        },
{
    let chosen = if f.tool.is_some() {
        member_text(&f.tool)
    } else {
        member_text(&f.name)
    };
    let tool = match chosen {
        Some(t) => t,
        None => return None,
    };
    let server = match member_text(&f.server) {
        Some(s) => s,
        None => match fallback_server_chars(&tool) {
            Some(s) => s,
            None => return None,
        },
    };
    Some(label_of(&server, &tool))
}

/// The label that a tool call's raw input gives, if any.
pub fn parse_tool_label_from_payload(payload: &ToolPayload) -> (r: Option<ToolLabel>)
    ensures
        match r {
            Some(l) => payload_label(*payload) == Some(l.pair()),
            None => payload_label(*payload) is None,
        },
{
    match payload {
        ToolPayload::Text(raw) => {
            let tool = parse_json_member(raw.as_str(), "tool");
            let name = parse_json_member(raw.as_str(), "name");
            let server = parse_json_member(raw.as_str(), "server");
            match (tool, name, server) {
                (Some(t), Some(n), Some(s)) => label_from_fields(
                    &PayloadFields { tool: t, name: n, server: s },
                ),
                _ => None,
            }
        },
        ToolPayload::Value(f) => label_from_fields(f),
    }
}

/// The label shown for a tool call, as `(server, tool)`: from its raw input
/// where that gives one, else from its title, else the trimmed title under
/// server `local` (or the review agent's server), else `local: tool`.
pub open spec fn parts_label(title: Option<Seq<char>>, payload: Option<ToolPayload>) -> (
    Seq<char>,
    Seq<char>,
) {
    if payload is Some && payload_label(payload.unwrap()) is Some {
        payload_label(payload.unwrap()).unwrap()
    } else if title is Some && title_label(title.unwrap()) is Some {
        title_label(title.unwrap()).unwrap()
    } else if title is Some && trim(title.unwrap()).len() > 0 {
        let t = trim(title.unwrap());
        match fallback_server(t) {
            Some(s) => (s, t),
            None => ("local"@, t),
        }
    } else {
        ("local"@, "tool"@)
    }
}

/// The label shown for a tool call.
pub fn tool_label_from_parts(title: Option<&str>, raw_input: Option<&ToolPayload>) -> (r:
    ToolLabel)
    ensures
        r.pair() == parts_label(
            match title {
                Some(t) => Some(t@),
                None => None,
            },
            match raw_input {
                Some(p) => Some(*p),
                None => None,
            },
        ),
{
    if let Some(p) = raw_input {
        if let Some(l) = parse_tool_label_from_payload(p) {
            return l;
        }
    }
    if let Some(t) = title {
        if let Some(l) = parse_tool_label_from_title(t) {
            return l;
        }
        let trimmed_title = trimmed(&chars_of(t));
        if trimmed_title.len() > 0 {
            let server = match fallback_server_chars(&trimmed_title) {
                Some(s) => s,
                None => chars_of("local"),
            };
            return label_of(&server, &trimmed_title);
        }
    }
    ToolLabel { server: "local".to_owned(), tool: "tool".to_owned() }
}

/// Where a tool call stands, as the agent reports it.
#[derive(Clone, Copy, Debug, PartialEq, Eq, Structural)]
pub enum ToolStatus {
    Pending,
    InProgress,
    Completed,
    Failed,
    /// A status this version does not know.
    Other,
}

/// The color and the bracketed word shown for a tool call's status.
pub fn tool_status_style(status: ToolStatus) -> (r: (ThemeColor, &'static str))
    ensures
        (r.0, r.1@) == match status {
            ToolStatus::Pending => (ThemeColor::TextMuted, "Pending"@),
            ToolStatus::InProgress => (ThemeColor::Warning, "Running"@),
            ToolStatus::Completed => (ThemeColor::Success, "Done"@),
            ToolStatus::Failed => (ThemeColor::Destructive, "Failed"@),
            ToolStatus::Other => (ThemeColor::TextMuted, "Unknown"@),
        },
{
    match status {
        ToolStatus::Pending => (ThemeColor::TextMuted, "Pending"),
        ToolStatus::InProgress => (ThemeColor::Warning, "Running"),
        ToolStatus::Completed => (ThemeColor::Success, "Done"),
        ToolStatus::Failed => (ThemeColor::Destructive, "Failed"),
        ToolStatus::Other => (ThemeColor::TextMuted, "Unknown"),
    }
}

/// `server: tool`.
pub open spec fn heading_of(l: ToolLabel) -> Seq<char> {
    l.server@ + ": "@ + l.tool@
}

proof fn lemma_encode_concat(a: Seq<char>, b: Seq<char>)
    ensures
        encode_utf8(a + b) == encode_utf8(a) + encode_utf8(b),
    decreases a.len(),
{
    if a.len() > 0 {
        lemma_encode_concat(a.drop_first(), b);
        assert((a + b).drop_first() == a.drop_first() + b);
        assert((a + b)[0] == a[0]);
    } else {
        assert(a + b == b);
    }
}

/// The heading of a tool call's card: `server: tool`, cut to its first 37
/// bytes and `...` where it is longer than 40 bytes (in UTF-8).
pub fn tool_call_heading(label: &ToolLabel) -> (r: String)
    requires
        encode_utf8(heading_of(*label)).len() <= usize::MAX,
        encode_utf8(heading_of(*label)).len() <= 40 || is_char_boundary(
            encode_utf8(heading_of(*label)),
            37,
        ),
    ensures
        if encode_utf8(heading_of(*label)).len() > 40 {
            encode_utf8(r@) == encode_utf8(heading_of(*label)).subrange(0, 37) + encode_utf8(
                "..."@,
            )
        } else {
            r@ == heading_of(*label)
        },
{
    let mut chars: Vec<char> = Vec::new();
    push_str(&mut chars, label.server.as_str());
    push_str(&mut chars, ": ");
    push_str(&mut chars, label.tool.as_str());
    let full = string_from_chars(&chars);
    if full.as_str().len() > 40 {
        let (head, _) = full.as_str().split_at(37);
        let mut out = head.to_owned();
        out.append("...");
        proof {
            lemma_encode_concat(head@, "..."@);
        }
        out
    } else {
        full
    }
}

proof fn lemma_find_char_at(s: Seq<char>, c: char, i: int)
    requires
        is_first_index(s, c, i),
    ensures
        find_char(s, c) == Some(i),
{
    let k = choose|k: int| is_first_index(s, c, k);
    assert(is_first_index(s, c, k));
    if k < i {
        assert(s[k] != c);
    }
    if i < k {
        assert(s[i] != c);
    }
}

proof fn lemma_trim_same(s: Seq<char>)
    requires
        s.len() > 0,
        !is_ws(s[0]),
        !is_ws(s.last()),
    ensures
        trim(s) == s,
{
    assert(trim_start(s) == s);
}

proof fn lemma_trim_space_after(s: Seq<char>)
    requires
        s.len() > 0,
        !is_ws(s[0]),
        !is_ws(s.last()),
    ensures
        trim(s + " "@) == s,
{
    reveal_strlit(" ");
    let t = s + " "@;
    assert(t[0] == s[0]);
    assert(trim_start(t) == t);
    assert(t.last() == ' ');
    assert(t.drop_last() == s);
    assert(trim_end(t) == trim_end(s));
}

/// `trim_end(s)` keeps a prefix of `s` that reaches past any character that
/// is not whitespace.
proof fn lemma_trim_end_keeps(s: Seq<char>, m: int) -> (b: int)
    requires
        0 <= m < s.len(),
        !is_ws(s[m]),
    ensures
        m < b <= s.len(),
        trim_end(s) == s.subrange(0, b),
    decreases s.len(),
{
    if is_ws(s.last()) {
        let b = lemma_trim_end_keeps(s.drop_last(), m);
        assert(s.drop_last().subrange(0, b) == s.subrange(0, b));
        b
    } else {
        assert(s.subrange(0, s.len() as int) == s);
        s.len() as int
    }
}

/// A title of the form `tool (server MCP Server): rest`, with a tool and a
/// server that are not blank at either end, a tool without `(` that does not
/// start a JSON value, and a server without `)`, is labelled `(server,
/// tool)`, whatever `rest` holds (a `/` or a `:` in it too).
pub proof fn lemma_mcp_title_names_server_and_tool(tool: Seq<char>, server: Seq<char>, rest: Seq<char>)
    requires
        tool.len() > 0,
        server.len() > 0,
        !is_ws(tool[0]),
        !is_ws(tool.last()),
        !is_ws(server[0]),
        !is_ws(server.last()),
        tool[0] != '{',
        tool[0] != '[',
        forall|k: int| 0 <= k < tool.len() ==> tool[k] != '(',
        forall|k: int| 0 <= k < server.len() ==> server[k] != ')',
    ensures
        title_label(tool + " ("@ + server + " MCP Server): "@ + rest) == Some((server, tool)),
{
    reveal_strlit(" (");
    reveal_strlit(" MCP Server): ");
    reveal_strlit(" MCP Server");
    reveal_strlit("MCP Server");
    let m = " MCP Server): "@;
    let title = tool + " ("@ + server + m + rest;
    let l1 = tool.len() as int;
    let l2 = server.len() as int;
    // Where the parts stand in the title.
    assert forall|k: int| 0 <= k < l1 implies title[k] == tool[k] by {}
    assert(title[l1] == ' ' && title[l1 + 1] == '(');
    assert forall|k: int| 0 <= k < l2 implies title[l1 + 2 + k] == server[k] by {}
    assert forall|k: int| 0 <= k < 14 implies title[l1 + 2 + l2 + k] == m[k] by {}
    assert(m[11] == ')' && m[12] == ':');
    // Trimming keeps everything up to the colon.
    assert(trim_start(title) == title) by {
        assert(title[0] == tool[0]);
    }
    let colon = l1 + 2 + l2 + 12;
    assert(title[colon] == ':');
    let b = lemma_trim_end_keeps(title, colon);
    let t = title.subrange(0, b);
    assert(trim(title) == t);
    assert(t.len() > 0 && t[0] == tool[0]);
    // The first `(` ends the tool part.
    assert forall|k: int| 0 <= k < l1 + 1 implies t[k] != '(' by {
        if k < l1 {
            assert(t[k] == tool[k]);
        } else {
            assert(t[k] == ' ');
        }
    }
    assert(t[l1 + 1] == '(');
    lemma_find_char_at(t, '(', l1 + 1);
    let tool_part = t.subrange(0, l1 + 1);
    let after = t.subrange(l1 + 2, t.len() as int);
    reveal_strlit(" ");
    assert(tool_part =~= tool + " "@) by {
        assert forall|k: int| 0 <= k < l1 + 1 implies tool_part[k] == (tool + " "@)[k] by {
            if k < l1 {
                assert(t[k] == tool[k]);
            } else {
                assert(t[k] == ' ');
            }
        }
    }
    // The first `)` after it ends the server part.
    let server_part = server + " MCP Server"@;
    assert forall|k: int| 0 <= k < l2 + 11 implies after[k] == server_part[k] by {
        if k < l2 {
            assert(after[k] == server[k]);
        } else {
            assert(after[k] == m[k - l2]);
        }
    }
    assert forall|k: int| 0 <= k < l2 + 11 implies after[k] != ')' by {
        if k < l2 {
            assert(after[k] == server[k]);
        } else {
            assert(after[k] == m[k - l2]);
        }
    }
    assert(after[l2 + 11] == ')');
    lemma_find_char_at(after, ')', l2 + 11);
    assert(after.subrange(0, l2 + 11) =~= server_part);
    // Trimming the parts.
    lemma_trim_space_after(tool);
    assert(server_part[0] == server[0]);
    assert(server_part.last() == 'r');
    lemma_trim_same(server_part);
    assert(ends_with(server_part, "MCP Server"@)) by {
        assert(server_part.subrange(server_part.len() - 10, server_part.len() as int) =~= "MCP Server"@);
    }
    assert(server_part.subrange(0, server_part.len() - 10) =~= server + " "@);
    assert(strip_suffix_or_self(server_part, "MCP Server"@) == server + " "@);
    lemma_trim_space_after(server);
    assert(paren_label(t) == Some((server, tool)));
}

} // verus!
