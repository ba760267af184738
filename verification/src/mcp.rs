//! The Model Context Protocol client's side of a JSON-RPC exchange: numbering the
//! requests, and judging the response to each. Talking to the server process is left to
//! the caller.
use vstd::prelude::*;
use vstd::string::*;
use crate::text::{prefixed, decimal, u64_to_text};
use crate::stream::{compact_json, parse_compact_json};

verus! {

/// A JSON-RPC request; its params are JSON text.
#[derive(Debug)]
pub struct JsonRpcRequest {
    pub jsonrpc: String,
    pub id: u64,
    pub method: String,
    pub params: String,
}

/// A JSON-RPC response as read: its id, its result as JSON text, and its error as the
/// debug text of the error value.
#[derive(Debug)]
pub struct JsonRpcResponse {
    pub jsonrpc: String,
    pub id: Option<u64>,
    pub result: Option<String>,
    pub error: Option<String>,
}

/// An MCP client: the server's name and the id of its next request.
pub struct McpClient {
    name: String,
    request_id_counter: u64,
}

/// How an optional id is printed for debugging: `Some(n)` or `None`.
pub open spec fn debug_id(id: Option<u64>) -> Seq<char> {
    match id {
        Some(n) => "Some("@ + decimal(n as nat) + ")"@,
        None => "None"@,
    }
}

/// The verdict on the response to request `expected`: an error it carries, then an id
/// that is not `expected`, then a missing result, each refuse it; otherwise its result.
pub open spec fn response_verdict(expected: u64, r: JsonRpcResponse) -> Result<Seq<char>, Seq<char>> {
    match r.error {
        Some(e) => Err("MCP Error: "@ + e@),
        None => if r.id != Some(expected) {
            Err("MCP Error: Response ID mismatch. Expected "@ + decimal(expected as nat) + ", got "@ + debug_id(r.id))
        } else {
            match r.result {
                Some(v) => Ok(v@),
                None => Err("MCP Error: Missing result field"@),
            }
        },
    }
}

/// The lowercase hexadecimal digit of `d` (below 16).
pub open spec fn hex_digit(d: nat) -> char {
    if d < 10 { (d + 48) as char } else { (d + 87) as char }
}

/// How `serde_json` writes `c` inside a JSON string: a quote, a backslash and the control
/// characters with a short escape get that escape; the other control characters below
/// U+0020 are written `\u00` and two lowercase hexadecimal digits; every other character
/// stands as it is.
pub open spec fn json_escape(c: char) -> Seq<char> {
    if c == '"' {
        seq!['\\', '"']
    } else if c == '\\' {
        seq!['\\', '\\']
    } else if c == '\u{08}' {
        seq!['\\', 'b']
    } else if c == '\u{0C}' {
        seq!['\\', 'f']
    } else if c == '\n' {
        seq!['\\', 'n']
    } else if c == '\r' {
        seq!['\\', 'r']
    } else if c == '\t' {
        seq!['\\', 't']
    } else if (c as nat) < 32 {
        seq!['\\', 'u', '0', '0', hex_digit((c as nat) / 16), hex_digit((c as nat) % 16)]
    } else {
        seq![c]
    }
}

/// The characters of `s`, each as `json_escape` writes it.
pub open spec fn json_escaped(s: Seq<char>) -> Seq<char>
    decreases s.len(),
{
    if s.len() == 0 {
        Seq::empty()
    } else {
        json_escaped(s.drop_last()) + json_escape(s.last())
    }
}

/// The JSON string literal that `serde_json` writes for `text`: the escaped text in double
/// quotes.
pub open spec fn json_string_literal(text: Seq<char>) -> Seq<char> {
    seq!['"'] + json_escaped(text) + seq!['"']
}

/// `serde_json::to_string` of a `str`: the text as a JSON string literal. Claimed: it
/// succeeds (serde_json names as causes of failure only a `Serialize` impl that fails and
/// a map with keys that are not strings, and a `str` is neither), and it quotes and
/// escapes the text as its `format_escaped_str` and `ESCAPE` table do.
#[verifier::external_body]
fn json_quote(text: &str) -> (r: Option<String>)
    ensures
        r is Some,
        r->0@ == json_string_literal(text@),
{
    serde_json::to_string(text).ok()
}

/// The parameters of the `initialize` request, as JSON text: the protocol version, no
/// capabilities, and the client's name and version as JSON strings.
pub open spec fn initialize_params_text(client: Seq<char>, version: Seq<char>) -> Seq<char> {
    "{\"protocolVersion\":\"2024-11-05\",\"capabilities\":{},\"clientInfo\":{\"name\":"@
        + json_string_literal(client) + ",\"version\":"@ + json_string_literal(version) + "}}"@
}

/// `r` is the JSON-RPC 2.0 request with this id, method and params: what `next_request`
/// makes when `id` is the client's next id. The `initialize` request is that request for
/// the method `initialize` and `initialize_params_text`.
pub open spec fn is_request_for(r: JsonRpcRequest, id: u64, method: Seq<char>, params: Seq<char>) -> bool {
    &&& r.jsonrpc@ == "2.0"@
    &&& r.id == id
    &&& r.method@ == method
    &&& r.params@ == params
}

/// The line written to the server for a request whose params are the compact JSON
/// `params`: the request as compact JSON, its fields in the order `jsonrpc`, `id`,
/// `method`, `params`, and a line feed.
pub open spec fn request_line_text(jsonrpc: Seq<char>, id: u64, method: Seq<char>, params: Seq<char>) -> Seq<char> {
    "{\"jsonrpc\":"@ + json_string_literal(jsonrpc) + ",\"id\":"@ + decimal(id as nat) + ",\"method\":"@
        + json_string_literal(method) + ",\"params\":"@ + params + "}\n"@
}

/// The line to write to the server for `req`, or `None` when its params are not JSON.
pub fn request_line(req: &JsonRpcRequest) -> (r: Option<String>)
    ensures
        match compact_json(req.params@) {
            None => r is None,
            Some(p) => r matches Some(l) && l@ == request_line_text(req.jsonrpc@, req.id, req.method@, p),
        },
{
    let params = match parse_compact_json(req.params.as_str()) {
        Some(p) => p,
        None => return None,
    };
    let jsonrpc = json_quote(req.jsonrpc.as_str()).unwrap();
    let method = json_quote(req.method.as_str()).unwrap();
    let mut line = prefixed("{\"jsonrpc\":", jsonrpc.as_str());
    line.append(",\"id\":");
    line.append(u64_to_text(req.id).as_str());
    line.append(",\"method\":");
    line.append(method.as_str());
    line.append(",\"params\":");
    line.append(params.as_str());
    line.append("}\n");
    Some(line)
}

impl McpClient {
    /// The server's name.
    pub closed spec fn server(&self) -> Seq<char> {
        self.name@
    }

    /// The server's name.
    pub fn name(&self) -> (s: &String)
        ensures
            s@ == self.server(),
    {
        &self.name
    }

    /// The id the next request gets.
    pub closed spec fn next_id(&self) -> u64 {
        self.request_id_counter
    }

    /// A client of the server `name`, whose first request gets id 1.
    pub fn new(name: &str) -> (c: McpClient)
        ensures
            c.server() == name@,
            c.next_id() == 1,
    {
        McpClient { name: String::from_str(name), request_id_counter: 1 }
    }

    /// The next request: JSON-RPC 2.0, the next id, the method and its params. The
    /// following request gets the next id up, whatever becomes of this one.
    pub fn next_request(&mut self, method: &str, params: String) -> (r: JsonRpcRequest)
        requires
            old(self).next_id() < u64::MAX,
        ensures
            is_request_for(r, old(self).next_id(), method@, params@),
            final(self).next_id() == old(self).next_id() + 1,
            final(self).server() == old(self).server(),
    {
        let id = self.request_id_counter;
        self.request_id_counter = self.request_id_counter + 1;
        JsonRpcRequest { jsonrpc: String::from_str("2.0"), id, method: String::from_str(method), params }
    }

    /// The `initialize` request, announcing this client (its name and version) and the
    /// protocol version.
    pub fn initialize_request(&mut self, client: &str, version: &str) -> (r: JsonRpcRequest)
        requires
            old(self).next_id() < u64::MAX,
        ensures
            is_request_for(r, old(self).next_id(), "initialize"@, initialize_params_text(client@, version@)),
            final(self).next_id() == old(self).next_id() + 1,
            final(self).server() == old(self).server(),
    {
        let name = json_quote(client).unwrap();
        let ver = json_quote(version).unwrap();
        let mut params = prefixed(
            "{\"protocolVersion\":\"2024-11-05\",\"capabilities\":{},\"clientInfo\":{\"name\":",
            name.as_str(),
        );
        params.append(",\"version\":");
        params.append(ver.as_str());
        params.append("}}");
        self.next_request("initialize", params)
    }
}

/// The error when the server's output ended before a response line.
pub fn disconnected_error() -> (s: String)
    ensures
        s@ == "MCP Server disconnected unexpectedly"@,
{
    String::from_str("MCP Server disconnected unexpectedly")
}

/// Judges the response to request `expected` (see `response_verdict`).
pub fn check_response(expected: u64, response: &JsonRpcResponse) -> (r: Result<String, String>)
    ensures
        match response_verdict(expected, *response) {
            Ok(v) => r matches Ok(s) && s@ == v,
            Err(m) => r matches Err(s) && s@ == m,
        },
{
    match &response.error {
        Some(e) => return Err(prefixed("MCP Error: ", e.as_str())),
        None => {},
    }
    let matches = match response.id {
        Some(n) => n == expected,
        None => false,
    };
    if !matches {
        let mut m = prefixed("MCP Error: Response ID mismatch. Expected ", u64_to_text(expected).as_str());
        m.append(", got ");
        match response.id {
            Some(n) => {
                m.append("Some(");
                m.append(u64_to_text(n).as_str());
                m.append(")");
            },
            None => {
                m.append("None");
            },
        }
        return Err(m);
    }
    match &response.result {
        Some(v) => Ok(v.clone()),
        None => Err(String::from_str("MCP Error: Missing result field")),
    }
}

} // verus!
