//! The protocol client that drives one external tool-server subprocess.
//!
//! The subprocess speaks a line-delimited request/response protocol: each
//! request is one JSON object terminated by a newline, each response one
//! newline-terminated JSON object, and every request carries a locally
//! assigned, strictly increasing correlation id that its response must
//! echo. One request is outstanding at a time per client.
//!
//! This module is the client's state machine and framing: the process
//! spawning, pipe writes and pipe reads live outside it, hand in each raw
//! response line, and perform the transitions decided here. The states run
//! `Handshaking` (an `initialize` exchange is owed) to `Ready` (tools may
//! be listed and called) to `Closed` (the transport failed; every further
//! call fails fast).
use vstd::prelude::*;
use vstd::string::*;

use crate::jsonio::{
    json_as_i64,
    json_as_string,
    json_as_u64,
    json_get,
    json_is_null,
    json_parse,
    json_to_text,
    spec_doc_field,
    spec_field_i64,
    spec_field_str,
    spec_field_u64,
    spec_json_parse,
    spec_json_pretty,
    spec_json_text,
    JsonView,
};
use crate::strutil::{push_str_chars, string_from_chars};
use crate::wire::{encode_request_line, spec_call_params, spec_line_clean, spec_request_line};

verus! {

/// Where one protocol client stands in its lifecycle.
pub enum ProtocolState {
    Handshaking,
    Ready,
    Closed,
}

/// The error object a tool server may attach to a response.
pub struct MCPError {
    pub code: i64,
    pub message: String,
    pub data: Option<String>,
}

pub ghost struct MCPErrorView {
    pub code: i64,
    pub message: Seq<char>,
    pub data: Option<Seq<char>>,
}

impl View for MCPError {
    type V = MCPErrorView;

    open spec fn view(&self) -> MCPErrorView {
        MCPErrorView {
            code: self.code,
            message: self.message@,
            data: match self.data {
                Some(d) => Some(d@),
                None => None,
            },
        }
    }
}

/// What one response line of the protocol carries, read off the raw JSON:
/// the echoed correlation id, the error object if the server reported one,
/// and the result document (as its JSON text) if it returned one.
pub struct ResponseParts {
    pub id: Option<u64>,
    pub error: Option<MCPError>,
    pub result: Option<String>,
}

pub ghost struct ResponsePartsView {
    pub id: Option<u64>,
    pub error: Option<MCPErrorView>,
    pub result: Option<Seq<char>>,
}

impl View for ResponseParts {
    type V = ResponsePartsView;

    open spec fn view(&self) -> ResponsePartsView {
        ResponsePartsView {
            id: self.id,
            error: match self.error {
                Some(e) => Some(e@),
                None => None,
            },
            result: match self.result {
                Some(t) => Some(t@),
                None => None,
            },
        }
    }
}

/// What a response document carries: the echoed id is the unsigned
/// reading of its `id` member; a non-null `error` member carries its
/// `code` (zero when absent or unreadable), its `message` (empty text
/// likewise) and the written form of any `data`; a non-null `result`
/// member carries its written form.
pub open spec fn spec_parts_of(d: JsonView) -> ResponsePartsView {
    ResponsePartsView {
        id: spec_field_u64(d, "id"@),
        error: match spec_doc_field(d, "error"@) {
            Some(e) => if e is Null {
                None
            } else {
                Some(
                    MCPErrorView {
                        code: match spec_field_i64(e, "code"@) {
                            Some(c) => c,
                            None => 0,
                        },
                        message: match spec_field_str(e, "message"@) {
                            Some(m) => m,
                            None => Seq::empty(),
                        },
                        data: match spec_doc_field(e, "data"@) {
                            Some(dd) => Some(spec_json_text(dd)),
                            None => None,
                        },
                    },
                )
            },
            None => None,
        },
        result: match spec_doc_field(d, "result"@) {
            Some(rv) => if rv is Null {
                None
            } else {
                Some(spec_json_text(rv))
            },
            None => None,
        },
    }
}

/// How a protocol exchange fails.
#[derive(Debug)]
pub enum ClientFailure {
    /// The subprocess died, its pipe closed, or a line did not parse; the
    /// client is closed and refuses further requests.
    TransportClosed,
    /// The server answered with an error object; the connection stays up.
    Remote { code: i64, message: String },
    /// The response echoed a different correlation id than the request
    /// carried; the response is rejected rather than silently accepted.
    IdMismatch { expected: u64, got: Option<u64> },
    /// The response carried neither an error object nor a result.
    MissingResult,
    /// A call's argument text was not valid JSON; nothing was sent.
    BadArguments,
}

impl ClientFailure {
    /// A short account of the failure, for the transcript.
    pub fn describe(&self) -> (r: String)
        ensures
            match self {
                ClientFailure::TransportClosed => r@ == "tool server transport closed"@,
                ClientFailure::Remote { code, message } => r@ == "MCP Error: "@ + message@,
                ClientFailure::IdMismatch { expected, got } => r@
                    == "response id does not match request id"@,
                ClientFailure::MissingResult => r@ == "No result in response"@,
                ClientFailure::BadArguments => r@ == "tool arguments are not valid JSON"@,
            },
    {
        match self {
            ClientFailure::TransportClosed => String::from_str("tool server transport closed"),
            ClientFailure::Remote { code, message } => {
                let mut out: Vec<char> = Vec::new();
                push_str_chars(&mut out, "MCP Error: ");
                push_str_chars(&mut out, message.as_str());
                string_from_chars(&out)
            },
            ClientFailure::IdMismatch { expected, got } => String::from_str(
                "response id does not match request id",
            ),
            ClientFailure::MissingResult => String::from_str("No result in response"),
            ClientFailure::BadArguments => String::from_str("tool arguments are not valid JSON"),
        }
    }
}

/// The params object sent with the `initialize` handshake: the protocol
/// version and capabilities this client speaks, and its own name.
pub open spec fn spec_initialize_params() -> Seq<char> {
    "{\"protocolVersion\":\"1.0.0\",\"capabilities\":{\"tools\":{}},\"clientInfo\":{\"name\":\"deepseek-cli\",\"version\":\"0.1.0\"}}"@
}

/// The protocol client proper: its lifecycle state, the next correlation
/// id it will assign, and the id of the one outstanding request, if any.
pub struct ProtocolClient {
    pub state: ProtocolState,
    pub next_id: u64,
    pub pending: Option<u64>,
}

impl ProtocolClient {
    /// A fresh client for a newly spawned subprocess: the handshake is
    /// owed, ids start at one, nothing is outstanding.
    pub fn new() -> (c: ProtocolClient)
        ensures
            c.state is Handshaking,
            c.next_id == 1,
            c.pending is None,
    {
        ProtocolClient { state: ProtocolState::Handshaking, next_id: 1, pending: None }
    }

    /// The `initialize` request line that opens the handshake, and its
    /// correlation id. The id is assigned here and becomes pending.
    pub fn begin_handshake(&mut self) -> (r: (String, u64))
        requires
            old(self).state is Handshaking,
            old(self).pending is None,
            old(self).next_id < u64::MAX,
        ensures
            final(self).state is Handshaking,
            r.1 == old(self).next_id,
            final(self).next_id == old(self).next_id + 1,
            final(self).pending == Some(r.1),
            r.0@ == spec_request_line(
                "initialize"@,
                Some(spec_initialize_params()),
                r.1 as int,
            ),
    {
        let id = self.next_id;
        self.next_id = self.next_id + 1;
        self.pending = Some(id);
        let params = String::from_str(
            "{\"protocolVersion\":\"1.0.0\",\"capabilities\":{\"tools\":{}},\"clientInfo\":{\"name\":\"deepseek-cli\",\"version\":\"0.1.0\"}}",
        );
        let line = encode_request_line("initialize", Some(&params), id);
        (line, id)
    }

    /// Resolve the handshake from the response to `initialize`, or from
    /// the transport's failure to produce one (`None`). Success makes the
    /// client ready; any failure during the handshake closes it.
    pub fn finish_handshake(&mut self, parts: Option<ResponseParts>) -> (r: Result<
        (),
        ClientFailure,
    >)
        requires
            old(self).state is Handshaking,
            old(self).pending is Some,
        ensures
            final(self).pending is None,
            final(self).next_id == old(self).next_id,
            match r {
                Ok(()) => {
                    &&& final(self).state is Ready
                    &&& parts is Some
                    &&& parts->0.id == Some(old(self).pending->0)
                    &&& parts->0.error is None
                    &&& parts->0.result is Some
                },
                Err(e) => {
                    &&& final(self).state is Closed
                    &&& match e {
                        ClientFailure::TransportClosed => parts is None,
                        ClientFailure::IdMismatch { expected, got } => {
                            &&& parts is Some
                            &&& expected == old(self).pending->0
                            &&& got == parts->0.id
                            &&& parts->0.id != Some(old(self).pending->0)
                        },
                        ClientFailure::Remote { code, message } => {
                            &&& parts is Some
                            &&& parts->0.id == Some(old(self).pending->0)
                            &&& parts->0.error is Some
                            &&& code == parts->0.error->0.code
                            &&& message@ == parts->0.error->0@.message
                        },
                        ClientFailure::MissingResult => {
                            &&& parts is Some
                            &&& parts->0.id == Some(old(self).pending->0)
                            &&& parts->0.error is None
                            &&& parts->0.result is None
                        },
                        ClientFailure::BadArguments => false,
                    }
                },
            },
    {
        let expected = match self.pending {
            Some(i) => i,
            None => 0,
        };
        self.pending = None;
        match parts {
            None => {
                self.state = ProtocolState::Closed;
                Err(ClientFailure::TransportClosed)
            },
            Some(p) => {
                let id_matches = match p.id {
                    Some(i) => i == expected,
                    None => false,
                };
                if !id_matches {
                    self.state = ProtocolState::Closed;
                    Err(ClientFailure::IdMismatch { expected, got: p.id })
                } else {
                    match p.error {
                        Some(e) => {
                            self.state = ProtocolState::Closed;
                            Err(ClientFailure::Remote { code: e.code, message: e.message })
                        },
                        None => match p.result {
                            Some(_t) => {
                                self.state = ProtocolState::Ready;
                                Ok(())
                            },
                            None => {
                                self.state = ProtocolState::Closed;
                                Err(ClientFailure::MissingResult)
                            },
                        },
                    }
                }
            },
        }
    }

    /// The request line for `tools/list`, and its correlation id. Fails
    /// fast, closing nothing further, when the client is already closed;
    /// a client whose id space is exhausted closes.
    pub fn begin_list_tools(&mut self) -> (r: Result<(String, u64), ClientFailure>)
        requires
            old(self).pending is None,
            !(old(self).state is Handshaking),
        ensures
            match r {
                Ok((line, id)) => {
                    &&& old(self).state is Ready
                    &&& old(self).next_id < u64::MAX
                    &&& id == old(self).next_id
                    &&& final(self).state is Ready
                    &&& final(self).next_id == old(self).next_id + 1
                    &&& final(self).pending == Some(id)
                    &&& line@ == spec_request_line("tools/list"@, None, id as int)
                },
                Err(e) => {
                    &&& e is TransportClosed
                    &&& (old(self).state is Closed || old(self).next_id == u64::MAX)
                    &&& final(self).state is Closed
                    &&& final(self).pending is None
                },
            },
    {
        match self.state {
            ProtocolState::Closed => Err(ClientFailure::TransportClosed),
            _ => {
                if self.next_id == u64::MAX {
                    self.state = ProtocolState::Closed;
                    Err(ClientFailure::TransportClosed)
                } else {
                    let id = self.next_id;
                    self.next_id = self.next_id + 1;
                    self.pending = Some(id);
                    let line = encode_request_line("tools/list", None, id);
                    Ok((line, id))
                }
            },
        }
    }

    /// The request line for `tools/call` naming the remote tool and its
    /// already-encoded arguments, and the line's correlation id. The
    /// argument text must be newline-free — it came out of the JSON
    /// writer, which never emits raw control characters.
    pub fn begin_call_tool(&mut self, name: &String, args_json: &String) -> (r: Result<
        (String, u64),
        ClientFailure,
    >)
        requires
            old(self).pending is None,
            !(old(self).state is Handshaking),
            spec_line_clean(args_json@),
        ensures
            match r {
                Ok((line, id)) => {
                    &&& old(self).state is Ready
                    &&& old(self).next_id < u64::MAX
                    &&& id == old(self).next_id
                    &&& final(self).state is Ready
                    &&& final(self).next_id == old(self).next_id + 1
                    &&& final(self).pending == Some(id)
                    &&& line@ == spec_request_line(
                        "tools/call"@,
                        Some(spec_call_params(name@, args_json@)),
                        id as int,
                    )
                },
                Err(e) => {
                    &&& e is TransportClosed
                    &&& (old(self).state is Closed || old(self).next_id == u64::MAX)
                    &&& final(self).state is Closed
                    &&& final(self).pending is None
                },
            },
    {
        match self.state {
            ProtocolState::Closed => Err(ClientFailure::TransportClosed),
            _ => {
                if self.next_id == u64::MAX {
                    self.state = ProtocolState::Closed;
                    Err(ClientFailure::TransportClosed)
                } else {
                    let id = self.next_id;
                    self.next_id = self.next_id + 1;
                    self.pending = Some(id);
                    let params = crate::wire::encode_call_params(name, args_json);
                    let line = encode_request_line("tools/call", Some(&params), id);
                    Ok((line, id))
                }
            },
        }
    }

    /// Frame a `tools/call` request from the raw argument text the model
    /// produced: a closed client fails fast first; then the arguments are
    /// rewritten as canonical one-line JSON, and text that does not parse
    /// fails the call without sending anything or touching the client.
    pub fn begin_call_tool_raw(&mut self, name: &String, args_text: &str) -> (r: Result<
        (String, u64),
        ClientFailure,
    >)
        requires
            old(self).pending is None,
            !(old(self).state is Handshaking),
        ensures
            match r {
                Ok((line, id)) => {
                    &&& old(self).state is Ready
                    &&& old(self).next_id < u64::MAX
                    &&& id == old(self).next_id
                    &&& final(self).state is Ready
                    &&& final(self).next_id == old(self).next_id + 1
                    &&& final(self).pending == Some(id)
                    &&& exists|a: Seq<char>|
                        line@ == spec_request_line(
                            "tools/call"@,
                            Some(spec_call_params(name@, a)),
                            id as int,
                        ) && spec_line_clean(a)
                },
                Err(e) => match e {
                    ClientFailure::BadArguments => {
                        &&& old(self).state is Ready
                        &&& spec_json_parse(args_text@) is None
                        &&& *final(self) == *old(self)
                    },
                    ClientFailure::TransportClosed => {
                        &&& (old(self).state is Closed || old(self).next_id == u64::MAX)
                        &&& final(self).state is Closed
                        &&& final(self).pending is None
                    },
                    _ => false,
                },
            },
    {
        match self.state {
            ProtocolState::Closed => {
                return Err(ClientFailure::TransportClosed);
            },
            _ => {},
        }
        let args_json = match canonical_json_text(args_text) {
            Some(t) => t,
            None => {
                return Err(ClientFailure::BadArguments);
            },
        };
        match self.begin_call_tool(name, &args_json) {
            Ok((line, id)) => {
                proof {
                    assert(line@ == spec_request_line(
                        "tools/call"@,
                        Some(spec_call_params(name@, args_json@)),
                        id as int,
                    ) && spec_line_clean(args_json@));
                }
                Ok((line, id))
            },
            Err(e) => Err(e),
        }
    }

    /// Resolve the outstanding request from its response line's parts, or
    /// from the transport's failure to produce one (`None`, which closes
    /// the client). A response must echo the pending id: one that does not
    /// is rejected. An error object fails the call without closing the
    /// connection; a well-correlated result resolves it.
    pub fn take_response(&mut self, parts: Option<ResponseParts>) -> (r: Result<
        String,
        ClientFailure,
    >)
        requires
            old(self).state is Ready,
            old(self).pending is Some,
        ensures
            final(self).pending is None,
            final(self).next_id == old(self).next_id,
            match r {
                Ok(t) => {
                    &&& final(self).state is Ready
                    &&& parts is Some
                    &&& parts->0.id == Some(old(self).pending->0)
                    &&& parts->0.error is None
                    &&& parts->0.result == Some(t)
                },
                Err(e) => match e {
                    ClientFailure::TransportClosed => {
                        &&& parts is None
                        &&& final(self).state is Closed
                    },
                    ClientFailure::IdMismatch { expected, got } => {
                        &&& parts is Some
                        &&& expected == old(self).pending->0
                        &&& got == parts->0.id
                        &&& parts->0.id != Some(old(self).pending->0)
                        &&& final(self).state is Ready
                    },
                    ClientFailure::Remote { code, message } => {
                        &&& parts is Some
                        &&& parts->0.id == Some(old(self).pending->0)
                        &&& parts->0.error is Some
                        &&& code == parts->0.error->0.code
                        &&& message@ == parts->0.error->0@.message
                        &&& final(self).state is Ready
                    },
                    ClientFailure::MissingResult => {
                        &&& parts is Some
                        &&& parts->0.id == Some(old(self).pending->0)
                        &&& parts->0.error is None
                        &&& parts->0.result is None
                        &&& final(self).state is Ready
                    },
                    ClientFailure::BadArguments => false,
                },
            },
    {
        let expected = match self.pending {
            Some(i) => i,
            None => 0,
        };
        self.pending = None;
        match parts {
            None => {
                self.state = ProtocolState::Closed;
                Err(ClientFailure::TransportClosed)
            },
            Some(p) => {
                let id_matches = match p.id {
                    Some(i) => i == expected,
                    None => false,
                };
                if !id_matches {
                    Err(ClientFailure::IdMismatch { expected, got: p.id })
                } else {
                    match p.error {
                        Some(e) => Err(
                            ClientFailure::Remote { code: e.code, message: e.message },
                        ),
                        None => match p.result {
                            Some(t) => Ok(t),
                            None => Err(ClientFailure::MissingResult),
                        },
                    }
                }
            },
        }
    }

    /// Note that the transport failed outside any exchange: the subprocess
    /// exited or a pipe closed. The client refuses everything thereafter.
    pub fn transport_closed(&mut self)
        ensures
            final(self).state is Closed,
            final(self).pending is None,
            final(self).next_id == old(self).next_id,
    {
        self.state = ProtocolState::Closed;
        self.pending = None;
    }
}

/// One tool a tool server advertises: its name, an optional description,
/// and the JSON schema of its input, held as schema text.
pub struct MCPTool {
    pub name: String,
    pub description: Option<String>,
    pub input_schema: String,
}

pub ghost struct MCPToolView {
    pub name: Seq<char>,
    pub description: Option<Seq<char>>,
    pub input_schema: Seq<char>,
}

impl View for MCPTool {
    type V = MCPToolView;

    open spec fn view(&self) -> MCPToolView {
        MCPToolView {
            name: self.name@,
            description: match self.description {
                Some(d) => Some(d@),
                None => None,
            },
            input_schema: self.input_schema@,
        }
    }
}

impl DeepView for MCPTool {
    type V = MCPToolView;

    open spec fn deep_view(&self) -> MCPToolView {
        self.view()
    }
}

/// What one advertised tool's document must carry: a string under
/// `name`; a `description` that is absent, null, or a string; an
/// `input_schema` member, kept as its written form.
pub open spec fn spec_read_tool(d: JsonView) -> Option<MCPToolView> {
    if spec_field_str(d, "name"@) is None {
        None
    } else if (match spec_doc_field(d, "description"@) {
        Some(dd) => !(dd is Null) && !(dd is Str),
        None => false,
    }) {
        None
    } else if spec_doc_field(d, "input_schema"@) is None {
        None
    } else {
        Some(
            MCPToolView {
                name: spec_field_str(d, "name"@)->0,
                description: match spec_doc_field(d, "description"@) {
                    Some(JsonView::Str { s }) => Some(s),
                    _ => None,
                },
                input_schema: spec_json_text(spec_doc_field(d, "input_schema"@)->0),
            },
        )
    }
}

/// Read the tool list out of a `tools/list` result document: the `tools`
/// member must be an array of readable tools (see `spec_read_tool`), and
/// they come back in server order; any other shape yields nothing.
pub fn parse_tools_list(result_json: &str) -> (r: Option<Vec<MCPTool>>)
    ensures
        match spec_json_parse(result_json@) {
            Some(d) => match spec_doc_field(d, "tools"@) {
                Some(tv) => match tv {
                    JsonView::Arr { items } => {
                        &&& (forall|k: int|
                            0 <= k < items.len() ==> spec_read_tool(#[trigger] items[k]) is Some)
                            ==> (r matches Some(ts) && ts.deep_view() == Seq::new(
                            items.len(),
                            |k: int| spec_read_tool(items[k])->0,
                        ))
                        &&& !(forall|k: int|
                            0 <= k < items.len() ==> spec_read_tool(#[trigger] items[k]) is Some)
                            ==> r is None
                    },
                    _ => r is None,
                },
                None => r is None,
            },
            None => r is None,
        },
{
    let doc = match json_parse(result_json) {
        Some(d) => d,
        None => {
            return None;
        },
    };
    let ghost dv = crate::jsonio::json_doc(doc);
    let tools_val = match json_get(&doc, "tools") {
        Some(t) => t,
        None => {
            return None;
        },
    };
    let ghost tv = crate::jsonio::json_doc(*tools_val);
    let n = match crate::jsonio::json_array_len(tools_val) {
        Some(n) => n,
        None => {
            return None;
        },
    };
    let ghost items = tv->Arr_items;
    let mut out: Vec<MCPTool> = Vec::new();
    let mut i: usize = 0;
    while i < n
        invariant
            spec_json_parse(result_json@) == Some(dv),
            spec_doc_field(dv, "tools"@) == Some(tv),
            tv == crate::jsonio::json_doc(*tools_val),
            tv matches JsonView::Arr { items: it2 } && it2 == items,
            n == items.len(),
            i <= n,
            out@.len() == i,
            forall|k: int|
                0 <= k < i ==> spec_read_tool(#[trigger] items[k]) is Some && out@[k]@
                    == spec_read_tool(items[k])->0,
        decreases n - i,
    {
        let item = match crate::jsonio::json_at(tools_val, i) {
            Some(v) => v,
            None => {
                proof {
                    assert(false);
                }
                return None;
            },
        };
        let ghost dd = crate::jsonio::json_doc(*item);
        proof {
            assert(dd == items[i as int]);
        }
        let name = match json_get(item, "name") {
            Some(v) => match json_as_string(v) {
                Some(s) => s,
                None => {
                    proof {
                        assert(spec_read_tool(dd) is None);
                    }
                    return None;
                },
            },
            None => {
                proof {
                    assert(spec_read_tool(dd) is None);
                }
                return None;
            },
        };
        let description = match json_get(item, "description") {
            Some(v) => {
                if json_is_null(v) {
                    None
                } else {
                    match json_as_string(v) {
                        Some(s) => Some(s),
                        None => {
                            proof {
                                assert(spec_read_tool(dd) is None);
                            }
                            return None;
                        },
                    }
                }
            },
            None => None,
        };
        let input_schema = match json_get(item, "input_schema") {
            Some(v) => match json_to_text(v) {
                Some(t) => t,
                None => {
                    return None;
                },
            },
            None => {
                proof {
                    assert(spec_read_tool(dd) is None);
                }
                return None;
            },
        };
        let tool = MCPTool { name, description, input_schema };
        proof {
            assert(spec_read_tool(dd) is Some);
            assert(tool@ == spec_read_tool(dd)->0);
        }
        out.push(tool);
        i = i + 1;
    }
    proof {
        assert(out.deep_view() =~= Seq::new(items.len(), |k: int| spec_read_tool(items[k])->0));
    }
    Some(out)
}

/// The canonical one-line JSON text of `s`, exactly when `s` parses as
/// JSON. The structured arguments a tool call forwards are rewritten by
/// the JSON writer, whose compact output never holds a raw newline — so
/// the text can be spliced into a newline-terminated request line.
pub fn canonical_json_text(s: &str) -> (r: Option<String>)
    ensures
        match spec_json_parse(s@) {
            Some(d) => r matches Some(t) && t@ == spec_json_text(d) && spec_line_clean(t@),
            None => r is None,
        },
{
    match json_parse(s) {
        Some(v) => json_to_text(&v),
        None => None,
    }
}

/// A tool result document rendered for the transcript: the indented form
/// the JSON writer gives it, or the text as it stands if it does not
/// parse.
pub fn render_tool_result(result_json: &str) -> (r: String)
    ensures
        match spec_json_parse(result_json@) {
            Some(d) => r@ == spec_json_pretty(d),
            None => r@ == result_json@,
        },
{
    match json_parse(result_json) {
        Some(v) => match crate::jsonio::json_to_text_pretty(&v) {
            Some(t) => t,
            None => String::from_str(result_json),
        },
        None => String::from_str(result_json),
    }
}

/// Read the parts of one response line — the echoed id, the error object
/// if any, and the result document's text if any — exactly as
/// `spec_parts_of` reads the line's document. Returns nothing when the
/// line is not valid JSON; the transport is then treated as failed.
pub fn parse_response_line(line: &str) -> (r: Option<ResponseParts>)
    ensures
        match spec_json_parse(line@) {
            Some(d) => r matches Some(p) && p@ == spec_parts_of(d),
            None => r is None,
        },
{
    let doc = match json_parse(line) {
        Some(d) => d,
        None => {
            return None;
        },
    };
    let ghost dv = crate::jsonio::json_doc(doc);
    let id = match json_get(&doc, "id") {
        Some(v) => json_as_u64(v),
        None => None,
    };
    let error = match json_get(&doc, "error") {
        Some(e) => {
            if json_is_null(e) {
                None
            } else {
                let code = match json_get(e, "code") {
                    Some(c) => match json_as_i64(c) {
                        Some(c64) => c64,
                        None => 0,
                    },
                    None => 0,
                };
                let message = match json_get(e, "message") {
                    Some(m) => match json_as_string(m) {
                        Some(s) => s,
                        None => String::new(),
                    },
                    None => String::new(),
                };
                let data = match json_get(e, "data") {
                    Some(d) => json_to_text(d),
                    None => None,
                };
                Some(MCPError { code, message, data })
            }
        },
        None => None,
    };
    let result = match json_get(&doc, "result") {
        Some(v) => {
            if json_is_null(v) {
                None
            } else {
                json_to_text(v)
            }
        },
        None => None,
    };
    let parts = ResponseParts { id, error, result };
    proof {
        assert(parts@ == spec_parts_of(dv));
    }
    Some(parts)
}

} // verus!
