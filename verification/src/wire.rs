//! The wire text the engine emits: JSON encodings of messages, completion
//! request bodies, and the line-delimited protocol requests sent to a tool
//! server. Each encoder is specified exactly, character for character.
use vstd::prelude::*;
use vstd::string::*;

use crate::jsonfmt::{push_json_string, spec_escape, spec_json_string};
use crate::msg::{Message, MessageView, ToolCall, ToolCallView};
use crate::strutil::{push_dec, push_str_chars, spec_dec, spec_digit_char, string_from_chars};

verus! {

/// The JSON object for one tool call, as the completion endpoint expects it.
pub open spec fn spec_tool_call_json(t: ToolCallView) -> Seq<char> {
    "{\"id\":"@ + spec_json_string(t.id) + ",\"type\":"@ + spec_json_string(t.call_kind)
        + ",\"function\":{\"name\":"@ + spec_json_string(t.function.name) + ",\"arguments\":"@
        + spec_json_string(t.function.arguments) + "}}"@
}

/// The comma-separated list of the given tool calls, in order.
pub open spec fn spec_tool_call_list(ts: Seq<ToolCallView>) -> Seq<char>
    decreases ts.len(),
{
    if ts.len() == 0 {
        Seq::empty()
    } else if ts.len() == 1 {
        spec_tool_call_json(ts[0])
    } else {
        spec_tool_call_json(ts[0]) + seq![','] + spec_tool_call_list(ts.drop_first())
    }
}

/// Listing one more tool call appends a comma (when anything came before
/// it) and then its encoding.
pub proof fn lemma_tool_call_list_push(ts: Seq<ToolCallView>, t: ToolCallView)
    ensures
        spec_tool_call_list(ts.push(t)) == if ts.len() == 0 {
            spec_tool_call_json(t)
        } else {
            spec_tool_call_list(ts) + seq![','] + spec_tool_call_json(t)
        },
    decreases ts.len(),
{
    if ts.len() == 0 {
        assert(ts.push(t)[0] == t);
    } else {
        lemma_tool_call_list_push(ts.drop_first(), t);
        assert(ts.push(t).drop_first() =~= ts.drop_first().push(t));
        assert(ts.push(t)[0] == ts[0]);
        if ts.len() == 1 {
            assert(spec_tool_call_list(ts.push(t)) =~= spec_tool_call_list(ts) + seq![',']
                + spec_tool_call_json(t));
        } else {
            assert(spec_tool_call_json(ts[0]) + seq![','] + (spec_tool_call_list(ts.drop_first())
                + seq![','] + spec_tool_call_json(t)) =~= (spec_tool_call_json(ts[0]) + seq![',']
                + spec_tool_call_list(ts.drop_first())) + seq![','] + spec_tool_call_json(t));
        }
    }
}

/// The JSON array holding the given tool calls in order.
pub open spec fn spec_tool_calls_json(ts: Seq<ToolCallView>) -> Seq<char> {
    seq!['['] + spec_tool_call_list(ts) + seq![']']
}

/// Encode a `tool_calls` list on its own — the form a stored assistant
/// turn keeps its requested calls in.
pub fn encode_tool_calls(ts: &Vec<ToolCall>) -> (r: String)
    ensures
        r@ == spec_tool_calls_json(ts.deep_view()),
{
    let mut out: Vec<char> = Vec::new();
    push_tool_calls_json(&mut out, ts);
    string_from_chars(&out)
}

/// The JSON object for one message: the role always, then content, tool
/// calls and tool call id only when present.
pub open spec fn spec_message_json(m: MessageView) -> Seq<char> {
    "{\"role\":"@ + spec_json_string(m.role) + (match m.content {
        Some(c) => ",\"content\":"@ + spec_json_string(c),
        None => Seq::<char>::empty(),
    }) + (match m.tool_calls {
        Some(ts) => ",\"tool_calls\":"@ + spec_tool_calls_json(ts),
        None => Seq::<char>::empty(),
    }) + (match m.tool_call_id {
        Some(i) => ",\"tool_call_id\":"@ + spec_json_string(i),
        None => Seq::<char>::empty(),
    }) + seq!['}']
}

/// The comma-separated list of the given messages, in order.
pub open spec fn spec_message_list(ms: Seq<MessageView>) -> Seq<char>
    decreases ms.len(),
{
    if ms.len() == 0 {
        Seq::empty()
    } else if ms.len() == 1 {
        spec_message_json(ms[0])
    } else {
        spec_message_json(ms[0]) + seq![','] + spec_message_list(ms.drop_first())
    }
}

/// Listing one more message appends a comma (when anything came before it)
/// and then its encoding.
pub proof fn lemma_message_list_push(ms: Seq<MessageView>, m: MessageView)
    ensures
        spec_message_list(ms.push(m)) == if ms.len() == 0 {
            spec_message_json(m)
        } else {
            spec_message_list(ms) + seq![','] + spec_message_json(m)
        },
    decreases ms.len(),
{
    if ms.len() == 0 {
        assert(ms.push(m)[0] == m);
    } else {
        lemma_message_list_push(ms.drop_first(), m);
        assert(ms.push(m).drop_first() =~= ms.drop_first().push(m));
        assert(ms.push(m)[0] == ms[0]);
        if ms.len() == 1 {
            assert(spec_message_list(ms.push(m)) =~= spec_message_list(ms) + seq![',']
                + spec_message_json(m));
        } else {
            assert(spec_message_json(ms[0]) + seq![','] + (spec_message_list(ms.drop_first())
                + seq![','] + spec_message_json(m)) =~= (spec_message_json(ms[0]) + seq![',']
                + spec_message_list(ms.drop_first())) + seq![','] + spec_message_json(m));
        }
    }
}

/// The JSON array holding the given messages in order.
pub open spec fn spec_messages_json(ms: Seq<MessageView>) -> Seq<char> {
    seq!['['] + spec_message_list(ms) + seq![']']
}

fn push_tool_call_json(out: &mut Vec<char>, t: &ToolCall)
    ensures
        final(out)@ == old(out)@ + spec_tool_call_json(t@),
{
    push_str_chars(out, "{\"id\":");
    push_json_string(out, t.id.as_str());
    push_str_chars(out, ",\"type\":");
    push_json_string(out, t.call_kind.as_str());
    push_str_chars(out, ",\"function\":{\"name\":");
    push_json_string(out, t.function.name.as_str());
    push_str_chars(out, ",\"arguments\":");
    push_json_string(out, t.function.arguments.as_str());
    push_str_chars(out, "}}");
    proof {
        assert(out@ =~= old(out)@ + spec_tool_call_json(t@));
    }
}

fn push_tool_calls_json(out: &mut Vec<char>, ts: &Vec<ToolCall>)
    ensures
        final(out)@ == old(out)@ + spec_tool_calls_json(ts.deep_view()),
{
    out.push('[');
    let mut i: usize = 0;
    while i < ts.len()
        invariant
            i <= ts@.len(),
            out@ == old(out)@ + seq!['['] + spec_tool_call_list(ts.deep_view().take(i as int)),
        decreases ts@.len() - i,
    {
        let ghost mid = out@;
        if i > 0 {
            out.push(',');
        }
        push_tool_call_json(out, &ts[i]);
        proof {
            let parts = ts.deep_view().take(i as int);
            let p = spec_tool_call_json(ts@[i as int]@);
            lemma_tool_call_list_push(parts, ts.deep_view()[i as int]);
            assert(ts.deep_view()[i as int] == ts@[i as int]@);
            assert(ts.deep_view().take(i as int + 1) =~= parts.push(ts.deep_view()[i as int]));
            if i > 0 {
                assert(out@ =~= mid + seq![','] + p);
                assert(out@ =~= old(out)@ + seq!['['] + (spec_tool_call_list(parts) + seq![',']
                    + p));
            } else {
                assert(parts.len() == 0);
                assert(mid =~= old(out)@ + seq!['[']);
                assert(out@ =~= old(out)@ + seq!['['] + p);
            }
            assert(out@ =~= old(out)@ + seq!['['] + spec_tool_call_list(
                ts.deep_view().take(i as int + 1),
            ));
        }
        i = i + 1;
    }
    out.push(']');
    proof {
        assert(ts.deep_view().take(ts@.len() as int) =~= ts.deep_view());
        assert(out@ =~= old(out)@ + spec_tool_calls_json(ts.deep_view()));
    }
}

#[verifier::rlimit(60)]
fn push_message_json(out: &mut Vec<char>, m: &Message)
    ensures
        final(out)@ == old(out)@ + spec_message_json(m@),
{
    let ghost content_part = (match m@.content {
        Some(c) => ",\"content\":"@ + spec_json_string(c),
        None => Seq::<char>::empty(),
    });
    let ghost calls_part = (match m@.tool_calls {
        Some(ts) => ",\"tool_calls\":"@ + spec_tool_calls_json(ts),
        None => Seq::<char>::empty(),
    });
    let ghost id_part = (match m@.tool_call_id {
        Some(i) => ",\"tool_call_id\":"@ + spec_json_string(i),
        None => Seq::<char>::empty(),
    });
    push_str_chars(out, "{\"role\":");
    push_json_string(out, m.role.as_str());
    let ghost s1 = old(out)@ + "{\"role\":"@ + spec_json_string(m@.role);
    assert(out@ =~= s1);
    match &m.content {
        Some(c) => {
            push_str_chars(out, ",\"content\":");
            push_json_string(out, c.as_str());
        },
        None => {},
    }
    assert(out@ =~= s1 + content_part);
    match &m.tool_calls {
        Some(ts) => {
            push_str_chars(out, ",\"tool_calls\":");
            push_tool_calls_json(out, ts);
        },
        None => {},
    }
    assert(out@ =~= s1 + content_part + calls_part);
    match &m.tool_call_id {
        Some(i) => {
            push_str_chars(out, ",\"tool_call_id\":");
            push_json_string(out, i.as_str());
        },
        None => {},
    }
    assert(out@ =~= s1 + content_part + calls_part + id_part);
    out.push('}');
    proof {
        assert(out@ =~= old(out)@ + spec_message_json(m@));
    }
}

/// Append the JSON array of `ms` to `out`.
pub fn push_messages_json(out: &mut Vec<char>, ms: &Vec<Message>)
    ensures
        final(out)@ == old(out)@ + spec_messages_json(ms.deep_view()),
{
    out.push('[');
    let mut i: usize = 0;
    while i < ms.len()
        invariant
            i <= ms@.len(),
            out@ == old(out)@ + seq!['['] + spec_message_list(ms.deep_view().take(i as int)),
        decreases ms@.len() - i,
    {
        let ghost mid = out@;
        if i > 0 {
            out.push(',');
        }
        push_message_json(out, &ms[i]);
        proof {
            let parts = ms.deep_view().take(i as int);
            let p = spec_message_json(ms@[i as int]@);
            lemma_message_list_push(parts, ms.deep_view()[i as int]);
            assert(ms.deep_view()[i as int] == ms@[i as int]@);
            assert(ms.deep_view().take(i as int + 1) =~= parts.push(ms.deep_view()[i as int]));
            if i > 0 {
                assert(out@ =~= mid + seq![','] + p);
                assert(out@ =~= old(out)@ + seq!['['] + (spec_message_list(parts) + seq![','] + p));
            } else {
                assert(parts.len() == 0);
                assert(mid =~= old(out)@ + seq!['[']);
                assert(out@ =~= old(out)@ + seq!['['] + p);
            }
            assert(out@ =~= old(out)@ + seq!['['] + spec_message_list(
                ms.deep_view().take(i as int + 1),
            ));
        }
        i = i + 1;
    }
    out.push(']');
    proof {
        assert(ms.deep_view().take(ms@.len() as int) =~= ms.deep_view());
        assert(out@ =~= old(out)@ + spec_messages_json(ms.deep_view()));
    }
}

/// The JSON text `true` or `false`.
pub open spec fn spec_bool_json(b: bool) -> Seq<char> {
    if b {
        "true"@
    } else {
        "false"@
    }
}

/// A temperature given in tenths, written as a decimal with one fractional
/// digit (seven tenths encode as `0.7`).
pub open spec fn spec_temperature_json(tenths: int) -> Seq<char> {
    spec_dec(tenths / 10) + seq!['.'] + seq![spec_digit_char(tenths % 10)]
}

/// The body of a completion request: the model, the full message history,
/// the sampling temperature, optionally a pre-encoded tool catalogue with
/// the policy that lets the model decide, and the streaming flag.
pub open spec fn spec_completion_body(
    model: Seq<char>,
    ms: Seq<MessageView>,
    temp_tenths: int,
    tools_json: Option<Seq<char>>,
    stream: bool,
) -> Seq<char> {
    "{\"model\":"@ + spec_json_string(model) + ",\"messages\":"@ + spec_messages_json(ms)
        + ",\"temperature\":"@ + spec_temperature_json(temp_tenths) + (match tools_json {
        Some(tj) => ",\"tools\":"@ + tj + ",\"tool_choice\":\"auto\""@,
        None => Seq::<char>::empty(),
    }) + ",\"stream\":"@ + spec_bool_json(stream) + seq!['}']
}

/// Build the completion request body. `tools_json`, when given, must hold
/// the already-encoded tool catalogue array.
pub fn encode_completion_body(
    model: &String,
    ms: &Vec<Message>,
    temp_tenths: u64,
    tools_json: Option<&String>,
    stream: bool,
) -> (r: String)
    ensures
        r@ == spec_completion_body(
            model@,
            ms.deep_view(),
            temp_tenths as int,
            match tools_json {
                Some(tj) => Some(tj@),
                None => None,
            },
            stream,
        ),
{
    let mut out: Vec<char> = Vec::new();
    push_str_chars(&mut out, "{\"model\":");
    push_json_string(&mut out, model.as_str());
    push_str_chars(&mut out, ",\"messages\":");
    push_messages_json(&mut out, ms);
    push_str_chars(&mut out, ",\"temperature\":");
    push_dec(&mut out, temp_tenths / 10);
    out.push('.');
    let frac = temp_tenths % 10;
    push_dec(&mut out, frac);
    proof {
        assert(spec_dec(frac as int) =~= seq![spec_digit_char(frac as int)]);
    }
    match tools_json {
        Some(tj) => {
            push_str_chars(&mut out, ",\"tools\":");
            push_str_chars(&mut out, tj.as_str());
            push_str_chars(&mut out, ",\"tool_choice\":\"auto\"");
        },
        None => {},
    }
    push_str_chars(&mut out, ",\"stream\":");
    if stream {
        push_str_chars(&mut out, "true");
    } else {
        push_str_chars(&mut out, "false");
    }
    out.push('}');
    proof {
        assert(out@ =~= spec_completion_body(
            model@,
            ms.deep_view(),
            temp_tenths as int,
            match tools_json {
                Some(tj) => Some(tj@),
                None => None,
            },
            stream,
        ));
    }
    string_from_chars(&out)
}

/// One request line of the tool-server protocol: a JSON object carrying the
/// version tag, the method, the params (the text `null` when there are
/// none), and the correlation id, terminated by a newline.
pub open spec fn spec_request_line(method: Seq<char>, params: Option<Seq<char>>, id: int) -> Seq<
    char,
> {
    "{\"jsonrpc\":\"2.0\",\"method\":"@ + spec_json_string(method) + ",\"params\":"@ + (
    match params {
        Some(p) => p,
        None => "null"@,
    }) + ",\"id\":"@ + spec_dec(id) + seq!['}', '\n']
}

/// Build one request line. `params_json`, when given, must hold the
/// already-encoded params object.
pub fn encode_request_line(method: &str, params_json: Option<&String>, id: u64) -> (r: String)
    ensures
        r@ == spec_request_line(
            method@,
            match params_json {
                Some(p) => Some(p@),
                None => None,
            },
            id as int,
        ),
{
    let mut out: Vec<char> = Vec::new();
    push_str_chars(&mut out, "{\"jsonrpc\":\"2.0\",\"method\":");
    push_json_string(&mut out, method);
    push_str_chars(&mut out, ",\"params\":");
    match params_json {
        Some(p) => push_str_chars(&mut out, p.as_str()),
        None => push_str_chars(&mut out, "null"),
    }
    push_str_chars(&mut out, ",\"id\":");
    push_dec(&mut out, id);
    out.push('}');
    out.push('\n');
    proof {
        assert(out@ =~= spec_request_line(
            method@,
            match params_json {
                Some(p) => Some(p@),
                None => None,
            },
            id as int,
        ));
    }
    string_from_chars(&out)
}

/// The params object of a `tools/call` request for the named remote tool.
/// `args_json` must hold the already-encoded structured arguments.
pub open spec fn spec_call_params(name: Seq<char>, args_json: Seq<char>) -> Seq<char> {
    "{\"name\":"@ + spec_json_string(name) + ",\"arguments\":"@ + args_json + seq!['}']
}

/// Build the params object of a `tools/call` request.
pub fn encode_call_params(name: &String, args_json: &String) -> (r: String)
    ensures
        r@ == spec_call_params(name@, args_json@),
{
    let mut out: Vec<char> = Vec::new();
    push_str_chars(&mut out, "{\"name\":");
    push_json_string(&mut out, name.as_str());
    push_str_chars(&mut out, ",\"arguments\":");
    push_str_chars(&mut out, args_json.as_str());
    out.push('}');
    proof {
        assert(out@ =~= spec_call_params(name@, args_json@));
    }
    string_from_chars(&out)
}


/// Whether `s` is free of raw newlines.
pub open spec fn spec_line_clean(s: Seq<char>) -> bool {
    forall|j: int| 0 <= j < s.len() ==> s[j] != '\n'
}

/// Newline-freedom is preserved by concatenation.
pub proof fn lemma_clean_concat(a: Seq<char>, b: Seq<char>)
    requires
        spec_line_clean(a),
        spec_line_clean(b),
    ensures
        spec_line_clean(a + b),
{
    assert forall|j: int| 0 <= j < (a + b).len() implies (a + b)[j] != '\n' by {
        if j < a.len() {
            assert((a + b)[j] == a[j]);
        } else {
            assert((a + b)[j] == b[j - a.len()]);
        }
    }
}

/// A JSON string literal holds no raw newline: the escapes keep every
/// character at or above the space character.
pub proof fn lemma_json_string_clean(s: Seq<char>)
    ensures
        spec_line_clean(spec_json_string(s)),
{
    crate::jsonfmt::lemma_escape_no_control(s);
    assert forall|j: int| 0 <= j < spec_json_string(s).len() implies spec_json_string(s)[j]
        != '\n' by {
        let t = spec_json_string(s);
        if j == 0 || j == t.len() - 1 {
            assert(t[j] == '"');
        } else {
            assert(t[j] == spec_escape(s)[j - 1]);
            assert(spec_escape(s)[j - 1] as u32 >= 0x20);
        }
    }
}

/// A decimal numeral holds no raw newline.
pub proof fn lemma_dec_clean(n: int)
    ensures
        spec_line_clean(spec_dec(n)),
    decreases n,
{
    if n < 10 {
        assert(spec_dec(n) =~= seq![spec_digit_char(n)]);
    } else {
        lemma_dec_clean(n / 10);
        assert forall|j: int| 0 <= j < spec_dec(n).len() implies spec_dec(n)[j] != '\n' by {
            if j < spec_dec(n / 10).len() {
                assert(spec_dec(n)[j] == spec_dec(n / 10)[j]);
            } else {
                assert(spec_dec(n)[j] == spec_digit_char(n % 10));
            }
        }
    }
}

/// Law: a framed request is exactly one line. Its last character is the
/// newline terminator, and no newline stands anywhere before it, as long
/// as the spliced params text holds none — which text from the JSON
/// writer never does. That is what makes writing one request and reading
/// one line back a faithful exchange.
pub proof fn lemma_request_line_single_line(
    method: Seq<char>,
    params: Option<Seq<char>>,
    id: int,
)
    requires
        match params {
            Some(p) => spec_line_clean(p),
            None => true,
        },
    ensures
        spec_request_line(method, params, id).last() == '\n',
        spec_line_clean(spec_request_line(method, params, id).drop_last()),
{
    let head = "{\"jsonrpc\":\"2.0\",\"method\":"@;
    let mid = ",\"params\":"@;
    let tail = ",\"id\":"@;
    let params_text = (match params {
        Some(p) => p,
        None => "null"@,
    });
    reveal_strlit("{\"jsonrpc\":\"2.0\",\"method\":");
    reveal_strlit(",\"params\":");
    reveal_strlit(",\"id\":");
    reveal_strlit("null");
    assert(spec_line_clean(head));
    assert(spec_line_clean(mid));
    assert(spec_line_clean(tail));
    if params is None {
        assert(spec_line_clean("null"@));
    }
    lemma_json_string_clean(method);
    lemma_dec_clean(id);
    lemma_clean_concat(head, spec_json_string(method));
    lemma_clean_concat(head + spec_json_string(method), mid);
    lemma_clean_concat(head + spec_json_string(method) + mid, params_text);
    lemma_clean_concat(head + spec_json_string(method) + mid + params_text, tail);
    lemma_clean_concat(head + spec_json_string(method) + mid + params_text + tail, spec_dec(id));
    let body = head + spec_json_string(method) + mid + params_text + tail + spec_dec(id);
    let line = spec_request_line(method, params, id);
    assert(line =~= body + seq!['}', '\n']);
    assert(line.last() == '\n');
    assert forall|j: int| 0 <= j < line.drop_last().len() implies line.drop_last()[j] != '\n' by {
        assert(line.drop_last()[j] == line[j]);
        if j < body.len() {
            assert(line[j] == body[j]);
        } else {
            assert(line[j] == '}');
        }
    }
}

} // verus!
