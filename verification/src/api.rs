//! The provider client abstraction: the closed set of provider kinds, the
//! endpoint URLs they use, what a completion response carries, the
//! streaming accumulator with its single non-streaming fallback decision,
//! and the selection helpers of the interactive provider and model picker.
//! The HTTP exchanges themselves happen outside and feed these functions
//! plain values.
use vstd::prelude::*;
use vstd::string::*;

use crate::jsonio::{
    json_array_len,
    json_as_string,
    json_at,
    json_get,
    json_is_null,
    json_parse,
    spec_doc_field,
    spec_field_str,
    spec_json_parse,
    JsonView,
};
use crate::msg::{FunctionCallView, MessageView, ToolCallView};
use crate::msg::{FunctionCall, Message, ToolCall};
use crate::strutil::{
    chars_of_str,
    push_str_chars,
    spec_all_digits,
    spec_dec_val,
    str_eq,
    string_from_chars,
};

verus! {

/// The closed set of provider variants: the native endpoint, or any
/// endpoint compatible with the common completion wire format.
pub enum ProviderKind {
    Native,
    Compatible,
}

/// What identifies one provider binding: its kind, credential, bound
/// model, and base URL.
pub struct ProviderSpec {
    pub kind: ProviderKind,
    pub api_key: String,
    pub model: String,
    pub base_url: String,
}

pub ghost struct ProviderSpecView {
    pub kind: ProviderKind,
    pub api_key: Seq<char>,
    pub model: Seq<char>,
    pub base_url: Seq<char>,
}

impl View for ProviderSpec {
    type V = ProviderSpecView;

    open spec fn view(&self) -> ProviderSpecView {
        ProviderSpecView {
            kind: self.kind,
            api_key: self.api_key@,
            model: self.model@,
            base_url: self.base_url@,
        }
    }
}

impl DeepView for ProviderSpec {
    type V = ProviderSpecView;

    open spec fn deep_view(&self) -> ProviderSpecView {
        self.view()
    }
}

impl ProviderSpec {
    /// The model this binding addresses.
    pub fn model_name(&self) -> (r: &String)
        ensures
            r@ == self.model@,
    {
        &self.model
    }

    /// The same provider bound to another model, credentials kept.
    pub fn with_model(&self, model: String) -> (r: ProviderSpec)
        ensures
            r@.kind == self@.kind,
            r@.api_key == self@.api_key,
            r@.base_url == self@.base_url,
            r@.model == model@,
    {
        ProviderSpec {
            kind: match self.kind {
                ProviderKind::Native => ProviderKind::Native,
                ProviderKind::Compatible => ProviderKind::Compatible,
            },
            api_key: self.api_key.clone(),
            model: model,
            base_url: self.base_url.clone(),
        }
    }
}

/// `s` with every trailing slash removed.
pub open spec fn spec_trim_slashes(s: Seq<char>) -> Seq<char>
    decreases s.len(),
{
    if s.len() > 0 && s.last() == '/' {
        spec_trim_slashes(s.drop_last())
    } else {
        s
    }
}

/// Whether `s` ends with the characters of `p`.
pub open spec fn spec_ends_with(s: Seq<char>, p: Seq<char>) -> bool {
    p.len() <= s.len() && s.skip(s.len() - p.len()) == p
}

/// The completion endpoint under `base`: trailing slashes dropped, the
/// version segment added only where the base does not already end in it.
pub open spec fn spec_completions_url(base: Seq<char>) -> Seq<char> {
    if spec_ends_with(spec_trim_slashes(base), "/v1"@) {
        spec_trim_slashes(base) + "/chat/completions"@
    } else {
        spec_trim_slashes(base) + "/v1/chat/completions"@
    }
}

/// The model-listing endpoint under `base`, formed the same way.
pub open spec fn spec_models_url(base: Seq<char>) -> Seq<char> {
    if spec_ends_with(spec_trim_slashes(base), "/v1"@) {
        spec_trim_slashes(base) + "/models"@
    } else {
        spec_trim_slashes(base) + "/v1/models"@
    }
}

/// The characters of `base` with trailing slashes removed.
fn trimmed_base_chars(base: &str) -> (r: Vec<char>)
    ensures
        r@ == spec_trim_slashes(base@),
{
    let mut b = chars_of_str(base);
    loop
        invariant
            spec_trim_slashes(base@) == spec_trim_slashes(b@),
        ensures
            b@ == spec_trim_slashes(base@),
        decreases b@.len(),
    {
        let l = b.len();
        if l == 0 {
            break ;
        }
        if b[l - 1] != '/' {
            break ;
        }
        let ghost prev = b@;
        let _c = b.pop();
        proof {
            assert(prev.last() == '/');
            assert(b@ =~= prev.drop_last());
            assert(spec_trim_slashes(prev) == spec_trim_slashes(b@));
        }
    }
    b
}

/// Whether the character vector ends with `/v1`.
fn ends_with_v1(b: &Vec<char>) -> (r: bool)
    ensures
        r == spec_ends_with(b@, "/v1"@),
{
    proof {
        reveal_strlit("/v1");
    }
    let l = b.len();
    if l < 3 {
        return false;
    }
    let r = b[l - 3] == '/' && b[l - 2] == 'v' && b[l - 1] == '1';
    proof {
        if r {
            assert(b@.skip(l - 3) =~= "/v1"@);
        } else {
            assert(b@.skip(l - 3).len() == 3);
            assert(b@.skip(l - 3)[0] == b@[l - 3] && b@.skip(l - 3)[1] == b@[l - 2] && b@.skip(
                l - 3,
            )[2] == b@[l - 1]);
        }
    }
    r
}

/// The completion endpoint for `base`.
pub fn completions_url(base: &str) -> (r: String)
    ensures
        r@ == spec_completions_url(base@),
{
    let mut b = trimmed_base_chars(base);
    if ends_with_v1(&b) {
        push_str_chars(&mut b, "/chat/completions");
    } else {
        push_str_chars(&mut b, "/v1/chat/completions");
    }
    string_from_chars(&b)
}

/// The model-listing endpoint for `base`.
pub fn models_url(base: &str) -> (r: String)
    ensures
        r@ == spec_models_url(base@),
{
    let mut b = trimmed_base_chars(base);
    if ends_with_v1(&b) {
        push_str_chars(&mut b, "/models");
    } else {
        push_str_chars(&mut b, "/v1/models");
    }
    string_from_chars(&b)
}

/// One answer a completion endpoint returns: the reply message and why
/// the model stopped.
pub struct Choice {
    pub message: Message,
    pub finish_reason: Option<String>,
}

pub ghost struct ChoiceView {
    pub message: crate::msg::MessageView,
    pub finish_reason: Option<Seq<char>>,
}

impl View for Choice {
    type V = ChoiceView;

    open spec fn view(&self) -> ChoiceView {
        ChoiceView {
            message: self.message@,
            finish_reason: match self.finish_reason {
                Some(f) => Some(f@),
                None => None,
            },
        }
    }
}

impl DeepView for Choice {
    type V = ChoiceView;

    open spec fn deep_view(&self) -> ChoiceView {
        self.view()
    }
}

/// A non-streaming completion response: its answers in order.
pub struct CompletionResponse {
    pub choices: Vec<Choice>,
}

impl View for CompletionResponse {
    type V = Seq<ChoiceView>;

    open spec fn view(&self) -> Seq<ChoiceView> {
        self.choices.deep_view()
    }
}

/// One incremental content fragment of a streaming response.
pub struct Delta {
    pub content: Option<String>,
}

/// One streamed answer: the fragment it carries.
pub struct StreamChoice {
    pub delta: Delta,
}

/// One event of a streaming response: its streamed answers.
pub struct StreamResponse {
    pub choices: Vec<StreamChoice>,
}

/// How a finished stream resolves: the accumulated reply, or the decision
/// to retry the identical request without streaming.
pub enum StreamOutcome {
    Complete(String),
    RetryPlain,
}

/// Folds a streaming response as its events arrive: fragments concatenate
/// in arrival order, a terminal event ends the stream, and a transport
/// error marks it failed. The one fallback decision — retry the same
/// request without streaming — is taken exactly when the stream failed
/// before any content accumulated, so the retry can never duplicate
/// already-emitted output.
pub struct StreamAccumulator {
    pub content: String,
    pub finished: bool,
    pub errored: bool,
}

impl StreamAccumulator {
    /// An accumulator with nothing seen yet.
    pub fn new() -> (r: StreamAccumulator)
        ensures
            r.content@ == Seq::<char>::empty(),
            !r.finished,
            !r.errored,
    {
        StreamAccumulator { content: String::new(), finished: false, errored: false }
    }

    /// Take one event's data. The terminal event finishes the stream; a
    /// data event's fragment — read as `spec_stream_fragment` reads the
    /// data — is appended and handed back for incremental display; any
    /// other event changes nothing. The accumulated content grows by
    /// exactly what is handed back — that is what keeps a later fallback
    /// from duplicating emitted output.
    pub fn on_event(&mut self, data: &str) -> (emit: Option<String>)
        requires
            !old(self).finished,
            !old(self).errored,
        ensures
            final(self).errored == old(self).errored,
            data@ == "[DONE]"@ ==> final(self).finished && emit is None && final(self).content
                == old(self).content,
            data@ != "[DONE]"@ ==> !final(self).finished,
            data@ != "[DONE]"@ ==> (match emit {
                Some(c) => Some(c@),
                None => None,
            }) == spec_stream_fragment(data@),
            match emit {
                Some(c) => final(self).content@ == old(self).content@ + c@,
                None => final(self).content == old(self).content,
            },
    {
        if str_eq(data, "[DONE]") {
            self.finished = true;
            return None;
        }
        match parse_stream_chunk(data) {
            Some(chunk) => {
                if chunk.choices.len() > 0 {
                    match &chunk.choices[0].delta.content {
                        Some(c) => {
                            self.content.append(c.as_str());
                            Some(c.clone())
                        },
                        None => None,
                    }
                } else {
                    None
                }
            },
            None => None,
        }
    }

    /// Note a mid-stream transport failure: the stream ends early with
    /// whatever content accumulated.
    pub fn on_transport_error(&mut self)
        ensures
            final(self).errored,
            final(self).content == old(self).content,
            final(self).finished == old(self).finished,
    {
        self.errored = true;
    }

    /// Resolve the stream: the accumulated content — or, exactly when a
    /// transport error struck before any content arrived, the decision to
    /// retry the identical request without streaming, once.
    pub fn outcome(self) -> (r: StreamOutcome)
        ensures
            match r {
                StreamOutcome::RetryPlain => self.errored && self.content@.len() == 0,
                StreamOutcome::Complete(c) => c == self.content && !(self.errored
                    && self.content@.len() == 0),
            },
    {
        if self.errored && self.content.as_str().unicode_len() == 0 {
            StreamOutcome::RetryPlain
        } else {
            StreamOutcome::Complete(self.content)
        }
    }
}

/// The content fragment a streamed answer carries: the string under
/// `content` of its `delta` member, when there is one.
pub open spec fn spec_fragment_of_choice(d: JsonView) -> Option<Seq<char>> {
    match spec_doc_field(d, "delta"@) {
        Some(dd) => spec_field_str(dd, "content"@),
        None => None,
    }
}

/// The fragment one streaming event's data carries: the first answer's
/// fragment, when the data is JSON whose `choices` member is a nonempty
/// array.
pub open spec fn spec_stream_fragment(s: Seq<char>) -> Option<Seq<char>> {
    match spec_json_parse(s) {
        Some(d) => match spec_doc_field(d, "choices"@) {
            Some(JsonView::Arr { items }) => if items.len() > 0 {
                spec_fragment_of_choice(items[0])
            } else {
                None
            },
            _ => None,
        },
        None => None,
    }
}

/// Read one streaming event's JSON into its answers and their fragments:
/// the `choices` member must be an array, and each element's fragment is
/// read as `spec_fragment_of_choice` reads it. Any other shape yields
/// nothing and the caller ignores the event.
pub fn parse_stream_chunk(data: &str) -> (r: Option<StreamResponse>)
    ensures
        match spec_json_parse(data@) {
            Some(d) => match spec_doc_field(d, "choices"@) {
                Some(JsonView::Arr { items }) => r matches Some(resp) && resp.choices@.len()
                    == items.len() && forall|k: int|
                    0 <= k < items.len() ==> (match (#[trigger] resp.choices@[k]).delta.content {
                        Some(c) => Some(c@),
                        None => None,
                    }) == spec_fragment_of_choice(items[k]),
                _ => r is None,
            },
            None => r is None,
        },
{
    let doc = match json_parse(data) {
        Some(d) => d,
        None => {
            return None;
        },
    };
    let ghost dv = crate::jsonio::json_doc(doc);
    let choices_val = match json_get(&doc, "choices") {
        Some(c) => c,
        None => {
            return None;
        },
    };
    let ghost cv = crate::jsonio::json_doc(*choices_val);
    let n = match json_array_len(choices_val) {
        Some(n) => n,
        None => {
            return None;
        },
    };
    let ghost items = cv->Arr_items;
    let mut choices: Vec<StreamChoice> = Vec::new();
    let mut i: usize = 0;
    while i < n
        invariant
            cv == crate::jsonio::json_doc(*choices_val),
            cv matches JsonView::Arr { items: it2 } && it2 == items,
            n == items.len(),
            i <= n,
            choices@.len() == i,
            forall|k: int|
                0 <= k < i ==> (match (#[trigger] choices@[k]).delta.content {
                    Some(c) => Some(c@),
                    None => None,
                }) == spec_fragment_of_choice(items[k]),
        decreases n - i,
    {
        let content = match json_at(choices_val, i) {
            Some(item) => match json_get(item, "delta") {
                Some(d) => match json_get(d, "content") {
                    Some(c) => json_as_string(c),
                    None => None,
                },
                None => None,
            },
            None => None,
        };
        choices.push(StreamChoice { delta: Delta { content } });
        i = i + 1;
    }
    Some(StreamResponse { choices })
}

/// What one model-issued tool call's document must carry: strings under
/// `id` and `type`, and a `function` member with strings under `name`
/// and `arguments`.
pub open spec fn spec_read_call(d: JsonView) -> Option<ToolCallView> {
    if spec_field_str(d, "id"@) is None {
        None
    } else if spec_field_str(d, "type"@) is None {
        None
    } else {
        match spec_doc_field(d, "function"@) {
            Some(f) => if spec_field_str(f, "name"@) is None || spec_field_str(
                f,
                "arguments"@,
            ) is None {
                None
            } else {
                Some(
                    ToolCallView {
                        id: spec_field_str(d, "id"@)->0,
                        call_kind: spec_field_str(d, "type"@)->0,
                        function: FunctionCallView {
                            name: spec_field_str(f, "name"@)->0,
                            arguments: spec_field_str(f, "arguments"@)->0,
                        },
                    },
                )
            },
            None => None,
        }
    }
}

/// What a `tool_calls` document must be: an array of readable calls, in
/// order.
pub open spec fn spec_read_calls(d: JsonView) -> Option<Seq<ToolCallView>> {
    match d {
        JsonView::Arr { items } => if forall|k: int|
            0 <= k < items.len() ==> spec_read_call(#[trigger] items[k]) is Some {
            Some(Seq::new(items.len(), |k: int| spec_read_call(items[k])->0))
        } else {
            None
        },
        _ => None,
    }
}

/// What one reply message's document must carry: a string under `role`;
/// `content` and `tool_call_id` are kept when they are strings; a
/// non-null `tool_calls` member must be a readable call array.
pub open spec fn spec_read_message(d: JsonView) -> Option<MessageView> {
    if spec_field_str(d, "role"@) is None {
        None
    } else if (match spec_doc_field(d, "tool_calls"@) {
        Some(tc) => !(tc is Null) && spec_read_calls(tc) is None,
        None => false,
    }) {
        None
    } else {
        Some(
            MessageView {
                role: spec_field_str(d, "role"@)->0,
                content: spec_field_str(d, "content"@),
                tool_calls: match spec_doc_field(d, "tool_calls"@) {
                    Some(tc) => if tc is Null {
                        None
                    } else {
                        spec_read_calls(tc)
                    },
                    None => None,
                },
                tool_call_id: spec_field_str(d, "tool_call_id"@),
            },
        )
    }
}

/// What one answer's document must carry: a readable `message`; the
/// finish reason is kept when it is a string.
pub open spec fn spec_read_choice(d: JsonView) -> Option<ChoiceView> {
    match spec_doc_field(d, "message"@) {
        Some(m) => match spec_read_message(m) {
            Some(mv) => Some(
                ChoiceView { message: mv, finish_reason: spec_field_str(d, "finish_reason"@) },
            ),
            None => None,
        },
        None => None,
    }
}

/// Read a completion response's JSON: its `choices` member must be an
/// array of readable answers (see `spec_read_choice`), which come back
/// in order; any other shape yields nothing.
pub fn parse_completion_response(body: &str) -> (r: Option<CompletionResponse>)
    ensures
        match spec_json_parse(body@) {
            Some(d) => match spec_doc_field(d, "choices"@) {
                Some(JsonView::Arr { items }) => {
                    &&& (forall|k: int|
                        0 <= k < items.len() ==> spec_read_choice(#[trigger] items[k]) is Some)
                        ==> (r matches Some(resp) && resp@ == Seq::new(
                        items.len(),
                        |k: int| spec_read_choice(items[k])->0,
                    ))
                    &&& !(forall|k: int|
                        0 <= k < items.len() ==> spec_read_choice(#[trigger] items[k]) is Some)
                        ==> r is None
                },
                _ => r is None,
            },
            None => r is None,
        },
{
    let doc = match json_parse(body) {
        Some(d) => d,
        None => {
            return None;
        },
    };
    let ghost dv = crate::jsonio::json_doc(doc);
    let choices_val = match json_get(&doc, "choices") {
        Some(c) => c,
        None => {
            return None;
        },
    };
    let ghost cv = crate::jsonio::json_doc(*choices_val);
    let n = match json_array_len(choices_val) {
        Some(n) => n,
        None => {
            return None;
        },
    };
    let ghost items = cv->Arr_items;
    let mut choices: Vec<Choice> = Vec::new();
    let mut i: usize = 0;
    while i < n
        invariant
            spec_json_parse(body@) == Some(dv),
            spec_doc_field(dv, "choices"@) == Some(cv),
            cv == crate::jsonio::json_doc(*choices_val),
            cv matches JsonView::Arr { items: it2 } && it2 == items,
            n == items.len(),
            i <= n,
            choices@.len() == i,
            forall|k: int|
                0 <= k < i ==> spec_read_choice(#[trigger] items[k]) is Some && choices@[k]@
                    == spec_read_choice(items[k])->0,
        decreases n - i,
    {
        let item = match json_at(choices_val, i) {
            Some(v) => v,
            None => {
                proof {
                    assert(false);
                }
                return None;
            },
        };
        let ghost cd = crate::jsonio::json_doc(*item);
        proof {
            assert(cd == items[i as int]);
        }
        let message_val = match json_get(item, "message") {
            Some(m) => m,
            None => {
                proof {
                    assert(spec_read_choice(cd) is None);
                }
                return None;
            },
        };
        let message = match parse_message(message_val) {
            Some(m) => m,
            None => {
                proof {
                    assert(spec_read_choice(cd) is None);
                }
                return None;
            },
        };
        let finish_reason = match json_get(item, "finish_reason") {
            Some(f) => json_as_string(f),
            None => None,
        };
        let choice = Choice { message, finish_reason };
        proof {
            assert(spec_read_choice(cd) is Some);
            assert(choice@ == spec_read_choice(cd)->0);
        }
        choices.push(choice);
        i = i + 1;
    }
    proof {
        assert(choices.deep_view() =~= Seq::new(
            items.len(),
            |k: int| spec_read_choice(items[k])->0,
        ));
    }
    Some(CompletionResponse { choices })
}

/// Read one message as `spec_read_message` reads its document.
fn parse_message(v: &serde_json::Value) -> (r: Option<Message>)
    ensures
        match spec_read_message(crate::jsonio::json_doc(*v)) {
            Some(mv) => r matches Some(m) && m@ == mv,
            None => r is None,
        },
{
    let ghost d = crate::jsonio::json_doc(*v);
    let role = match json_get(v, "role") {
        Some(r2) => match json_as_string(r2) {
            Some(s) => s,
            None => {
                return None;
            },
        },
        None => {
            return None;
        },
    };
    let content = match json_get(v, "content") {
        Some(c) => {
            if json_is_null(c) {
                None
            } else {
                json_as_string(c)
            }
        },
        None => None,
    };
    let tool_calls = match json_get(v, "tool_calls") {
        Some(tc) => {
            if json_is_null(tc) {
                None
            } else {
                match parse_tool_calls(tc) {
                    Some(ts) => Some(ts),
                    None => {
                        return None;
                    },
                }
            }
        },
        None => None,
    };
    let tool_call_id = match json_get(v, "tool_call_id") {
        Some(t) => {
            if json_is_null(t) {
                None
            } else {
                json_as_string(t)
            }
        },
        None => None,
    };
    let m = Message { role, content, tool_calls, tool_call_id };
    proof {
        assert(m@ == spec_read_message(d)->0);
    }
    Some(m)
}

/// Read a `tool_calls` array as `spec_read_calls` reads its document.
fn parse_tool_calls(v: &serde_json::Value) -> (r: Option<Vec<ToolCall>>)
    ensures
        match spec_read_calls(crate::jsonio::json_doc(*v)) {
            Some(cs) => r matches Some(out) && out.deep_view() == cs,
            None => r is None,
        },
{
    let ghost d = crate::jsonio::json_doc(*v);
    let n = match json_array_len(v) {
        Some(n) => n,
        None => {
            return None;
        },
    };
    let ghost items = d->Arr_items;
    let mut out: Vec<ToolCall> = Vec::new();
    let mut i: usize = 0;
    while i < n
        invariant
            d == crate::jsonio::json_doc(*v),
            d matches JsonView::Arr { items: it2 } && it2 == items,
            n == items.len(),
            i <= n,
            out@.len() == i,
            forall|k: int|
                0 <= k < i ==> spec_read_call(#[trigger] items[k]) is Some && out@[k]@
                    == spec_read_call(items[k])->0,
        decreases n - i,
    {
        let item = match json_at(v, i) {
            Some(c) => c,
            None => {
                proof {
                    assert(false);
                }
                return None;
            },
        };
        let ghost cd = crate::jsonio::json_doc(*item);
        proof {
            assert(cd == items[i as int]);
        }
        let id = match json_get(item, "id") {
            Some(x) => match json_as_string(x) {
                Some(s) => s,
                None => {
                    proof {
                        assert(spec_read_call(cd) is None);
                    }
                    return None;
                },
            },
            None => {
                proof {
                    assert(spec_read_call(cd) is None);
                }
                return None;
            },
        };
        let call_kind = match json_get(item, "type") {
            Some(x) => match json_as_string(x) {
                Some(s) => s,
                None => {
                    proof {
                        assert(spec_read_call(cd) is None);
                    }
                    return None;
                },
            },
            None => {
                proof {
                    assert(spec_read_call(cd) is None);
                }
                return None;
            },
        };
        let function_val = match json_get(item, "function") {
            Some(f) => f,
            None => {
                proof {
                    assert(spec_read_call(cd) is None);
                }
                return None;
            },
        };
        let name = match json_get(function_val, "name") {
            Some(x) => match json_as_string(x) {
                Some(s) => s,
                None => {
                    proof {
                        assert(spec_read_call(cd) is None);
                    }
                    return None;
                },
            },
            None => {
                proof {
                    assert(spec_read_call(cd) is None);
                }
                return None;
            },
        };
        let arguments = match json_get(function_val, "arguments") {
            Some(x) => match json_as_string(x) {
                Some(s) => s,
                None => {
                    proof {
                        assert(spec_read_call(cd) is None);
                    }
                    return None;
                },
            },
            None => {
                proof {
                    assert(spec_read_call(cd) is None);
                }
                return None;
            },
        };
        let call = ToolCall { id, call_kind, function: FunctionCall { name, arguments } };
        proof {
            assert(spec_read_call(cd) is Some);
            assert(call@ == spec_read_call(cd)->0);
        }
        out.push(call);
        i = i + 1;
    }
    proof {
        assert(out.deep_view() =~= Seq::new(items.len(), |k: int| spec_read_call(items[k])->0));
    }
    Some(out)
}

/// Read a `tool_calls` list out of its own JSON text — the form a stored
/// assistant turn keeps its requested calls in.
pub fn parse_tool_calls_text(s: &str) -> (r: Option<Vec<ToolCall>>)
    ensures
        match spec_json_parse(s@) {
            Some(d) => match spec_read_calls(d) {
                Some(cs) => r matches Some(out) && out.deep_view() == cs,
                None => r is None,
            },
            None => r is None,
        },
{
    let doc = match json_parse(s) {
        Some(d) => d,
        None => {
            return None;
        },
    };
    parse_tool_calls(&doc)
}

/// Read a model-listing response: its `data` member must be an array
/// whose every element carries a string under `id`; the identifiers come
/// back in server order. Any other shape yields nothing.
pub fn parse_models_response(body: &str) -> (r: Option<Vec<String>>)
    ensures
        match spec_json_parse(body@) {
            Some(d) => match spec_doc_field(d, "data"@) {
                Some(JsonView::Arr { items }) => {
                    &&& (forall|k: int|
                        0 <= k < items.len() ==> spec_field_str(#[trigger] items[k], "id"@)
                            is Some) ==> (r matches Some(ids) && ids.deep_view() == Seq::new(
                        items.len(),
                        |k: int| spec_field_str(items[k], "id"@)->0,
                    ))
                    &&& !(forall|k: int|
                        0 <= k < items.len() ==> spec_field_str(#[trigger] items[k], "id"@)
                            is Some) ==> r is None
                },
                _ => r is None,
            },
            None => r is None,
        },
{
    let doc = match json_parse(body) {
        Some(d) => d,
        None => {
            return None;
        },
    };
    let ghost dv = crate::jsonio::json_doc(doc);
    let data_val = match json_get(&doc, "data") {
        Some(d) => d,
        None => {
            return None;
        },
    };
    let ghost av = crate::jsonio::json_doc(*data_val);
    let n = match json_array_len(data_val) {
        Some(n) => n,
        None => {
            return None;
        },
    };
    let ghost items = av->Arr_items;
    let mut out: Vec<String> = Vec::new();
    let mut i: usize = 0;
    while i < n
        invariant
            spec_json_parse(body@) == Some(dv),
            spec_doc_field(dv, "data"@) == Some(av),
            av == crate::jsonio::json_doc(*data_val),
            av matches JsonView::Arr { items: it2 } && it2 == items,
            n == items.len(),
            i <= n,
            out@.len() == i,
            forall|k: int|
                0 <= k < i ==> spec_field_str(#[trigger] items[k], "id"@) is Some && out@[k]@
                    == spec_field_str(items[k], "id"@)->0,
        decreases n - i,
    {
        let item = match json_at(data_val, i) {
            Some(v) => v,
            None => {
                proof {
                    assert(false);
                }
                return None;
            },
        };
        let ghost md = crate::jsonio::json_doc(*item);
        proof {
            assert(md == items[i as int]);
        }
        let id = match json_get(item, "id") {
            Some(x) => match json_as_string(x) {
                Some(s) => s,
                None => {
                    proof {
                        assert(spec_field_str(md, "id"@) is None);
                    }
                    return None;
                },
            },
            None => {
                proof {
                    assert(spec_field_str(md, "id"@) is None);
                }
                return None;
            },
        };
        out.push(id);
        i = i + 1;
    }
    proof {
        assert(out.deep_view() =~= Seq::new(
            items.len(),
            |k: int| spec_field_str(items[k], "id"@)->0,
        ));
    }
    Some(out)
}

/// What a menu answer selects among `n` items: the entered number clamped
/// into range, counted from zero; anything that is not a number selects
/// the first item.
pub open spec fn spec_pick_index(s: Seq<char>, n: int) -> int {
    let entered = if s.len() > 0 && spec_all_digits(s) && spec_dec_val(s, s.len() as int)
        <= u64::MAX {
        spec_dec_val(s, s.len() as int)
    } else {
        1
    };
    let clamped = if entered < 1 {
        1
    } else if entered > n {
        n
    } else {
        entered
    };
    clamped - 1
}

/// Resolve a provider-menu answer to an index among `n` listed providers.
pub fn pick_index(s: &str, n: usize) -> (r: usize)
    requires
        n >= 1,
    ensures
        r < n,
        r as int == spec_pick_index(s@, n as int),
{
    let entered: u64 = match crate::strutil::parse_u64(s) {
        Some(v) => v,
        None => 1,
    };
    let clamped: u64 = if entered < 1 {
        1
    } else if entered > (n as u64) {
        n as u64
    } else {
        entered
    };
    (clamped - 1) as usize
}

/// What a model-menu answer selects from the listed models: the model at
/// the entered number when that number is in range, otherwise the answer
/// itself as a model name.
pub open spec fn spec_choose_model(models: Seq<Seq<char>>, s: Seq<char>) -> Seq<char> {
    let entered = spec_dec_val(s, s.len() as int);
    if s.len() > 0 && spec_all_digits(s) && entered <= u64::MAX && 1 <= entered <= models.len() {
        models[entered - 1]
    } else {
        s
    }
}

/// Resolve a model-menu answer against the listed models.
pub fn choose_model(models: &Vec<String>, s: &str) -> (r: String)
    ensures
        r@ == spec_choose_model(models.deep_view(), s@),
{
    match crate::strutil::parse_u64(s) {
        Some(v) => {
            if 1 <= v && v <= (models.len() as u64) {
                proof {
                    assert(models.deep_view()[v as int - 1] == models@[v as int - 1]@);
                }
                models[(v - 1) as usize].clone()
            } else {
                String::from_str(s)
            }
        },
        None => String::from_str(s),
    }
}

/// The provider bindings one can pick from, given which credentials are
/// on hand: the native provider and each compatible endpoint, in a fixed
/// order, each bound to its default model.
pub open spec fn spec_provider_menu(
    deepseek_key: Option<Seq<char>>,
    openai_key: Option<Seq<char>>,
    xai_key: Option<Seq<char>>,
    groq_key: Option<Seq<char>>,
) -> Seq<ProviderSpecView> {
    (match deepseek_key {
        Some(k) => seq![
            ProviderSpecView {
                kind: ProviderKind::Native,
                api_key: k,
                model: "deepseek-chat"@,
                base_url: "https://api.deepseek.com"@,
            },
        ],
        None => Seq::empty(),
    }) + (match openai_key {
        Some(k) => seq![
            ProviderSpecView {
                kind: ProviderKind::Compatible,
                api_key: k,
                model: "gpt-4o-mini"@,
                base_url: "https://api.openai.com"@,
            },
        ],
        None => Seq::empty(),
    }) + (match xai_key {
        Some(k) => seq![
            ProviderSpecView {
                kind: ProviderKind::Compatible,
                api_key: k,
                model: "grok-code-fast-1"@,
                base_url: "https://api.x.ai/v1"@,
            },
        ],
        None => Seq::empty(),
    }) + (match groq_key {
        Some(k) => seq![
            ProviderSpecView {
                kind: ProviderKind::Compatible,
                api_key: k,
                model: "llama3-70b-8192"@,
                base_url: "https://api.groq.com/openai"@,
            },
        ],
        None => Seq::empty(),
    })
}

/// Build the provider menu from the credentials on hand.
pub fn provider_menu(
    deepseek_key: Option<String>,
    openai_key: Option<String>,
    xai_key: Option<String>,
    groq_key: Option<String>,
) -> (r: Vec<ProviderSpec>)
    ensures
        r.deep_view() == spec_provider_menu(
            match deepseek_key {
                Some(k) => Some(k@),
                None => None,
            },
            match openai_key {
                Some(k) => Some(k@),
                None => None,
            },
            match xai_key {
                Some(k) => Some(k@),
                None => None,
            },
            match groq_key {
                Some(k) => Some(k@),
                None => None,
            },
        ),
{
    let mut out: Vec<ProviderSpec> = Vec::new();
    match deepseek_key {
        Some(k) => {
            out.push(
                ProviderSpec {
                    kind: ProviderKind::Native,
                    api_key: k,
                    model: String::from_str("deepseek-chat"),
                    base_url: String::from_str("https://api.deepseek.com"),
                },
            );
        },
        None => {},
    }
    match openai_key {
        Some(k) => {
            out.push(
                ProviderSpec {
                    kind: ProviderKind::Compatible,
                    api_key: k,
                    model: String::from_str("gpt-4o-mini"),
                    base_url: String::from_str("https://api.openai.com"),
                },
            );
        },
        None => {},
    }
    match xai_key {
        Some(k) => {
            out.push(
                ProviderSpec {
                    kind: ProviderKind::Compatible,
                    api_key: k,
                    model: String::from_str("grok-code-fast-1"),
                    base_url: String::from_str("https://api.x.ai/v1"),
                },
            );
        },
        None => {},
    }
    match groq_key {
        Some(k) => {
            out.push(
                ProviderSpec {
                    kind: ProviderKind::Compatible,
                    api_key: k,
                    model: String::from_str("llama3-70b-8192"),
                    base_url: String::from_str("https://api.groq.com/openai"),
                },
            );
        },
        None => {},
    }
    proof {
        assert(out.deep_view() =~= spec_provider_menu(
            match deepseek_key {
                Some(k) => Some(k@),
                None => None,
            },
            match openai_key {
                Some(k) => Some(k@),
                None => None,
            },
            match xai_key {
                Some(k) => Some(k@),
                None => None,
            },
            match groq_key {
                Some(k) => Some(k@),
                None => None,
            },
        ));
    }
    out
}

/// The content of a response's first answer, or empty text when there is
/// no answer or the first answer carries no content.
pub fn first_choice_content(resp: &CompletionResponse) -> (r: String)
    ensures
        r@ == (if resp@.len() > 0 && resp@[0].message.content is Some {
            resp@[0].message.content->0
        } else {
            Seq::<char>::empty()
        }),
{
    if resp.choices.len() > 0 {
        match &resp.choices[0].message.content {
            Some(c) => c.clone(),
            None => String::new(),
        }
    } else {
        String::new()
    }
}

} // verus!
