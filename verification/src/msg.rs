//! The conversation data model: messages, tool calls, and the constructors
//! the orchestrator uses. A `tool` message always carries the id of the tool
//! call it answers; an assistant message that requests tools carries the
//! ordered list of those calls.
use vstd::prelude::*;
use vstd::string::*;

verus! {

/// The name and raw argument text of one requested tool invocation.
pub struct FunctionCall {
    pub name: String,
    pub arguments: String,
}

pub ghost struct FunctionCallView {
    pub name: Seq<char>,
    pub arguments: Seq<char>,
}

impl View for FunctionCall {
    type V = FunctionCallView;

    open spec fn view(&self) -> FunctionCallView {
        FunctionCallView { name: self.name@, arguments: self.arguments@ }
    }
}

impl DeepView for FunctionCall {
    type V = FunctionCallView;

    open spec fn deep_view(&self) -> FunctionCallView {
        self.view()
    }
}

/// One model-issued tool call: a correlation id, a call kind (always the
/// text `function` on the wire), and the function to invoke.
pub struct ToolCall {
    pub id: String,
    pub call_kind: String,
    pub function: FunctionCall,
}

pub ghost struct ToolCallView {
    pub id: Seq<char>,
    pub call_kind: Seq<char>,
    pub function: FunctionCallView,
}

impl View for ToolCall {
    type V = ToolCallView;

    open spec fn view(&self) -> ToolCallView {
        ToolCallView { id: self.id@, call_kind: self.call_kind@, function: self.function@ }
    }
}

impl DeepView for ToolCall {
    type V = ToolCallView;

    open spec fn deep_view(&self) -> ToolCallView {
        self.view()
    }
}

/// One turn of a conversation: a role, optional content, the tool calls an
/// assistant turn requests, and, on a `tool` turn, the id of the call that
/// the content answers.
pub struct Message {
    pub role: String,
    pub content: Option<String>,
    pub tool_calls: Option<Vec<ToolCall>>,
    pub tool_call_id: Option<String>,
}

pub ghost struct MessageView {
    pub role: Seq<char>,
    pub content: Option<Seq<char>>,
    pub tool_calls: Option<Seq<ToolCallView>>,
    pub tool_call_id: Option<Seq<char>>,
}

impl View for Message {
    type V = MessageView;

    open spec fn view(&self) -> MessageView {
        MessageView {
            role: self.role@,
            content: match self.content {
                Some(c) => Some(c@),
                None => None,
            },
            tool_calls: match self.tool_calls {
                Some(ts) => Some(ts.deep_view()),
                None => None,
            },
            tool_call_id: match self.tool_call_id {
                Some(i) => Some(i@),
                None => None,
            },
        }
    }
}

impl DeepView for Message {
    type V = MessageView;

    open spec fn deep_view(&self) -> MessageView {
        self.view()
    }
}

/// The view of a plain message: the given role and content, no tool linkage.
pub open spec fn spec_plain_message(role: Seq<char>, content: Seq<char>) -> MessageView {
    MessageView {
        role: role,
        content: Some(content),
        tool_calls: None,
        tool_call_id: None,
    }
}

/// The view of a `tool` message answering the call with id `call_id`.
pub open spec fn spec_tool_message(call_id: Seq<char>, content: Seq<char>) -> MessageView {
    MessageView {
        role: "tool"@,
        content: Some(content),
        tool_calls: None,
        tool_call_id: Some(call_id),
    }
}

/// A `system` message holding `content`.
pub fn system_message(content: String) -> (m: Message)
    ensures
        m@ == spec_plain_message("system"@, content@),
{
    Message {
        role: String::from_str("system"),
        content: Some(content),
        tool_calls: None,
        tool_call_id: None,
    }
}

/// A `user` message holding `content`.
pub fn user_message(content: String) -> (m: Message)
    ensures
        m@ == spec_plain_message("user"@, content@),
{
    Message {
        role: String::from_str("user"),
        content: Some(content),
        tool_calls: None,
        tool_call_id: None,
    }
}

/// An `assistant` message holding `content` and requesting no tools.
pub fn assistant_message(content: String) -> (m: Message)
    ensures
        m@ == spec_plain_message("assistant"@, content@),
{
    Message {
        role: String::from_str("assistant"),
        content: Some(content),
        tool_calls: None,
        tool_call_id: None,
    }
}

/// A `tool` message answering the call with id `call_id`.
pub fn tool_message(call_id: String, content: String) -> (m: Message)
    ensures
        m@ == spec_tool_message(call_id@, content@),
{
    Message {
        role: String::from_str("tool"),
        content: Some(content),
        tool_calls: None,
        tool_call_id: Some(call_id),
    }
}

/// An exact copy of a message.
pub fn duplicate_message(m: &Message) -> (r: Message)
    ensures
        r@ == m@,
{
    let content = match &m.content {
        Some(c) => Some(c.clone()),
        None => None,
    };
    let tool_call_id = match &m.tool_call_id {
        Some(i) => Some(i.clone()),
        None => None,
    };
    let tool_calls = match &m.tool_calls {
        Some(ts) => Some(duplicate_tool_calls(ts)),
        None => None,
    };
    let r = Message { role: m.role.clone(), content, tool_calls, tool_call_id };
    proof {
        assert(r@ == m@);
    }
    r
}

/// An exact copy of a tool call.
pub fn duplicate_tool_call(t: &ToolCall) -> (r: ToolCall)
    ensures
        r@ == t@,
{
    ToolCall {
        id: t.id.clone(),
        call_kind: t.call_kind.clone(),
        function: FunctionCall {
            name: t.function.name.clone(),
            arguments: t.function.arguments.clone(),
        },
    }
}

/// An exact copy of a list of tool calls.
pub fn duplicate_tool_calls(ts: &Vec<ToolCall>) -> (r: Vec<ToolCall>)
    ensures
        r.deep_view() == ts.deep_view(),
{
    let mut out: Vec<ToolCall> = Vec::new();
    let mut i: usize = 0;
    while i < ts.len()
        invariant
            i <= ts.len(),
            out@.len() == i,
            forall|j: int| 0 <= j < i ==> out@[j]@ == ts@[j]@,
        decreases ts.len() - i,
    {
        out.push(duplicate_tool_call(&ts[i]));
        i = i + 1;
    }
    proof {
        assert forall|j: int| 0 <= j < ts@.len() implies out.deep_view()[j] == ts.deep_view()[j] by {
            assert(out@[j]@ == ts@[j]@);
        }
        assert(out.deep_view() =~= ts.deep_view());
    }
    out
}

} // verus!
