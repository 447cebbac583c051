//! The conversation orchestrator's turn logic. A turn appends the user's
//! message, hands the full history to the provider, and then either
//! appends the plain assistant reply, or — when the reply requests tools —
//! appends that reply, executes each requested call in the order the model
//! emitted it, appends one `tool` message per call carrying the call's id,
//! and finally appends the follow-up assistant reply. A failing tool call
//! still yields a `tool` message holding the error text, so the model can
//! react to the failure; only one tool-resolution round runs per turn.
use vstd::prelude::*;
use vstd::string::*;

use crate::msg::{
    assistant_message,
    duplicate_tool_calls,
    spec_plain_message,
    spec_tool_message,
    tool_message,
    user_message,
    Message,
    MessageView,
    ToolCall,
    ToolCallView,
};

verus! {

/// Append the user's input to the history.
pub fn append_user(messages: &mut Vec<Message>, text: String)
    ensures
        final(messages).deep_view() == old(messages).deep_view().push(
            spec_plain_message("user"@, text@),
        ),
{
    let m = user_message(text);
    messages.push(m);
    proof {
        assert(messages.deep_view() =~= old(messages).deep_view().push(
            spec_plain_message("user"@, text@),
        ));
    }
}

/// Append a system prompt to the history.
pub fn append_system(messages: &mut Vec<Message>, text: String)
    ensures
        final(messages).deep_view() == old(messages).deep_view().push(
            spec_plain_message("system"@, text@),
        ),
{
    let m = crate::msg::system_message(text);
    messages.push(m);
    proof {
        assert(messages.deep_view() =~= old(messages).deep_view().push(
            spec_plain_message("system"@, text@),
        ));
    }
}

/// Append a plain assistant reply — the common path of a turn.
pub fn append_assistant_text(messages: &mut Vec<Message>, content: String)
    ensures
        final(messages).deep_view() == old(messages).deep_view().push(
            spec_plain_message("assistant"@, content@),
        ),
{
    let m = assistant_message(content);
    messages.push(m);
    proof {
        assert(messages.deep_view() =~= old(messages).deep_view().push(
            spec_plain_message("assistant"@, content@),
        ));
    }
}

/// The history a one-shot completion starts from: the system prompt when
/// one was given, then the user's message.
pub fn initial_messages(system: Option<String>, user_text: String) -> (r: Vec<Message>)
    ensures
        r.deep_view() == (match system {
            Some(s) => seq![spec_plain_message("system"@, s@)],
            None => Seq::<MessageView>::empty(),
        }).push(spec_plain_message("user"@, user_text@)),
{
    let mut out: Vec<Message> = Vec::new();
    match system {
        Some(s) => {
            append_system(&mut out, s);
        },
        None => {},
    }
    append_user(&mut out, user_text);
    proof {
        assert(out.deep_view() =~= (match system {
            Some(s) => seq![spec_plain_message("system"@, s@)],
            None => Seq::<MessageView>::empty(),
        }).push(spec_plain_message("user"@, user_text@)));
    }
    out
}

/// Whether a reply requests a tool round: it carries a `tool_calls` list.
pub fn reply_requests_tools(m: &Message) -> (r: bool)
    ensures
        r == (m@.tool_calls is Some),
{
    match &m.tool_calls {
        Some(_) => true,
        None => false,
    }
}

/// Append a reply message as it stands.
pub fn append_message(messages: &mut Vec<Message>, m: Message)
    ensures
        final(messages).deep_view() == old(messages).deep_view().push(m@),
{
    let ghost mv = m@;
    messages.push(m);
    proof {
        assert(messages.deep_view() =~= old(messages).deep_view().push(mv));
    }
}

/// How one completion reply drives the turn: the common path appends it as
/// it stands, the tool path opens a tool-resolution round.
pub enum TurnReply {
    Plain { message: Message },
    ToolRound { message: Message },
}

/// Classify a completion reply: it opens a tool round exactly when it
/// carries a `tool_calls` list.
pub fn classify_reply(m: Message) -> (r: TurnReply)
    ensures
        match r {
            TurnReply::Plain { message } => message@ == m@ && m@.tool_calls is None,
            TurnReply::ToolRound { message } => message@ == m@ && m@.tool_calls is Some,
        },
{
    if reply_requests_tools(&m) {
        TurnReply::ToolRound { message: m }
    } else {
        TurnReply::Plain { message: m }
    }
}

/// The `tool` messages a round appends: one per call, in the order the
/// model emitted the calls, each carrying that call's id and the result
/// text the registry produced for it.
pub open spec fn spec_tool_result_msgs(calls: Seq<ToolCallView>, results: Seq<Seq<char>>) -> Seq<
    MessageView,
> {
    Seq::new(calls.len(), |i: int| spec_tool_message(calls[i].id, results[i]))
}

/// Append one resolved tool round: the assistant message that requested
/// the calls, then one `tool` message per call. `results` holds, in call
/// order, what each call produced — a result text or an error text.
pub fn apply_tool_round(messages: &mut Vec<Message>, assistant: Message, results: &Vec<String>)
    requires
        assistant@.tool_calls is Some,
        results@.len() == assistant@.tool_calls->0.len(),
    ensures
        final(messages).deep_view() == old(messages).deep_view().push(assistant@)
            + spec_tool_result_msgs(assistant@.tool_calls->0, results.deep_view()),
{
    let ghost av = assistant@;
    let ghost base = messages.deep_view().push(av);
    let calls: Vec<ToolCall> = match &assistant.tool_calls {
        Some(ts) => duplicate_tool_calls(ts),
        None => Vec::new(),
    };
    messages.push(assistant);
    proof {
        assert(messages.deep_view() =~= base);
    }
    let n = calls.len();
    let mut i: usize = 0;
    while i < n
        invariant
            n == calls@.len(),
            i <= n,
            calls.deep_view() == av.tool_calls->0,
            n == results@.len(),
            messages.deep_view().len() == base.len() + i,
            messages.deep_view().take(base.len() as int) == base,
            forall|j: int|
                0 <= j < i ==> messages.deep_view()[base.len() + j] == spec_tool_message(
                    av.tool_calls->0[j].id,
                    #[trigger] results@[j]@,
                ),
        decreases n - i,
    {
        let ghost before_push = messages.deep_view();
        let m = tool_message(calls[i].id.clone(), results[i].clone());
        messages.push(m);
        proof {
            assert(calls.deep_view()[i as int] == calls@[i as int]@);
            assert(m@ == spec_tool_message(av.tool_calls->0[i as int].id, results@[i as int]@));
            assert(messages.deep_view() =~= before_push.push(m@));
            assert(messages.deep_view().take(base.len() as int) =~= before_push.take(
                base.len() as int,
            ));
        }
        i = i + 1;
    }
    proof {
        let full = old(messages).deep_view().push(av) + spec_tool_result_msgs(
            av.tool_calls->0,
            results.deep_view(),
        );
        assert forall|j: int| 0 <= j < full.len() implies messages.deep_view()[j] == full[j] by {
            if j < base.len() {
                assert(messages.deep_view().take(base.len() as int)[j] == messages.deep_view()[j]);
            } else {
                assert(results.deep_view()[j - base.len()] == results@[j - base.len()]@);
            }
        }
        assert(messages.deep_view() =~= full);
    }
}

/// Law: in any resolved tool round, the `tool_call_id` values of the
/// appended `tool` messages equal, in order, the ids of the assistant
/// message's tool calls — and nothing before the round moved.
pub proof fn lemma_tool_round_ids(
    before: Seq<MessageView>,
    assistant: MessageView,
    results: Seq<Seq<char>>,
    after: Seq<MessageView>,
)
    requires
        assistant.tool_calls is Some,
        results.len() == assistant.tool_calls->0.len(),
        after == before.push(assistant) + spec_tool_result_msgs(
            assistant.tool_calls->0,
            results,
        ),
    ensures
        after.len() == before.len() + 1 + results.len(),
        forall|j: int| 0 <= j < before.len() ==> after[j] == before[j],
        after[before.len() as int] == assistant,
        forall|j: int|
            0 <= j < results.len() ==> (#[trigger] after[before.len() + 1 + j]).role == "tool"@,
        forall|j: int|
            0 <= j < results.len() ==> (#[trigger] after[before.len() + 1 + j]).tool_call_id
                == Some(assistant.tool_calls->0[j].id),
        forall|j: int|
            0 <= j < results.len() ==> (#[trigger] after[before.len() + 1 + j]).content == Some(
                results[j],
            ),
{
    assert forall|j: int| 0 <= j < results.len() implies (#[trigger] after[before.len() + 1
        + j]).role == "tool"@ && after[before.len() + 1 + j].tool_call_id == Some(
        assistant.tool_calls->0[j].id,
    ) && after[before.len() + 1 + j].content == Some(results[j]) by {
        assert(after[before.len() + 1 + j] == spec_tool_result_msgs(
            assistant.tool_calls->0,
            results,
        )[j]);
    }
}

} // verus!
