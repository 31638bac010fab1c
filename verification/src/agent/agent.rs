//! The bookkeeping of a streamed agent reply: folding stream chunks into a
//! response, merging tool-call fragments, and deciding after each round
//! whether tools run or the reply is final.

use vstd::prelude::*;

use crate::text::{chars_eq, concat_str, str_chars};

verus! {

/// Why the model stopped generating.
#[derive(Debug, Clone, Copy, PartialEq, Eq, Structural)]
pub enum FinishReason {
    Stop,
    Length,
    ToolCalls,
    ContentFilter,
    FunctionCall,
}

/// One streamed fragment of a tool call. Fragments with the same `index`
/// belong to the same call.
#[derive(Debug, Clone)]
pub struct ToolCallChunk {
    pub index: u32,
    pub id: Option<String>,
    pub name: Option<String>,
    pub arguments: Option<String>,
}

/// A complete tool call, assembled from its fragments.
#[derive(Debug, Clone)]
pub struct ToolCall {
    pub index: u32,
    pub id: String,
    pub name: String,
    pub arguments: String,
}

/// Whether some fragment belongs to the call `k`.
pub open spec fn has_index(c: Seq<ToolCallChunk>, k: u32) -> bool {
    exists|i: int| 0 <= i < c.len() && (#[trigger] c[i]).index == k
}

/// The id of call `k`: the last id given by one of its fragments, or empty.
pub open spec fn merged_id(c: Seq<ToolCallChunk>, k: u32) -> Seq<char>
    decreases c.len(),
{
    if c.len() == 0 {
        Seq::empty()
    } else if c.last().index == k && c.last().id is Some {
        c.last().id->0@
    } else {
        merged_id(c.drop_last(), k)
    }
}

/// The function name of call `k`: the last name given by one of its
/// fragments, or empty.
pub open spec fn merged_name(c: Seq<ToolCallChunk>, k: u32) -> Seq<char>
    decreases c.len(),
{
    if c.len() == 0 {
        Seq::empty()
    } else if c.last().index == k && c.last().name is Some {
        c.last().name->0@
    } else {
        merged_name(c.drop_last(), k)
    }
}

/// The arguments of call `k`: the argument pieces of its fragments, joined in
/// stream order.
pub open spec fn merged_arguments(c: Seq<ToolCallChunk>, k: u32) -> Seq<char>
    decreases c.len(),
{
    if c.len() == 0 {
        Seq::empty()
    } else {
        merged_arguments(c.drop_last(), k) + if c.last().index == k && c.last().arguments is Some {
            c.last().arguments->0@
        } else {
            Seq::empty()
        }
    }
}

/// `m` holds one call per distinct fragment index, in ascending index order,
/// each assembled from its fragments.
pub open spec fn merged_from(c: Seq<ToolCallChunk>, m: Seq<ToolCall>) -> bool {
    &&& forall|p: int, q: int| 0 <= p < q < m.len() ==> m[p].index < m[q].index
    &&& forall|k: u32| has_index(c, k) <==> exists|p: int| 0 <= p < m.len() && (#[trigger] m[p]).index == k
    &&& forall|p: int|
        0 <= p < m.len() ==> {
            &&& (#[trigger] m[p]).id@ == merged_id(c, m[p].index)
            &&& m[p].name@ == merged_name(c, m[p].index)
            &&& m[p].arguments@ == merged_arguments(c, m[p].index)
        }
}

proof fn lemma_absent_index(c: Seq<ToolCallChunk>, k: u32)
    requires
        !has_index(c, k),
    ensures
        merged_id(c, k) == Seq::<char>::empty(),
        merged_name(c, k) == Seq::<char>::empty(),
        merged_arguments(c, k) == Seq::<char>::empty(),
    decreases c.len(),
{
    if c.len() > 0 {
        let d = c.drop_last();
        assert(!has_index(d, k)) by {
            if has_index(d, k) {
                let i = choose|i: int| 0 <= i < d.len() && (#[trigger] d[i]).index == k;
                assert(c[i] == d[i]);
            }
        }
        assert(c[c.len() - 1] == c.last());
        lemma_absent_index(d, k);
        assert(merged_arguments(c, k) =~= Seq::<char>::empty());
    }
}

fn opt_text(s: &Option<String>) -> (r: String)
    ensures
        r@ == (match s {
            Some(t) => t@,
            None => Seq::<char>::empty(),
        }),
{
    match s {
        Some(t) => t.clone(),
        None => String::new(),
    }
}

/// Assembles tool calls from their streamed fragments: one call per fragment
/// index, in ascending index order. A call's id and name are the last ones
/// its fragments gave (empty when none did); its arguments are the pieces of
/// its fragments joined in stream order.
pub fn merge_tool_call_chunks(chunks: &[ToolCallChunk]) -> (r: Vec<ToolCall>)
    ensures
        merged_from(chunks@, r@),
{
    let mut merged: Vec<ToolCall> = Vec::new();
    let mut j: usize = 0;
    assert(chunks@.take(0) =~= Seq::<ToolCallChunk>::empty());
    while j < chunks.len()
        invariant
            j <= chunks@.len(),
            merged_from(chunks@.take(j as int), merged@),
        decreases chunks@.len() - j,
    {
        let ghost cj = chunks@.take(j as int);
        let ghost cn = chunks@.take(j + 1);
        let chunk = &chunks[j];
        let k = chunk.index;
        assert(cn.drop_last() =~= cj);
        assert(cn.last() == chunks@[j as int]);
        assert forall|x: u32| has_index(cn, x) <==> (has_index(cj, x) || x == k) by {
            if has_index(cn, x) {
                let i = choose|i: int| 0 <= i < cn.len() && (#[trigger] cn[i]).index == x;
                if i < j {
                    assert(cj[i] == cn[i]);
                }
            }
            if has_index(cj, x) {
                let i = choose|i: int| 0 <= i < cj.len() && (#[trigger] cj[i]).index == x;
                assert(cn[i] == cj[i]);
            }
            if x == k {
                assert(cn[j as int].index == k);
            }
        }
        let mut p: usize = 0;
        while p < merged.len() && merged[p].index < k
            invariant
                p <= merged@.len(),
                forall|q: int| 0 <= q < p ==> (#[trigger] merged@[q]).index < k,
            decreases merged@.len() - p,
        {
            p = p + 1;
        }
        let ghost old_m = merged@;
        if p < merged.len() && merged[p].index == k {
            let old_entry = &merged[p];
            let id = match &chunk.id {
                Some(i) => i.clone(),
                None => old_entry.id.clone(),
            };
            let name = match &chunk.name {
                Some(n) => n.clone(),
                None => old_entry.name.clone(),
            };
            let piece = opt_text(&chunk.arguments);
            let arguments = concat_str(old_entry.arguments.as_str(), piece.as_str());
            let entry = ToolCall { index: k, id, name, arguments };
            merged.set(p, entry);
            proof {
                assert forall|q: int| 0 <= q < merged@.len() implies {
                    &&& (#[trigger] merged@[q]).id@ == merged_id(cn, merged@[q].index)
                    &&& merged@[q].name@ == merged_name(cn, merged@[q].index)
                    &&& merged@[q].arguments@ == merged_arguments(cn, merged@[q].index)
                } by {
                    if q != p {
                        assert(merged@[q] == old_m[q]);
                        assert(old_m[q].index != k);
                    }
                }
                assert forall|x: u32| has_index(cn, x) implies exists|q: int|
                    0 <= q < merged@.len() && (#[trigger] merged@[q]).index == x by {
                    if x == k {
                        assert(merged@[p as int].index == k);
                    } else {
                        let q = choose|q: int| 0 <= q < old_m.len() && (#[trigger] old_m[q]).index == x;
                        assert(merged@[q] == old_m[q]);
                    }
                }
                assert forall|x: u32| (exists|q: int|
                    0 <= q < merged@.len() && (#[trigger] merged@[q]).index == x) implies has_index(cn, x) by {
                    let q = choose|q: int| 0 <= q < merged@.len() && (#[trigger] merged@[q]).index == x;
                    if q != p {
                        assert(merged@[q] == old_m[q]);
                    }
                }
            }
        } else {
            proof {
                assert(!has_index(cj, k)) by {
                    if has_index(cj, k) {
                        let q = choose|q: int| 0 <= q < old_m.len() && (#[trigger] old_m[q]).index == k;
                        if q < p {
                            assert(old_m[q].index < k);
                        } else if q > p {
                            assert(old_m[p as int].index < old_m[q].index);
                        }
                    }
                }
                lemma_absent_index(cj, k);
            }
            let id = opt_text(&chunk.id);
            let name = opt_text(&chunk.name);
            let arguments = opt_text(&chunk.arguments);
            let entry = ToolCall { index: k, id, name, arguments };
            merged.insert(p, entry);
            proof {
                assert(merged@ =~= old_m.insert(p as int, entry));
                assert(merged_arguments(cn, k) =~= entry.arguments@);
                assert forall|a: int, b: int| 0 <= a < b < merged@.len() implies merged@[a].index
                    < merged@[b].index by {
                    if a < p && b == p {
                        assert(merged@[a] == old_m[a]);
                    } else if a == p && b > p {
                        assert(merged@[b] == old_m[b - 1]);
                        assert(old_m[b - 1].index >= k);
                        assert(old_m[b - 1].index != k) by {
                            if b - 1 == p {
                            } else {
                                assert(old_m[p as int].index < old_m[b - 1].index);
                            }
                        }
                    } else if a < p && b > p {
                        assert(merged@[a] == old_m[a]);
                        assert(merged@[b] == old_m[b - 1]);
                    } else if a > p {
                        assert(merged@[a] == old_m[a - 1]);
                        assert(merged@[b] == old_m[b - 1]);
                    } else {
                        assert(merged@[a] == old_m[a]);
                        assert(merged@[b] == old_m[b]);
                    }
                }
                assert forall|q: int| 0 <= q < merged@.len() implies {
                    &&& (#[trigger] merged@[q]).id@ == merged_id(cn, merged@[q].index)
                    &&& merged@[q].name@ == merged_name(cn, merged@[q].index)
                    &&& merged@[q].arguments@ == merged_arguments(cn, merged@[q].index)
                } by {
                    if q < p {
                        assert(merged@[q] == old_m[q]);
                        assert(old_m[q].index != k);
                    } else if q > p {
                        assert(merged@[q] == old_m[q - 1]);
                        assert(old_m[q - 1].index != k) by {
                            if old_m[q - 1].index == k {
                                assert(has_index(cj, k));
                            }
                        }
                    }
                }
                assert forall|x: u32| has_index(cn, x) implies exists|q: int|
                    0 <= q < merged@.len() && (#[trigger] merged@[q]).index == x by {
                    if x == k {
                        assert(merged@[p as int].index == k);
                    } else {
                        let q = choose|q: int| 0 <= q < old_m.len() && (#[trigger] old_m[q]).index == x;
                        if q < p {
                            assert(merged@[q] == old_m[q]);
                        } else {
                            assert(merged@[q + 1] == old_m[q]);
                        }
                    }
                }
                assert forall|x: u32| (exists|q: int|
                    0 <= q < merged@.len() && (#[trigger] merged@[q]).index == x) implies has_index(cn, x) by {
                    let q = choose|q: int| 0 <= q < merged@.len() && (#[trigger] merged@[q]).index == x;
                    if q < p {
                        assert(merged@[q] == old_m[q]);
                    } else if q > p {
                        assert(merged@[q] == old_m[q - 1]);
                    }
                }
            }
        }
        j = j + 1;
    }
    assert(chunks@.take(chunks@.len() as int) =~= chunks@);
    merged
}


/// The number of model rounds after which a reply that still asks for tools
/// is abandoned.
pub const MAX_TOOL_ITERATIONS: usize = 10;

/// A reply being assembled from the stream. `U` is the usage report of the
/// provider.
#[derive(Debug)]
pub struct AgentResponse<U> {
    pub content: String,
    pub finish_reason: Option<FinishReason>,
    pub usage: Option<U>,
    pub tool_calls: Vec<ToolCallChunk>,
}

impl<U> AgentResponse<U> {
    /// An empty reply: no text, no finish reason, no usage, no tool call.
    pub fn empty() -> (r: Self)
        ensures
            r.content@ == Seq::<char>::empty(),
            r.finish_reason is None,
            r.usage is None,
            r.tool_calls@.len() == 0,
    {
        AgentResponse { content: String::new(), finish_reason: None, usage: None, tool_calls: Vec::new() }
    }
}

/// The delta of one choice in a stream chunk.
#[derive(Debug, Clone)]
pub struct StreamChoice {
    pub content: Option<String>,
    pub tool_calls: Option<Vec<ToolCallChunk>>,
    pub finish_reason: Option<FinishReason>,
}

/// One chunk of the stream.
#[derive(Debug)]
pub struct StreamChunk<U> {
    pub usage: Option<U>,
    pub choices: Vec<StreamChoice>,
}

/// What a chunk tells the listener: a new piece of text, or that the usage
/// report (now in the response) arrived.
#[derive(Debug, Clone, PartialEq, Eq)]
pub enum AgentStreamUpdate {
    Token(String),
    Usage,
}

/// The text pieces of the choices, joined.
pub open spec fn choice_text(cs: Seq<StreamChoice>) -> Seq<char>
    decreases cs.len(),
{
    if cs.len() == 0 {
        Seq::empty()
    } else {
        choice_text(cs.drop_last()) + match cs.last().content {
            Some(t) => t@,
            None => Seq::empty(),
        }
    }
}

/// The tool-call fragments of the choices, in order.
pub open spec fn choice_tool_calls(cs: Seq<StreamChoice>) -> Seq<ToolCallChunk>
    decreases cs.len(),
{
    if cs.len() == 0 {
        Seq::empty()
    } else {
        choice_tool_calls(cs.drop_last()) + match cs.last().tool_calls {
            Some(t) => t@,
            None => Seq::empty(),
        }
    }
}

/// The finish reason after the choices: the last one they give, else `prev`.
pub open spec fn choice_finish(cs: Seq<StreamChoice>, prev: Option<FinishReason>) -> Option<FinishReason>
    decreases cs.len(),
{
    if cs.len() == 0 {
        prev
    } else if cs.last().finish_reason is Some {
        cs.last().finish_reason
    } else {
        choice_finish(cs.drop_last(), prev)
    }
}

/// One `Token` update per choice that carries text, in order.
pub open spec fn choice_tokens(cs: Seq<StreamChoice>) -> Seq<AgentStreamUpdate>
    decreases cs.len(),
{
    if cs.len() == 0 {
        Seq::empty()
    } else {
        choice_tokens(cs.drop_last()) + match cs.last().content {
            Some(t) => seq![AgentStreamUpdate::Token(t)],
            None => Seq::empty(),
        }
    }
}

fn clone_chunks(v: &Vec<ToolCallChunk>) -> (r: Vec<ToolCallChunk>)
    ensures
        r@ == v@,
{
    let mut r: Vec<ToolCallChunk> = Vec::new();
    let mut i: usize = 0;
    while i < v.len()
        invariant
            i <= v@.len(),
            r@ == v@.take(i as int),
        decreases v@.len() - i,
    {
        let c = &v[i];
        let copy = ToolCallChunk {
            index: c.index,
            id: match &c.id {
                Some(t) => Some(t.clone()),
                None => None,
            },
            name: match &c.name {
                Some(t) => Some(t.clone()),
                None => None,
            },
            arguments: match &c.arguments {
                Some(t) => Some(t.clone()),
                None => None,
            },
        };
        r.push(copy);
        i = i + 1;
        assert(r@ =~= v@.take(i as int));
    }
    assert(v@.take(v@.len() as int) =~= v@);
    r
}

/// Folds one stream chunk into the response: a usage report replaces the
/// previous one, text pieces are appended, tool-call fragments are collected,
/// and the last finish reason given is kept. Returns what to tell the
/// listener: the usage first, when there is one, then each text piece.
pub fn apply_stream_chunk<U>(response: &mut AgentResponse<U>, chunk: StreamChunk<U>) -> (r: Vec<
    AgentStreamUpdate,
>)
    ensures
        final(response).usage == (match chunk.usage {
            Some(u) => Some(u),
            None => old(response).usage,
        }),
        final(response).content@ == old(response).content@ + choice_text(chunk.choices@),
        final(response).tool_calls@ == old(response).tool_calls@ + choice_tool_calls(
            chunk.choices@,
        ),
        final(response).finish_reason == choice_finish(
            chunk.choices@,
            old(response).finish_reason,
        ),
        r@ == (if chunk.usage is Some {
            seq![AgentStreamUpdate::Usage]
        } else {
            Seq::empty()
        }) + choice_tokens(chunk.choices@),
{
    let StreamChunk { usage, choices } = chunk;
    let mut updates: Vec<AgentStreamUpdate> = Vec::new();
    let has_usage = usage.is_some();
    if has_usage {
        response.usage = usage;
        updates.push(AgentStreamUpdate::Usage);
    }
    let ghost head = updates@;
    let ghost content0 = response.content@;
    let ghost calls0 = response.tool_calls@;
    let ghost finish0 = response.finish_reason;
    let mut i: usize = 0;
    while i < choices.len()
        invariant
            i <= choices@.len(),
            response.usage == old(response).usage || has_usage,
            response.usage == (if has_usage { usage } else { old(response).usage }),
            response.content@ == content0 + choice_text(choices@.take(i as int)),
            response.tool_calls@ == calls0 + choice_tool_calls(choices@.take(i as int)),
            response.finish_reason == choice_finish(choices@.take(i as int), finish0),
            updates@ == head + choice_tokens(choices@.take(i as int)),
        decreases choices@.len() - i,
    {
        let choice = &choices[i];
        let ghost prefix = choices@.take(i as int);
        let ghost next = choices@.take(i + 1);
        assert(next.drop_last() =~= prefix);
        match &choice.content {
            Some(token) => {
                response.content = concat_str(response.content.as_str(), token.as_str());
                updates.push(AgentStreamUpdate::Token(token.clone()));
            },
            None => {},
        }
        match &choice.tool_calls {
            Some(calls) => {
                let mut more = clone_chunks(calls);
                response.tool_calls.append(&mut more);
            },
            None => {},
        }
        if choice.finish_reason.is_some() {
            response.finish_reason = choice.finish_reason;
        }
        i = i + 1;
        proof {
            assert(response.content@ =~= content0 + choice_text(next));
            assert(response.tool_calls@ =~= calls0 + choice_tool_calls(next));
            assert(updates@ =~= head + choice_tokens(next));
        }
    }
    assert(choices@.take(choices@.len() as int) =~= choices@);
    updates
}

/// What follows a finished model round.
#[derive(Debug)]
pub enum AgentStep<U> {
    /// The model asked for tools: run `calls`, answer each, and start another
    /// round, unless `then_stop`, in which case the reply is empty.
    RunTools { calls: Vec<ToolCall>, then_stop: bool },
    /// The reply is final.
    Finish(AgentResponse<U>),
}

/// Decides what follows round `round` (counted from 0): a reply that stopped
/// for tool calls has its fragments merged and the tools run; any other reply
/// is final. The round that reaches `MAX_TOOL_ITERATIONS` is the last.
pub fn agent_round_step<U>(round: usize, response: AgentResponse<U>) -> (r: AgentStep<U>)
    requires
        round < MAX_TOOL_ITERATIONS,
    ensures
        response.finish_reason == Some(FinishReason::ToolCalls) ==> (r matches AgentStep::RunTools {
            calls,
            then_stop,
        } && merged_from(response.tool_calls@, calls@) && then_stop == (round + 1
            == MAX_TOOL_ITERATIONS)),
        response.finish_reason != Some(FinishReason::ToolCalls) ==> (r matches AgentStep::Finish(
            f,
        ) && f == response),
{
    match response.finish_reason {
        Some(FinishReason::ToolCalls) => {
            let calls = merge_tool_call_chunks(response.tool_calls.as_slice());
            AgentStep::RunTools { calls, then_stop: round + 1 == MAX_TOOL_ITERATIONS }
        },
        _ => AgentStep::Finish(response),
    }
}

/// The text handed back to the model for a tool's outcome: its output, or
/// `Error: ` and the error.
pub fn tool_result_content(result: &Result<String, String>) -> (r: String)
    ensures
        r@ == (match result {
            Ok(o) => o@,
            Err(e) => "Error: "@ + e@,
        }),
{
    match result {
        Ok(o) => o.clone(),
        Err(e) => concat_str("Error: ", e.as_str()),
    }
}

/// The position of the first tool named `name`.
pub fn find_tool(names: &[String], name: &str) -> (r: Option<usize>)
    ensures
        match r {
            Some(i) => i < names@.len() && names@[i as int]@ == name@ && forall|j: int|
                0 <= j < i ==> (#[trigger] names@[j])@ != name@,
            None => forall|j: int| 0 <= j < names@.len() ==> (#[trigger] names@[j])@ != name@,
        },
{
    let wanted = str_chars(name);
    let mut i: usize = 0;
    while i < names.len()
        invariant
            i <= names@.len(),
            wanted@ == name@,
            forall|j: int| 0 <= j < i ==> (#[trigger] names@[j])@ != name@,
        decreases names@.len() - i,
    {
        let candidate = str_chars(names[i].as_str());
        if chars_eq(candidate.as_slice(), wanted.as_slice()) {
            return Some(i);
        }
        i = i + 1;
    }
    None
}

/// The error text for a tool that no agent tool answers to.
pub fn unknown_tool_message(name: &str) -> (r: String)
    ensures
        r@ == "unknown tool: "@ + name@,
{
    concat_str("unknown tool: ", name)
}


/// A message of a chat-completion request.
#[derive(Debug, Clone)]
pub enum ChatRequestMessage {
    System(String),
    User(String),
    Assistant(String),
    /// The model's request to run tools, echoed back before their answers.
    AssistantToolCalls(Vec<ToolCall>),
    /// The answer of the tool call `tool_call_id`.
    Tool { tool_call_id: String, content: String },
}

/// A tool as offered to the model.
#[derive(Debug, Clone)]
pub struct ToolSpec {
    pub name: String,
    pub description: String,
    pub parameters_json: String,
}

/// A chat-completion request.
#[derive(Debug)]
pub struct ChatRequest {
    pub model: String,
    pub messages: Vec<ChatRequestMessage>,
    /// `None` when the agent has no tool.
    pub tools: Option<Vec<ToolSpec>>,
    /// Whether the reply is streamed; a streamed reply also reports usage.
    pub stream: bool,
}

/// The request of one round: the system instruction first, then the
/// conversation; the tools when there are any; streaming as asked.
pub fn build_request(
    system_instruction: &str,
    model: &str,
    messages: Vec<ChatRequestMessage>,
    tools: Vec<ToolSpec>,
    stream: bool,
) -> (r: ChatRequest)
    ensures
        r.model@ == model@,
        r.messages@.len() == messages@.len() + 1,
        r.messages@[0] matches ChatRequestMessage::System(s) && s@ == system_instruction@,
        r.messages@.drop_first() == messages@,
        tools@.len() == 0 ==> r.tools is None,
        tools@.len() > 0 ==> r.tools == Some(tools),
        r.stream == stream,
{
    let mut request_messages: Vec<ChatRequestMessage> = Vec::new();
    let system = String::from_str(system_instruction);
    request_messages.push(ChatRequestMessage::System(system));
    let mut rest = messages;
    let ghost m0 = rest@;
    request_messages.append(&mut rest);
    assert(request_messages@.drop_first() =~= m0);
    let tools = if tools.len() == 0 {
        None
    } else {
        Some(tools)
    };
    ChatRequest { model: String::from_str(model), messages: request_messages, tools, stream }
}

} // verus!
