//! The live transcript of a chat: the user's message, the reply streaming
//! into a placeholder, tool calls announced and completed while it streams,
//! and what is kept when the stream ends or fails.

use vstd::prelude::*;

use super::chat::{
    fresh_message, tool_call_completed, tool_call_message, ChatMessage, ChatMessageKind,
};
use crate::backend::EMPTY_AGENT_RESPONSE;
use crate::text::{concat_str, str_chars, trim_chars, trim_seq};

verus! {

/// The messages shown, the one a reply is streaming into, and whether a
/// reply is awaited.
#[derive(Debug)]
pub struct Transcript {
    pub messages: Vec<ChatMessage>,
    pub streaming_assistant_index: Option<usize>,
    pub is_waiting_for_agent: bool,
}

/// Message `i` exists and is the (blank) placeholder of a reply that follows
/// a tool message.
pub open spec fn streaming_after_tool(t: Transcript) -> bool {
    match t.streaming_assistant_index {
        Some(i) => i < t.messages@.len() && t.messages@[i as int].kind == ChatMessageKind::Assistant
            && trim_seq(t.messages@[i as int].body@).len() == 0 && i > 0 && t.messages@[i - 1].kind
            == ChatMessageKind::Tool,
        None => false,
    }
}

/// The position of the streaming placeholder, when it is a message.
pub open spec fn placeholder_index(t: Transcript) -> Option<int> {
    match t.streaming_assistant_index {
        Some(i) => if i < t.messages@.len() {
            Some(i as int)
        } else {
            None
        },
        None => None,
    }
}

/// The reply body kept for a finished reply.
pub open spec fn completed_body(full_text: Seq<char>) -> Seq<char> {
    if trim_seq(full_text).len() == 0 {
        EMPTY_AGENT_RESPONSE@
    } else {
        full_text
    }
}

/// The messages once the streaming placeholder, if it is an assistant
/// message, is taken out.
pub open spec fn without_placeholder(t: Transcript) -> Seq<ChatMessage> {
    match t.streaming_assistant_index {
        Some(i) => if i < t.messages@.len() && t.messages@[i as int].kind == ChatMessageKind::Assistant {
            t.messages@.remove(i as int)
        } else {
            t.messages@
        },
        None => t.messages@,
    }
}

/// `new` is `old` after `on_token`.
pub open spec fn token_post(old: Transcript, new: Transcript, token: Seq<char>) -> bool {
    &&& new.messages@.len() == old.messages@.len()
    &&& new.streaming_assistant_index == old.streaming_assistant_index
    &&& new.is_waiting_for_agent == old.is_waiting_for_agent
    &&& (forall|j: int|
                0 <= j < old.messages@.len() && old.streaming_assistant_index != Some(
                    j as usize,
                ) ==> #[trigger] new.messages@[j] == old.messages@[j])
    &&& (match old.streaming_assistant_index {
                Some(i) => i < old.messages@.len() ==> new.messages@[i as int].body@
                    =~= old.messages@[i as int].body@ + token && new.messages@[i as int].kind
                    == old.messages@[i as int].kind,
                None => true,
            })
}

/// `new` is `old` after `on_completed`.
pub open spec fn completed_post(old: Transcript, new: Transcript, full_text: Seq<char>, r: Option<String>) -> bool {
    &&& !new.is_waiting_for_agent
    &&& new.streaming_assistant_index is None
    &&& (trim_seq(full_text).len() == 0 && streaming_after_tool(old) ==> r is None
                && new.messages@ =~= without_placeholder(old))
    &&& (!(trim_seq(full_text).len() == 0 && streaming_after_tool(old)) ==> {
                &&& r matches Some(body) && body@ =~= completed_body(full_text)
                &&& match placeholder_index(old) {
                    Some(i) => new.messages@.len() == old.messages@.len()
                        && new.messages@[i].body@ =~= completed_body(full_text)
                        && new.messages@[i].kind == old.messages@[i].kind
                        && forall|j: int| 0 <= j < old.messages@.len() && j != i
                            ==> #[trigger] new.messages@[j] == old.messages@[j],
                    None => new.messages@.len() == old.messages@.len() + 1
                        && new.messages@.drop_last() =~= old.messages@
                        && new.messages@.last().kind == ChatMessageKind::Assistant
                        && new.messages@.last().body@ =~= completed_body(full_text),
                }
            })
}

/// `new` is `old` after `on_failed`.
pub open spec fn failed_post(old: Transcript, new: Transcript, error: Seq<char>) -> bool {
    &&& !new.is_waiting_for_agent
    &&& new.streaming_assistant_index is None
    &&& new.messages@.len() == without_placeholder(old).len() + 1
    &&& new.messages@.drop_last() =~= without_placeholder(old)
    &&& fresh_message(
        new.messages@.last(),
        ChatMessageKind::System,
        "System"@,
        "Agent request failed: "@ + error,
    )
}

/// `new` is `old` after `on_tool_started`.
pub open spec fn tool_started_post(old: Transcript, new: Transcript, tool_name: Seq<char>, arguments: Seq<char>) -> bool {
    &&& new.is_waiting_for_agent == old.is_waiting_for_agent
    &&& (old.streaming_assistant_index is None ==> new.messages@ =~= old.messages@
                && new.streaming_assistant_index is None)
    &&& (old.streaming_assistant_index matches Some(i) ==> {
                &&& new.messages@.len() == old.messages@.len() + 1
                &&& new.streaming_assistant_index == Some(old.messages@.len() as usize)
                &&& new.messages@.last().kind == ChatMessageKind::Assistant
                &&& new.messages@.last().body@ =~= Seq::<char>::empty()
                &&& i < old.messages@.len() ==> tool_call_message(
                    new.messages@[i as int],
                    tool_name,
                    arguments,
                )
                &&& forall|j: int|
                    0 <= j < old.messages@.len() && j != i ==> #[trigger] new.messages@[j] == old.messages@[j]
            })
}

/// `new` is `old` after `on_tool_completed`.
pub open spec fn tool_completed_post(old: Transcript, new: Transcript, tool_name: Seq<char>, result: String) -> bool {
    &&& new.messages@.len() == old.messages@.len()
    &&& new.streaming_assistant_index == old.streaming_assistant_index
    &&& new.is_waiting_for_agent == old.is_waiting_for_agent
    &&& (forall|j: int|
                0 <= j < old.messages@.len() && !(old.streaming_assistant_index matches Some(i) && j == i - 1) ==> #[trigger] new.messages@[j] == old.messages@[j])
    &&& (match old.streaming_assistant_index {
                Some(i) => 0 < i <= old.messages@.len() && old.messages@[i - 1].kind
                    == ChatMessageKind::Tool ==> tool_call_completed(
                    old.messages@[i - 1],
                    new.messages@[i - 1],
                    tool_name,
                    result,
                ),
                None => true,
            })
}

/// `new` is `old` after `toggle_tool_call_detail`.
pub open spec fn toggled_post(old: Transcript, new: Transcript, index: usize) -> bool {
    &&& new.messages@.len() == old.messages@.len()
    &&& new.streaming_assistant_index == old.streaming_assistant_index
    &&& (forall|j: int|
                0 <= j < old.messages@.len() && j != index ==> #[trigger] new.messages@[j]
                    == old.messages@[j])
    &&& (index < old.messages@.len() ==> new.messages@[index as int] == (ChatMessage {
        is_tool_detail_open: !old.messages@[index as int].is_tool_detail_open,
        ..old.messages@[index as int]
    }))
}

impl Transcript {
    /// No message, nothing streaming, nothing awaited.
    pub fn new() -> (r: Self)
        ensures
            r.messages@.len() == 0,
            r.streaming_assistant_index is None,
            !r.is_waiting_for_agent,
    {
        Transcript { messages: Vec::new(), streaming_assistant_index: None, is_waiting_for_agent: false }
    }

    /// Whether the reply placeholder is blank and follows a tool message.
    pub fn is_streaming_after_tool_message(&self) -> (r: bool)
        ensures
            r == streaming_after_tool(*self),
    {
        match self.streaming_assistant_index {
            Some(i) => {
                if i >= self.messages.len() {
                    return false;
                }
                let m = &self.messages[i];
                match m.kind {
                    ChatMessageKind::Assistant => {},
                    _ => return false,
                }
                let cs = str_chars(m.body.as_str());
                if trim_chars(cs.as_slice()).len() != 0 {
                    return false;
                }
                if i == 0 {
                    return false;
                }
                match self.messages[i - 1].kind {
                    ChatMessageKind::Tool => true,
                    _ => false,
                }
            },
            None => false,
        }
    }

    /// Stops streaming and takes the placeholder out when it is an
    /// assistant message.
    pub fn remove_streaming_assistant_message(&mut self)
        ensures
            final(self).messages@ == without_placeholder(*old(self)),
            final(self).streaming_assistant_index is None,
            final(self).is_waiting_for_agent == old(self).is_waiting_for_agent,
    {
        match self.streaming_assistant_index {
            Some(i) => {
                self.streaming_assistant_index = None;
                if i < self.messages.len() {
                    let is_assistant = match self.messages[i].kind {
                        ChatMessageKind::Assistant => true,
                        _ => false,
                    };
                    if is_assistant {
                        let _removed = self.messages.remove(i);
                    }
                }
            },
            None => {},
        }
    }

    /// A user message is sent: it is shown, followed by a blank reply
    /// placeholder that the reply streams into.
    pub fn start_reply(&mut self, user_message: &str)
        ensures
            final(self).messages@.len() == old(self).messages@.len() + 2,
            final(self).messages@.take(old(self).messages@.len() as int) == old(self).messages@,
            final(self).messages@[old(self).messages@.len() as int].kind == ChatMessageKind::User,
            final(self).messages@[old(self).messages@.len() as int].body@ == user_message@,
            final(self).messages@[old(self).messages@.len() + 1int].kind == ChatMessageKind::Assistant,
            final(self).messages@[old(self).messages@.len() + 1int].body@ == Seq::<char>::empty(),
            final(self).streaming_assistant_index == Some((old(self).messages@.len() + 1) as usize),
            final(self).is_waiting_for_agent,
    {
        self.messages.push(ChatMessage::new(ChatMessageKind::User, "You", user_message));
        self.messages.push(ChatMessage::new(ChatMessageKind::Assistant, "Assistant", ""));
        proof {
            reveal_strlit("");
        }
        self.streaming_assistant_index = Some(self.messages.len() - 1);
        self.is_waiting_for_agent = true;
        assert(self.messages@.take(old(self).messages@.len() as int) =~= old(self).messages@);
    }

    /// A streamed piece of the reply is appended to the placeholder.
    pub fn on_token(&mut self, token: &str)
        ensures
            token_post(*old(self), *final(self), token@),
    {
        match self.streaming_assistant_index {
            Some(i) => {
                if i < self.messages.len() {
                    self.messages[i].append_body(token);
                }
            },
            None => {},
        }
    }

    /// The reply finished with `full_text`. After tool calls, a blank reply
    /// just drops the placeholder and nothing is stored. Otherwise the
    /// placeholder (or a new assistant message, when there is none) shows the
    /// text, or the empty-reply notice when the text is blank; that body is
    /// returned, to be stored.
    pub fn on_completed(&mut self, full_text: &str) -> (r: Option<String>)
        ensures
            completed_post(*old(self), *final(self), full_text@, r),
    {
        self.is_waiting_for_agent = false;
        let cs = str_chars(full_text);
        let blank = trim_chars(cs.as_slice()).len() == 0;
        if blank && self.is_streaming_after_tool_message() {
            self.remove_streaming_assistant_message();
            return None;
        }
        let body = if blank {
            String::from_str(EMPTY_AGENT_RESPONSE)
        } else {
            String::from_str(full_text)
        };
        let mut placed = false;
        match self.streaming_assistant_index {
            Some(i) => {
                if i < self.messages.len() {
                    self.messages[i].set_body(body.as_str());
                    placed = true;
                }
            },
            None => {},
        }
        if !placed {
            self.messages.push(ChatMessage::new(ChatMessageKind::Assistant, "Assistant", body.as_str()));
        }
        self.streaming_assistant_index = None;
        Some(body)
    }

    /// The reply failed: the placeholder goes and a system message tells
    /// why.
    pub fn on_failed(&mut self, error: &str)
        ensures
            failed_post(*old(self), *final(self), error@),
    {
        self.is_waiting_for_agent = false;
        self.remove_streaming_assistant_message();
        let text = concat_str("Agent request failed: ", error);
        self.messages.push(ChatMessage::new(ChatMessageKind::System, "System", text.as_str()));
        assert(self.messages@.drop_last() =~= without_placeholder(*old(self)));
    }

    /// A tool starts while the reply streams: the placeholder becomes the
    /// tool's message and a new placeholder follows it.
    pub fn on_tool_started(&mut self, tool_name: &str, arguments: &str)
        ensures
            tool_started_post(*old(self), *final(self), tool_name@, arguments@),
    {
        match self.streaming_assistant_index {
            Some(i) => {
                if i < self.messages.len() {
                    let started = ChatMessage::tool_call_started(tool_name, arguments);
                    self.messages.set(i, started);
                }
                self.messages.push(ChatMessage::new(ChatMessageKind::Assistant, "Assistant", ""));
                proof {
                    reveal_strlit("");
                }
                self.streaming_assistant_index = Some(self.messages.len() - 1);
            },
            None => {},
        }
    }

    /// A tool finished: the tool message just before the placeholder takes
    /// the result.
    pub fn on_tool_completed(&mut self, tool_name: &str, result: String)
        ensures
            tool_completed_post(*old(self), *final(self), tool_name@, result),
    {
        match self.streaming_assistant_index {
            Some(i) => {
                if i > 0 && i - 1 < self.messages.len() {
                    let is_tool = match self.messages[i - 1].kind {
                        ChatMessageKind::Tool => true,
                        _ => false,
                    };
                    if is_tool {
                        self.messages[i - 1].complete_tool_call(tool_name, result);
                    }
                }
            },
            None => {},
        }
    }

    /// Shows or hides the tool detail of message `index`.
    pub fn toggle_tool_call_detail(&mut self, index: usize)
        ensures
            toggled_post(*old(self), *final(self), index),
    {
        if index < self.messages.len() {
            let open = self.messages[index].is_tool_detail_open;
            self.messages[index].is_tool_detail_open = !open;
        }
    }
}

} // verus!
