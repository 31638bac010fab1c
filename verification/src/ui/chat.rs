//! The chat transcript model: icon lines, message blocks, the messages
//! shown for stored records and tool calls, and toasts.

use vstd::prelude::*;

use crate::backend::{display_tool_name, display_tool_name_spec};
use crate::storage::chat_record::{
    MessageRecord, MESSAGE_ROLE_ASSISTANT, MESSAGE_ROLE_SYSTEM, MESSAGE_ROLE_TOOL,
    MESSAGE_ROLE_USER,
};
use crate::text::{
    lemma_lines_text_front, lines_text, lines_text_reads_back, plain_line,
    ascii_lower_seq, ascii_lowercase_chars, chars_eq_str, dec_chars, dec_seq, find_char,
    first_index_of, lemma_first_index_of, lines_seq, push_all, push_str_chars, starts_with_str,
    str_chars, str_lines, string_from_chars, sub_chars, trim_chars, trim_seq, trim_start_chars,
    trim_start_seq,
};

verus! {

/// The icons a reply line can start with.
#[derive(Debug, Clone, Copy, PartialEq, Eq, Structural)]
pub enum ChatIcon {
    Alert,
    Check,
    Code,
    Info,
    Link,
    Rocket,
    Star,
    Tools,
    X,
    Zap,
}

/// The icon a (lower-case, trimmed) name stands for.
pub open spec fn icon_named(n: Seq<char>) -> Option<ChatIcon> {
    if n == "alert"@ || n == "error"@ || n == "warning"@ {
        Some(ChatIcon::Alert)
    } else if n == "check"@ || n == "success"@ || n == "done"@ {
        Some(ChatIcon::Check)
    } else if n == "code"@ || n == "file_code"@ {
        Some(ChatIcon::Code)
    } else if n == "info"@ || n == "note"@ {
        Some(ChatIcon::Info)
    } else if n == "link"@ || n == "external"@ || n == "link_external"@ {
        Some(ChatIcon::Link)
    } else if n == "rocket"@ {
        Some(ChatIcon::Rocket)
    } else if n == "star"@ {
        Some(ChatIcon::Star)
    } else if n == "tool"@ || n == "tools"@ {
        Some(ChatIcon::Tools)
    } else if n == "x"@ || n == "close"@ || n == "failed"@ {
        Some(ChatIcon::X)
    } else if n == "zap"@ || n == "bolt"@ {
        Some(ChatIcon::Zap)
    } else {
        None
    }
}

/// The icon a name stands for, ignoring surrounding white space and ASCII
/// case.
pub open spec fn icon_from_name_spec(name: Seq<char>) -> Option<ChatIcon> {
    icon_named(ascii_lower_seq(trim_seq(name)))
}

fn icon_from_chars(name: &[char]) -> (r: Option<ChatIcon>)
    ensures
        r == icon_from_name_spec(name@),
{
    let t = trim_chars(name);
    let n = ascii_lowercase_chars(t.as_slice());
    let n = n.as_slice();
    if chars_eq_str(n, "alert") || chars_eq_str(n, "error") || chars_eq_str(n, "warning") {
        Some(ChatIcon::Alert)
    } else if chars_eq_str(n, "check") || chars_eq_str(n, "success") || chars_eq_str(n, "done") {
        Some(ChatIcon::Check)
    } else if chars_eq_str(n, "code") || chars_eq_str(n, "file_code") {
        Some(ChatIcon::Code)
    } else if chars_eq_str(n, "info") || chars_eq_str(n, "note") {
        Some(ChatIcon::Info)
    } else if chars_eq_str(n, "link") || chars_eq_str(n, "external") || chars_eq_str(
        n,
        "link_external",
    ) {
        Some(ChatIcon::Link)
    } else if chars_eq_str(n, "rocket") {
        Some(ChatIcon::Rocket)
    } else if chars_eq_str(n, "star") {
        Some(ChatIcon::Star)
    } else if chars_eq_str(n, "tool") || chars_eq_str(n, "tools") {
        Some(ChatIcon::Tools)
    } else if chars_eq_str(n, "x") || chars_eq_str(n, "close") || chars_eq_str(n, "failed") {
        Some(ChatIcon::X)
    } else if chars_eq_str(n, "zap") || chars_eq_str(n, "bolt") {
        Some(ChatIcon::Zap)
    } else {
        None
    }
}

/// The icon a name stands for.
pub fn chat_icon_from_name(name: &str) -> (r: Option<ChatIcon>)
    ensures
        r == icon_from_name_spec(name@),
{
    let cs = str_chars(name);
    icon_from_chars(cs.as_slice())
}

/// The icon and the rest of a line between `open` and the first `close`
/// after it, when the name there is an icon.
pub open spec fn icon_after(rest: Seq<char>, close: char) -> Option<(ChatIcon, Seq<char>)> {
    match first_index_of(rest, close) {
        Some(k) => match icon_from_name_spec(rest.take(k)) {
            Some(icon) => Some((icon, rest.skip(k + 1))),
            None => None,
        },
        None => None,
    }
}

/// A line that starts (after white space) with `[icon:name]` or `:name:`,
/// where `name` is an icon: the icon, and the text after the marker.
pub open spec fn icon_line_spec(line: Seq<char>) -> Option<(ChatIcon, Seq<char>)> {
    let t = trim_start_seq(line);
    if t.len() >= 6 && t.take(6) == "[icon:"@ {
        icon_after(t.skip(6), ']')
    } else if t.len() >= 1 && t[0] == ':' {
        icon_after(t.skip(1), ':')
    } else {
        None
    }
}

fn icon_after_chars(rest: &[char], close: char) -> (r: Option<(ChatIcon, Vec<char>)>)
    ensures
        match r {
            Some((icon, after)) => icon_after(rest@, close) == Some((icon, after@)),
            None => icon_after(rest@, close) is None,
        },
{
    match find_char(rest, close) {
        Some(k) => {
            proof {
                lemma_first_index_of(rest@, close, k as int);
            }
            let name = sub_chars(rest, 0, k);
            assert(name@ =~= rest@.take(k as int));
            match icon_from_chars(name.as_slice()) {
                Some(icon) => {
                    let n = rest.len();
                    assert(k < n);
                    let after = sub_chars(rest, k + 1, n);
                    assert(after@ =~= rest@.skip(k + 1));
                    Some((icon, after))
                },
                None => None,
            }
        },
        None => {
            proof {
                lemma_first_index_of(rest@, close, rest@.len() as int);
            }
            None
        },
    }
}

fn parse_icon_chars(line: &[char]) -> (r: Option<(ChatIcon, Vec<char>)>)
    ensures
        match r {
            Some((icon, after)) => icon_line_spec(line@) == Some((icon, after@)),
            None => icon_line_spec(line@) is None,
        },
{
    let t = trim_start_chars(line);
    if starts_with_str(t.as_slice(), "[icon:") {
        proof {
            reveal_strlit("[icon:");
        }
        let rest = sub_chars(t.as_slice(), 6, t.len());
        assert(rest@ =~= t@.skip(6));
        return icon_after_chars(rest.as_slice(), ']');
    }
    proof {
        reveal_strlit("[icon:");
    }
    if t.len() >= 1 && t[0] == ':' {
        let rest = sub_chars(t.as_slice(), 1, t.len());
        assert(rest@ =~= t@.skip(1));
        icon_after_chars(rest.as_slice(), ':')
    } else {
        None
    }
}

/// The icon a line starts with, and the text after the icon marker.
pub fn parse_icon_line(line: &str) -> (r: Option<(ChatIcon, String)>)
    ensures
        match r {
            Some((icon, after)) => icon_line_spec(line@) == Some((icon, after@)),
            None => icon_line_spec(line@) is None,
        },
{
    let cs = str_chars(line);
    match parse_icon_chars(cs.as_slice()) {
        Some((icon, after)) => Some((icon, string_from_chars(after.as_slice()))),
        None => None,
    }
}

/// A block of a message body: Markdown prose, or a line led by an icon.
#[derive(Debug, Clone)]
pub enum ChatMessageBlock {
    Markdown { source: String },
    Icon { icon: ChatIcon, source: String },
}

/// The content of a block.
pub enum BlockView {
    Markdown(Seq<char>),
    Icon(ChatIcon, Seq<char>),
}

pub open spec fn block_view(b: ChatMessageBlock) -> BlockView {
    match b {
        ChatMessageBlock::Markdown { source } => BlockView::Markdown(source@),
        ChatMessageBlock::Icon { icon, source } => BlockView::Icon(icon, source@),
    }
}

pub open spec fn blocks_view(bs: Seq<ChatMessageBlock>) -> Seq<BlockView> {
    Seq::new(bs.len(), |i: int| block_view(bs[i]))
}

/// The prose gathered so far as a block, unless it is blank.
pub open spec fn flush_chunk(chunk: Seq<char>) -> Seq<BlockView> {
    if trim_seq(chunk).len() == 0 {
        Seq::empty()
    } else {
        seq![BlockView::Markdown(trim_seq(chunk))]
    }
}

/// The blocks of the lines from `i` on, with `chunk` the prose gathered so
/// far: an icon line closes the prose before it and becomes a block of its
/// own; other lines gather, each followed by a line feed.
pub open spec fn scan_blocks(ls: Seq<Seq<char>>, i: int, chunk: Seq<char>) -> Seq<BlockView>
    decreases ls.len() - i,
{
    if i < 0 || i >= ls.len() {
        flush_chunk(chunk)
    } else {
        match icon_line_spec(ls[i]) {
            Some((icon, rest)) => flush_chunk(chunk) + seq![BlockView::Icon(icon, trim_seq(rest))]
                + scan_blocks(ls, i + 1, Seq::empty()),
            None => scan_blocks(ls, i + 1, chunk + ls[i] + seq!['\n']),
        }
    }
}

/// The blocks of a message body; the whole body as one Markdown block when
/// no block came out.
pub open spec fn chat_blocks_spec(body: Seq<char>) -> Seq<BlockView> {
    let bs = scan_blocks(lines_seq(body), 0, Seq::empty());
    if bs.len() == 0 {
        seq![BlockView::Markdown(body)]
    } else {
        bs
    }
}

proof fn lemma_scan_prose(ls: Seq<Seq<char>>, i: int, chunk: Seq<char>)
    requires
        0 <= i <= ls.len(),
        forall|k: int| i <= k < ls.len() ==> icon_line_spec(#[trigger] ls[k]) is None,
    ensures
        scan_blocks(ls, i, chunk) == flush_chunk(chunk + lines_text(ls.skip(i))),
    decreases ls.len() - i,
{
    if i == ls.len() {
        assert(ls.skip(i).len() == 0);
        assert(chunk + lines_text(ls.skip(i)) =~= chunk);
    } else {
        lemma_scan_prose(ls, i + 1, chunk + ls[i] + seq!['\n']);
        lemma_lines_text_front(ls.skip(i));
        assert(ls.skip(i)[0] == ls[i]);
        assert(ls.skip(i).drop_first() =~= ls.skip(i + 1));
        assert(chunk + ls[i] + seq!['\n'] + lines_text(ls.skip(i + 1)) =~= chunk + lines_text(
            ls.skip(i),
        ));
    }
}

/// A body without icon lines is one Markdown block whose source is the
/// body's lines, each ended by a line feed, trimmed: lines are never merged,
/// so lists, headings and code blocks keep their shape (when the body is
/// blank, the block is the body itself). Read back, the lines before
/// trimming are the body's lines.
pub proof fn prose_block_keeps_lines(body: Seq<char>)
    requires
        forall|k: int|
            0 <= k < lines_seq(body).len() ==> icon_line_spec(#[trigger] lines_seq(body)[k]) is None,
    ensures
        chat_blocks_spec(body) == (if trim_seq(lines_text(lines_seq(body))).len() == 0 {
            seq![BlockView::Markdown(body)]
        } else {
            seq![BlockView::Markdown(trim_seq(lines_text(lines_seq(body))))]
        }),
        (forall|k: int| 0 <= k < lines_seq(body).len() ==> plain_line(#[trigger] lines_seq(body)[k]))
            ==> lines_seq(lines_text(lines_seq(body))) == lines_seq(body),
{
    let ls = lines_seq(body);
    lemma_scan_prose(ls, 0, Seq::empty());
    assert(ls.skip(0) =~= ls);
    assert(Seq::<char>::empty() + lines_text(ls) =~= lines_text(ls));
    if forall|k: int| 0 <= k < ls.len() ==> plain_line(#[trigger] ls[k]) {
        lines_text_reads_back(ls);
    }
}


fn push_chunk(blocks: &mut Vec<ChatMessageBlock>, chunk: &Vec<char>)
    ensures
        blocks_view(final(blocks)@) == blocks_view(old(blocks)@) + flush_chunk(chunk@),
{
    let t = trim_chars(chunk.as_slice());
    let ghost before = blocks@;
    if t.len() > 0 {
        blocks.push(ChatMessageBlock::Markdown { source: string_from_chars(t.as_slice()) });
    }
    assert(blocks_view(blocks@) =~= blocks_view(before) + flush_chunk(chunk@));
}

/// The blocks of a message body.
pub fn parse_chat_blocks(body: &str) -> (r: Vec<ChatMessageBlock>)
    ensures
        blocks_view(r@) == chat_blocks_spec(body@),
{
    let lines = str_lines(body);
    let ghost ls = lines_seq(body@);
    let ghost total = scan_blocks(ls, 0, Seq::empty());
    let mut blocks: Vec<ChatMessageBlock> = Vec::new();
    let mut chunk: Vec<char> = Vec::new();
    let mut i: usize = 0;
    assert(chunk@ =~= Seq::<char>::empty());
    while i < lines.len()
        invariant
            i <= lines@.len(),
            lines@.len() == ls.len(),
            forall|k: int| 0 <= k < lines@.len() ==> (#[trigger] lines@[k])@ == ls[k],
            total == scan_blocks(ls, 0, Seq::empty()),
            blocks_view(blocks@) + scan_blocks(ls, i as int, chunk@) == total,
        decreases lines@.len() - i,
    {
        let ghost before = blocks@;
        let ghost old_chunk = chunk@;
        match parse_icon_chars(lines[i].as_slice()) {
            Some((icon, rest)) => {
                push_chunk(&mut blocks, &chunk);
                chunk = Vec::new();
                let source = trim_chars(rest.as_slice());
                blocks.push(ChatMessageBlock::Icon { icon, source: string_from_chars(source.as_slice()) });
                proof {
                    assert(blocks_view(blocks@) =~= blocks_view(before) + flush_chunk(old_chunk) + seq![
                        BlockView::Icon(icon, trim_seq(rest@)),
                    ]);
                    assert(chunk@ =~= Seq::<char>::empty());
                    assert(blocks_view(blocks@) + scan_blocks(ls, i + 1, chunk@) =~= blocks_view(before)
                        + scan_blocks(ls, i as int, old_chunk));
                }
            },
            None => {
                push_all(&mut chunk, lines[i].as_slice());
                chunk.push('\n');
                assert(chunk@ =~= old_chunk + ls[i as int] + seq!['\n']);
            },
        }
        i = i + 1;
    }
    push_chunk(&mut blocks, &chunk);
    if blocks.len() == 0 {
        blocks.push(ChatMessageBlock::Markdown { source: String::from_str(body) });
        assert(blocks_view(blocks@) =~= seq![BlockView::Markdown(body@)]);
    }
    blocks
}

/// Who a transcript message is from.
#[derive(Debug, Clone, Copy, PartialEq, Eq, Structural)]
pub enum ChatMessageKind {
    Assistant,
    System,
    Tool,
    User,
}

/// The arguments and outcome of a tool call shown in the transcript.
#[derive(Debug, Clone)]
pub struct ToolCallDetail {
    pub tool_name: String,
    pub arguments: String,
    pub result: Option<String>,
}

/// A message of the transcript.
#[derive(Debug, Clone)]
pub struct ChatMessage {
    pub kind: ChatMessageKind,
    pub author: String,
    pub body: String,
    pub blocks: Vec<ChatMessageBlock>,
    pub tool_detail: Option<ToolCallDetail>,
    pub is_tool_detail_open: bool,
}

/// `m` is a fresh message of `kind` by `author` with `body`.
pub open spec fn fresh_message(m: ChatMessage, kind: ChatMessageKind, author: Seq<char>, body: Seq<char>) -> bool {
    &&& m.kind == kind
    &&& m.author@ == author
    &&& m.body@ == body
    &&& blocks_view(m.blocks@) == chat_blocks_spec(body)
    &&& m.tool_detail is None
    &&& !m.is_tool_detail_open
}

/// The body of a tool message while the tool runs.
pub open spec fn running_tool_body(tool_name: Seq<char>) -> Seq<char> {
    ":tools: `"@ + display_tool_name_spec(tool_name) + "` is running"@
}

/// The body of a tool message once the tool returned `result`: the tool's
/// name and the result's length in bytes.
pub open spec fn completed_tool_body(tool_name: Seq<char>, result: String) -> Seq<char> {
    ":check: `"@ + display_tool_name_spec(tool_name) + "` completed ("@ + dec_seq(
        (vstd::utf8::encode_utf8(result@).len() as usize) as nat,
    ) + " chars)"@
}

/// `m` announces that the tool `tool_name` runs with `arguments`: a closed
/// tool message by the tool, whose detail holds the name and arguments and
/// no result yet.
pub open spec fn tool_call_message(m: ChatMessage, tool_name: Seq<char>, arguments: Seq<char>) -> bool {
    &&& m.kind == ChatMessageKind::Tool
    &&& m.author@ =~= display_tool_name_spec(tool_name)
    &&& m.body@ =~= running_tool_body(tool_name)
    &&& blocks_view(m.blocks@) == chat_blocks_spec(m.body@)
    &&& m.tool_detail matches Some(d) && d.tool_name@ =~= display_tool_name_spec(tool_name)
        && d.arguments@ =~= arguments && d.result is None
    &&& !m.is_tool_detail_open
}

/// `new` is the tool message `old` once the tool returned `result`: the body
/// says so, the detail takes the name and the result and keeps the
/// arguments (empty when there was no detail), and kind, author and whether
/// the detail is open stay.
pub open spec fn tool_call_completed(old: ChatMessage, new: ChatMessage, tool_name: Seq<char>, result: String) -> bool {
    &&& new.body@ =~= completed_tool_body(tool_name, result)
    &&& blocks_view(new.blocks@) == chat_blocks_spec(new.body@)
    &&& new.tool_detail matches Some(d) && d.tool_name@ =~= display_tool_name_spec(tool_name)
        && d.result == Some(result) && (match old.tool_detail {
        Some(od) => d.arguments == od.arguments,
        None => d.arguments@ =~= Seq::<char>::empty(),
    })
    &&& new.kind == old.kind
    &&& new.author == old.author
    &&& new.is_tool_detail_open == old.is_tool_detail_open
}

impl ChatMessage {
    /// A message of `kind` by `author` with `body`, its blocks parsed, no tool
    /// detail and the detail closed.
    pub fn new(kind: ChatMessageKind, author: &str, body: &str) -> (r: Self)
        ensures
            r.kind == kind,
            r.author@ == author@,
            r.body@ == body@,
            blocks_view(r.blocks@) == chat_blocks_spec(body@),
            r.tool_detail is None,
            !r.is_tool_detail_open,
    {
        ChatMessage {
            kind,
            author: String::from_str(author),
            body: String::from_str(body),
            blocks: parse_chat_blocks(body),
            tool_detail: None,
            is_tool_detail_open: false,
        }
    }

    /// Appends a streamed piece to the body and parses the blocks again.
    pub fn append_body(&mut self, token: &str)
        ensures
            final(self).body@ == old(self).body@ + token@,
            blocks_view(final(self).blocks@) == chat_blocks_spec(final(self).body@),
            final(self).kind == old(self).kind,
            final(self).author == old(self).author,
            final(self).tool_detail == old(self).tool_detail,
            final(self).is_tool_detail_open == old(self).is_tool_detail_open,
    {
        let mut cs = str_chars(self.body.as_str());
        push_str_chars(&mut cs, token);
        self.body = string_from_chars(cs.as_slice());
        self.blocks = parse_chat_blocks(self.body.as_str());
    }

    /// Replaces the body and parses the blocks again.
    pub fn set_body(&mut self, body: &str)
        ensures
            final(self).body@ == body@,
            blocks_view(final(self).blocks@) == chat_blocks_spec(body@),
            final(self).kind == old(self).kind,
            final(self).author == old(self).author,
            final(self).tool_detail == old(self).tool_detail,
            final(self).is_tool_detail_open == old(self).is_tool_detail_open,
    {
        self.body = String::from_str(body);
        self.blocks = parse_chat_blocks(body);
    }

    /// The message shown while a tool runs: by the tool, saying it is
    /// running, with its arguments in the detail.
    pub fn tool_call_started(tool_name: &str, arguments: &str) -> (r: Self)
        ensures
            tool_call_message(r, tool_name@, arguments@),
    {
        let name = display_tool_name(tool_name);
        let mut body: Vec<char> = Vec::new();
        push_str_chars(&mut body, ":tools: `");
        push_str_chars(&mut body, name.as_str());
        push_str_chars(&mut body, "` is running");
        let body = string_from_chars(body.as_slice());
        let mut message = ChatMessage::new(ChatMessageKind::Tool, name.as_str(), body.as_str());
        message.tool_detail = Some(
            ToolCallDetail { tool_name: name, arguments: String::from_str(arguments), result: None },
        );
        message
    }

    /// Records a tool's result: the detail takes the name and the result,
    /// and the body says the tool completed and how long (in bytes) the
    /// result is.
    pub fn complete_tool_call(&mut self, tool_name: &str, result: String)
        ensures
            tool_call_completed(*old(self), *final(self), tool_name@, result),
    {
        let name = display_tool_name(tool_name);
        let result_len = result.as_str().len();
        let detail = match &self.tool_detail {
            Some(d) => ToolCallDetail {
                tool_name: name.clone(),
                arguments: d.arguments.clone(),
                result: Some(result),
            },
            None => ToolCallDetail {
                tool_name: name.clone(),
                arguments: String::new(),
                result: Some(result),
            },
        };
        self.tool_detail = Some(detail);
        let mut body: Vec<char> = Vec::new();
        push_str_chars(&mut body, ":check: `");
        push_str_chars(&mut body, name.as_str());
        push_str_chars(&mut body, "` completed (");
        let digits = dec_chars(result_len as u128);
        push_all(&mut body, digits.as_slice());
        push_str_chars(&mut body, " chars)");
        let body = string_from_chars(body.as_slice());
        self.set_body(body.as_str());
    }
}

/// The kind and author under which a stored message is shown: assistant,
/// user ("You"), system and tool messages as such, anything else as system.
pub open spec fn record_kind(role: u16) -> (ChatMessageKind, Seq<char>) {
    if role == MESSAGE_ROLE_ASSISTANT {
        (ChatMessageKind::Assistant, "Assistant"@)
    } else if role == MESSAGE_ROLE_USER {
        (ChatMessageKind::User, "You"@)
    } else if role == MESSAGE_ROLE_SYSTEM {
        (ChatMessageKind::System, "System"@)
    } else if role == MESSAGE_ROLE_TOOL {
        (ChatMessageKind::Tool, "Tool"@)
    } else {
        (ChatMessageKind::System, "System"@)
    }
}

/// The transcript message of a stored message.
pub fn chat_message_from_record(record: &MessageRecord) -> (r: ChatMessage)
    ensures
        r.kind == record_kind(record.role).0,
        r.author@ == record_kind(record.role).1,
        r.body@ == record.content@,
        blocks_view(r.blocks@) == chat_blocks_spec(record.content@),
        r.tool_detail is None,
        !r.is_tool_detail_open,
{
    let body = record.content.as_str();
    if record.role == MESSAGE_ROLE_ASSISTANT {
        ChatMessage::new(ChatMessageKind::Assistant, "Assistant", body)
    } else if record.role == MESSAGE_ROLE_USER {
        ChatMessage::new(ChatMessageKind::User, "You", body)
    } else if record.role == MESSAGE_ROLE_SYSTEM {
        ChatMessage::new(ChatMessageKind::System, "System", body)
    } else if record.role == MESSAGE_ROLE_TOOL {
        ChatMessage::new(ChatMessageKind::Tool, "Tool", body)
    } else {
        ChatMessage::new(ChatMessageKind::System, "System", body)
    }
}

/// How important a toast is.
#[derive(Debug, Clone, Copy, PartialEq, Eq, Structural)]
pub enum ToastLevel {
    Info,
    Success,
    Warning,
    Error,
}

/// A transient notice.
#[derive(Debug, Clone)]
pub struct Toast {
    pub id: u64,
    pub level: ToastLevel,
    pub message: String,
    pub created_at: i64,
    pub expires_at: Option<i64>,
}

impl Toast {
    pub fn new(id: u64, level: ToastLevel, message: &str, created_at: i64, expires_at: Option<i64>) -> (r:
        Self)
        ensures
            r.id == id,
            r.level == level,
            r.message@ == message@,
            r.created_at == created_at,
            r.expires_at == expires_at,
    {
        Toast { id, level, message: String::from_str(message), created_at, expires_at }
    }

    /// The word shown before the toast's message.
    pub fn label(&self) -> (r: &'static str)
        ensures
            r@ == match self.level {
                ToastLevel::Info => "Info"@,
                ToastLevel::Success => "Saved"@,
                ToastLevel::Warning => "Warning"@,
                ToastLevel::Error => "Error"@,
            },
    {
        match self.level {
            ToastLevel::Info => "Info",
            ToastLevel::Success => "Saved",
            ToastLevel::Warning => "Warning",
            ToastLevel::Error => "Error",
        }
    }
}

} // verus!
