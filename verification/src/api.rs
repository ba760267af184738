//! The conversation data exchanged with the Messages API.
use vstd::prelude::*;

verus! {

/// Who wrote a message.
#[derive(PartialEq, Eq, Structural, Clone, Copy, Debug)]
pub enum Role {
    User,
    Assistant,
}

/// One block of a message's content. A tool use's input is held as its compact JSON text.
#[derive(Debug)]
pub enum ContentBlock {
    Text { text: String },
    ToolUse { id: String, name: String, input: String },
    ToolResult { tool_use_id: String, content: String, is_error: Option<bool> },
}

/// A content block with its texts taken as character sequences.
pub enum BlockView {
    Text(Seq<char>),
    /// id, name, input
    ToolUse(Seq<char>, Seq<char>, Seq<char>),
    /// tool use id, content, error flag
    ToolResult(Seq<char>, Seq<char>, Option<bool>),
}

impl View for ContentBlock {
    type V = BlockView;

    open spec fn view(&self) -> BlockView {
        match self {
            ContentBlock::Text { text } => BlockView::Text(text@),
            ContentBlock::ToolUse { id, name, input } => BlockView::ToolUse(id@, name@, input@),
            ContentBlock::ToolResult { tool_use_id, content, is_error } =>
                BlockView::ToolResult(tool_use_id@, content@, *is_error),
        }
    }
}

/// A message of the conversation.
#[derive(Debug)]
pub struct Message {
    pub role: Role,
    pub content: Vec<ContentBlock>,
}

/// A message with its blocks taken by their views.
pub struct MessageView {
    pub role: Role,
    pub content: Seq<BlockView>,
}

/// The views of a sequence of blocks.
pub open spec fn blocks_view(blocks: Seq<ContentBlock>) -> Seq<BlockView> {
    blocks.map_values(|b: ContentBlock| b@)
}

impl View for Message {
    type V = MessageView;

    open spec fn view(&self) -> MessageView {
        MessageView { role: self.role, content: blocks_view(self.content@) }
    }
}

/// The views of a sequence of messages.
pub open spec fn messages_view(msgs: Seq<Message>) -> Seq<MessageView> {
    msgs.map_values(|m: Message| m@)
}

/// A tool as it is announced to the API; its input schema is JSON text.
#[derive(Debug)]
pub struct ToolSchema {
    pub name: String,
    pub description: String,
    pub input_schema: String,
}

/// A request to the Messages API.
#[derive(Debug)]
pub struct CreateMessageRequest {
    pub model: String,
    pub max_tokens: u32,
    pub messages: Vec<Message>,
    pub system: Option<String>,
    pub tools: Vec<ToolSchema>,
    pub stream: Option<bool>,
}

/// A (non-streaming) reply of the Messages API.
#[derive(Debug)]
pub struct CreateMessageResponse {
    pub id: String,
    pub role: Role,
    pub content: Vec<ContentBlock>,
    pub stop_reason: Option<String>,
}

impl ContentBlock {
    /// A copy of this block.
    pub fn duplicate(&self) -> (r: ContentBlock)
        ensures
            r@ == self@,
    {
        match self {
            ContentBlock::Text { text } => ContentBlock::Text { text: text.clone() },
            ContentBlock::ToolUse { id, name, input } =>
                ContentBlock::ToolUse { id: id.clone(), name: name.clone(), input: input.clone() },
            ContentBlock::ToolResult { tool_use_id, content, is_error } => ContentBlock::ToolResult {
                tool_use_id: tool_use_id.clone(),
                content: content.clone(),
                is_error: *is_error,
            },
        }
    }
}

/// A copy of a list of blocks.
pub fn duplicate_blocks(blocks: &Vec<ContentBlock>) -> (r: Vec<ContentBlock>)
    ensures
        blocks_view(r@) == blocks_view(blocks@),
{
    let mut r: Vec<ContentBlock> = Vec::new();
    let mut i: usize = 0;
    while i < blocks.len()
        invariant
            i <= blocks@.len(),
            blocks_view(r@) == blocks_view(blocks@.subrange(0, i as int)),
        decreases blocks@.len() - i,
    {
        let b = blocks[i].duplicate();
        proof {
            assert(blocks@.subrange(0, i + 1) =~= blocks@.subrange(0, i as int).push(blocks@[i as int]));
            assert(blocks_view(r@.push(b)) =~= blocks_view(r@).push(b@));
            assert(blocks_view(blocks@.subrange(0, i + 1)) =~= blocks_view(blocks@.subrange(0, i as int)).push(blocks@[i as int]@));
        }
        r.push(b);
        i = i + 1;
    }
    assert(blocks@.subrange(0, blocks@.len() as int) =~= blocks@);
    r
}

impl Message {
    /// A copy of this message.
    pub fn duplicate(&self) -> (r: Message)
        ensures
            r@ == self@,
    {
        Message { role: self.role, content: duplicate_blocks(&self.content) }
    }

    /// A message of one text block.
    pub fn text(role: Role, text: String) -> (r: Message)
        ensures
            r@.role == role,
            r@.content == seq![BlockView::Text(text@)],
    {
        let mut content: Vec<ContentBlock> = Vec::new();
        content.push(ContentBlock::Text { text });
        proof {
            assert(blocks_view(content@) =~= seq![BlockView::Text(text@)]);
        }
        Message { role, content }
    }
}

/// A copy of a list of messages.
pub fn duplicate_messages(msgs: &Vec<Message>) -> (r: Vec<Message>)
    ensures
        messages_view(r@) == messages_view(msgs@),
{
    let mut r: Vec<Message> = Vec::new();
    let mut i: usize = 0;
    while i < msgs.len()
        invariant
            i <= msgs@.len(),
            messages_view(r@) == messages_view(msgs@.subrange(0, i as int)),
        decreases msgs@.len() - i,
    {
        let m = msgs[i].duplicate();
        proof {
            assert(msgs@.subrange(0, i + 1) =~= msgs@.subrange(0, i as int).push(msgs@[i as int]));
            assert(messages_view(r@.push(m)) =~= messages_view(r@).push(m@));
            assert(messages_view(msgs@.subrange(0, i + 1)) =~= messages_view(msgs@.subrange(0, i as int)).push(msgs@[i as int]@));
        }
        r.push(m);
        i = i + 1;
    }
    assert(msgs@.subrange(0, msgs@.len() as int) =~= msgs@);
    r
}

} // verus!
