//! The query engine's decisions: the conversation it keeps, the tools it knows, how it
//! measures and compacts the conversation, the request it sends, and how the tool uses
//! of a reply are answered. Awaiting the API, the tools and the user is left to the caller.
use vstd::prelude::*;
use vstd::string::*;
use crate::text::{chars_of, is_white_space, prefixed, white_space};
use crate::api::{
    BlockView, ContentBlock, CreateMessageRequest, Message, MessageView, Role, ToolSchema,
    blocks_view, duplicate_messages, messages_view,
};
use crate::stream::TurnAssembler;

verus! {

#[verifier::external_type_specification]
#[verifier::external_body]
pub struct ExCoreBPE(tiktoken_rs::CoreBPE);

/// The number of tokens that the cl100k_base encoding makes of `text`.
pub uninterp spec fn cl100k_token_count(text: Seq<char>) -> nat;

/// Runs of blanks at least this long are beyond the tokenizer when no line break follows
/// them: its pattern matcher takes such a run one backtracking step per character, and its
/// stack holds a million steps. (A run that goes on through white space to a line break is
/// matched in one step by another part of the pattern.) The thousand steps left below a
/// million cover the few that a match takes besides the run: one for the unanchored
/// search's start, one for each alternative of the pattern tried before, and those of the
/// look-ahead after the run.
pub const BLANK_RUN_LIMIT: usize = 999_000;

/// A line break: a carriage return or a line feed.
pub open spec fn is_line_break(c: char) -> bool {
    c == '\r' || c == '\n'
}

/// White space other than a line break.
pub open spec fn is_blank(c: char) -> bool {
    is_white_space(c) && !is_line_break(c)
}

/// The `n` characters of `s` from `i` on are blanks.
pub open spec fn blank_run_at(s: Seq<char>, i: int, n: int) -> bool {
    forall|k: int| i <= k < i + n ==> is_blank(#[trigger] s[k])
}

/// From position `i` on, `s` holds white space up to a line break.
pub open spec fn blank_to_line_break(s: Seq<char>, i: int) -> bool {
    exists|k: int| i <= k < s.len() && #[trigger] is_line_break(s[k])
        && forall|m: int| i <= m < k ==> is_white_space(#[trigger] s[m])
}

/// Every run of `BLANK_RUN_LIMIT` blanks in `s` goes on, through white space, to a line
/// break: the tokenizer can take `s`.
pub open spec fn short_blank_runs(s: Seq<char>) -> bool {
    forall|i: int| 0 <= i && i + BLANK_RUN_LIMIT <= s.len() && #[trigger] blank_run_at(s, i, BLANK_RUN_LIMIT as int)
        ==> blank_to_line_break(s, i + BLANK_RUN_LIMIT)
}

/// A stretch of at least `BLANK_RUN_LIMIT` blanks from `start` up to `stop`, where `s` has
/// no white space or ends, leaves `s` beyond the tokenizer.
proof fn lemma_unbroken_run(s: Seq<char>, start: int, stop: int)
    requires
        0 <= start,
        start + BLANK_RUN_LIMIT <= stop <= s.len(),
        blank_run_at(s, start, stop - start),
        stop < s.len() ==> !is_white_space(s[stop]),
    ensures
        !short_blank_runs(s),
{
    assert(blank_run_at(s, start, BLANK_RUN_LIMIT as int));
    if blank_to_line_break(s, start + BLANK_RUN_LIMIT) {
        let k = choose|k: int| start + BLANK_RUN_LIMIT <= k < s.len() && #[trigger] is_line_break(s[k])
            && forall|m: int| start + BLANK_RUN_LIMIT <= m < k ==> is_white_space(#[trigger] s[m]);
        if k < stop {
            assert(is_blank(s[k]));
        } else if k > stop {
            assert(is_white_space(s[stop]));
        }
    }
}

/// Whether the tokenizer can take `text` (see `short_blank_runs`).
pub fn has_short_blank_runs(text: &str) -> (r: bool)
    ensures
        r == short_blank_runs(text@),
{
    let cs = chars_of(text);
    let ghost limit = BLANK_RUN_LIMIT as int;
    let mut tail: usize = 0;
    let mut i: usize = 0;
    while i < cs.len()
        invariant
            cs@ == text@,
            limit == BLANK_RUN_LIMIT as int,
            i <= cs@.len(),
            tail <= i,
            blank_run_at(cs@, i - tail, tail as int),
            tail < i ==> !is_blank(cs@[i - tail - 1]),
            forall|j: int| 0 <= j && j + limit <= i && j < i - tail && #[trigger] blank_run_at(cs@, j, limit)
                ==> blank_to_line_break(cs@, j + limit),
        decreases cs@.len() - i,
    {
        let c = cs[i];
        if c == '\r' || c == '\n' {
            proof {
                assert forall|j: int| 0 <= j && j + limit <= i + 1 && j < i + 1 && #[trigger] blank_run_at(cs@, j, limit)
                    implies blank_to_line_break(cs@, j + limit) by {
                    if j + limit == i + 1 {
                        assert(is_blank(cs@[i as int]));
                    } else if j >= i - tail {
                        assert(is_line_break(cs@[i as int]));
                        assert forall|m: int| j + limit <= m < i implies is_white_space(#[trigger] cs@[m]) by {
                            assert(is_blank(cs@[m]));
                        }
                    }
                }
            }
            tail = 0;
        } else if white_space(c) {
            proof {
                assert forall|j: int| 0 <= j && j + limit <= i + 1 && j < i - tail && #[trigger] blank_run_at(cs@, j, limit)
                    implies blank_to_line_break(cs@, j + limit) by {
                    if j + limit == i + 1 {
                        assert(is_blank(cs@[i - tail - 1]));
                    }
                }
            }
            tail = tail + 1;
        } else {
            if tail >= BLANK_RUN_LIMIT {
                proof {
                    lemma_unbroken_run(cs@, i - tail, i as int);
                }
                return false;
            }
            proof {
                assert forall|j: int| 0 <= j && j + limit <= i + 1 && j < i + 1 && #[trigger] blank_run_at(cs@, j, limit)
                    implies blank_to_line_break(cs@, j + limit) by {
                    if j + limit == i + 1 {
                        assert(is_blank(cs@[i as int]));
                    } else if j >= i - tail {
                        assert(is_blank(cs@[j + limit - 1]));
                    }
                }
            }
            tail = 0;
        }
        i = i + 1;
    }
    if tail >= BLANK_RUN_LIMIT {
        proof {
            lemma_unbroken_run(cs@, cs@.len() - tail, cs@.len() as int);
        }
        return false;
    }
    proof {
        assert forall|j: int| 0 <= j && j + limit <= cs@.len() && #[trigger] blank_run_at(cs@, j, limit)
            implies blank_to_line_break(cs@, j + limit) by {
            if j >= cs@.len() - tail {
                assert(is_blank(cs@[j + limit - 1]));
            }
        }
    }
    true
}

/// The cl100k_base tokenizer.
pub struct Cl100k {
    bpe: tiktoken_rs::CoreBPE,
}

/// `tiktoken_rs::cl100k_base`: builds the tokenizer from the table and pattern that the
/// crate embeds. Claimed: it succeeds, as the embedded table always decodes and the
/// embedded pattern always compiles.
#[verifier::external_body]
fn load_cl100k() -> (r: Option<Cl100k>)
    ensures
        r is Some,
{
    tiktoken_rs::cl100k_base().ok().map(|bpe| Cl100k { bpe })
}

impl Cl100k {
    /// The cl100k_base tokenizer.
    pub fn new() -> (r: Cl100k) {
        load_cl100k().unwrap()
    }

    /// `CoreBPE::encode_ordinary(text).len()`: the number of tokens of `text`, special
    /// tokens not recognized. Claimed: the count is a function of the text alone, which
    /// holds because every `Cl100k` is built from the same embedded table. A text with a
    /// run of `BLANK_RUN_LIMIT` blanks that no line break follows is left out: the crate's
    /// pattern matcher reports a stack overflow on it, and `encode_ordinary` unwraps that
    /// report.
    #[verifier::external_body]
    fn count(&self, text: &str) -> (n: usize)
        requires
            short_blank_runs(text@),
        ensures
            n as nat == cl100k_token_count(text@),
    {
        self.bpe.encode_ordinary(text).len()
    }
}

/// Past this many estimated tokens the conversation is compacted.
pub const AUTOCOMPACT_THRESHOLD: usize = 180_000;

/// The text of a block that counts toward the conversation's size.
pub open spec fn block_text(b: BlockView) -> Seq<char> {
    match b {
        BlockView::Text(t) => t,
        BlockView::ToolUse(_, _, input) => input,
        BlockView::ToolResult(_, content, _) => content,
    }
}

/// The tokens of a sequence of blocks.
pub open spec fn blocks_tokens(bs: Seq<BlockView>) -> nat
    decreases bs.len(),
{
    if bs.len() == 0 {
        0
    } else {
        blocks_tokens(bs.drop_last()) + cl100k_token_count(block_text(bs.last()))
    }
}

/// The tokens of a sequence of messages.
pub open spec fn messages_tokens(ms: Seq<MessageView>) -> nat
    decreases ms.len(),
{
    if ms.len() == 0 {
        0
    } else {
        messages_tokens(ms.drop_last()) + blocks_tokens(ms.last().content)
    }
}

/// The tokens of a system prompt and a conversation.
pub open spec fn conversation_tokens(system: Option<Seq<char>>, ms: Seq<MessageView>) -> nat {
    let sys = match system {
        Some(s) => cl100k_token_count(s),
        None => 0,
    };
    sys + messages_tokens(ms)
}

/// Every text of `bs` that counts toward the conversation's size can be tokenized.
pub open spec fn blocks_tokenizable(bs: Seq<BlockView>) -> bool {
    forall|j: int| 0 <= j < bs.len() ==> short_blank_runs(#[trigger] block_text(bs[j]))
}

/// The system prompt and every counted text of the conversation can be tokenized.
pub open spec fn tokenizable(system: Option<Seq<char>>, ms: Seq<MessageView>) -> bool {
    &&& (system matches Some(s) ==> short_blank_runs(s))
    &&& forall|i: int| 0 <= i < ms.len() ==> blocks_tokenizable(#[trigger] ms[i].content)
}

/// `n`, or the largest `usize` when `n` is larger.
pub open spec fn capped(n: nat) -> nat {
    if n > usize::MAX { usize::MAX as nat } else { n }
}

/// The marker text that takes the place of the dropped older messages.
pub open spec fn compact_marker_text() -> Seq<char> {
    "<compact_boundary>Previous conversation was summarized to save context tokens.</compact_boundary>"@
}

/// The conversation after compaction: when it has more than two messages, its older half
/// (the first `len / 2` messages) gives way to a single user message with the marker.
pub open spec fn compacted(ms: Seq<MessageView>) -> Seq<MessageView> {
    if ms.len() > 2 {
        seq![MessageView { role: Role::User, content: seq![BlockView::Text(compact_marker_text())] }]
            + ms.subrange((ms.len() / 2) as int, ms.len() as int)
    } else {
        ms
    }
}

/// What the engine reports while it works.
#[derive(Debug)]
pub enum EngineEvent {
    TextDelta(String),
    ToolExecutionStarted(String),
    /// tool name, result
    ToolExecutionCompleted(String, String),
    /// tool name, error
    ToolExecutionError(String, String),
    TurnCompleted,
    Error(String),
    /// tool name, input shown to the user
    PermissionRequested(String, String),
    /// tokens before, tokens after
    ContextCompacted(usize, usize),
}

/// The engine's state: the model, the system prompt, the conversation, and the registered
/// tools by name (each name at most once).
pub struct QueryEngine<T> {
    model: String,
    system_prompt: Option<String>,
    messages: Vec<Message>,
    tools: Vec<(String, T)>,
    tokenizer: Cl100k,
}

/// The names of a list of named tools.
pub open spec fn names_of<T>(tools: Seq<(String, T)>) -> Seq<Seq<char>> {
    tools.map_values(|p: (String, T)| p.0@)
}

/// The position of the last entry of `tools` named `name`, or -1 when there is none.
pub open spec fn position_named<T>(tools: Seq<(String, T)>, name: Seq<char>) -> int
    decreases tools.len(),
{
    if tools.len() == 0 {
        -1
    } else if tools.last().0@ == name {
        tools.len() - 1
    } else {
        position_named(tools.drop_last(), name)
    }
}

/// The tool registered under `name` among `tools`, if any.
pub open spec fn tool_named<T>(tools: Seq<(String, T)>, name: Seq<char>) -> Option<T> {
    let p = position_named(tools, name);
    if p < 0 { None } else { Some(tools[p].1) }
}

/// `tools` after registering `tool` under `name`: an entry of that name is replaced in its
/// place, and otherwise the pair is added at the end.
pub open spec fn registered<T>(tools: Seq<(String, T)>, name: String, tool: T) -> Seq<(String, T)> {
    let p = position_named(tools, name@);
    if p < 0 { tools.push((name, tool)) } else { tools.update(p, (name, tool)) }
}

/// `position_named` finds an entry of that name exactly when there is one.
proof fn lemma_position_named<T>(tools: Seq<(String, T)>, name: Seq<char>)
    ensures
        -1 <= position_named(tools, name) < tools.len(),
        position_named(tools, name) >= 0 ==> tools[position_named(tools, name)].0@ == name,
        position_named(tools, name) < 0 ==> forall|i: int| 0 <= i < tools.len() ==> tools[i].0@ != name,
    decreases tools.len(),
{
    if tools.len() > 0 {
        lemma_position_named(tools.drop_last(), name);
        if tools.last().0@ != name && position_named(tools, name) < 0 {
            assert forall|i: int| 0 <= i < tools.len() implies tools[i].0@ != name by {
                if i < tools.len() - 1 {
                    assert(tools[i] == tools.drop_last()[i]);
                }
            }
        }
    }
}

/// In a list whose names are distinct, the entry found under a name is the one at any
/// position that carries it.
proof fn lemma_named_entry_unique<T>(tools: Seq<(String, T)>, name: Seq<char>, k: int)
    requires
        names_of(tools).no_duplicates(),
        0 <= k < tools.len(),
        tools[k].0@ == name,
    ensures
        position_named(tools, name) == k,
{
    lemma_position_named(tools, name);
    let j = position_named(tools, name);
    assert(names_of(tools)[k] == name && names_of(tools)[j] == name);
}

/// Registering is a write that a lookup reads back: after `tool` is registered under
/// `name`, the lookup of `name` gives `tool`, the lookup of any other name gives what it
/// gave before, and each name is still registered at most once.
pub proof fn lemma_register_then_find<T>(tools: Seq<(String, T)>, name: String, tool: T, other: Seq<char>)
    requires
        names_of(tools).no_duplicates(),
    ensures
        names_of(registered(tools, name, tool)).no_duplicates(),
        tool_named(registered(tools, name, tool), name@) == Some(tool),
        other != name@ ==> tool_named(registered(tools, name, tool), other) == tool_named(tools, other),
{
    let r = registered(tools, name, tool);
    let ns = names_of(tools);
    lemma_position_named(tools, name@);
    lemma_position_named(tools, other);
    let p = position_named(tools, name@);
    if p >= 0 {
        assert(names_of(r) =~= ns);
        lemma_named_entry_unique(r, name@, p);
        if other != name@ {
            lemma_position_named(r, other);
            let q = position_named(tools, other);
            if q >= 0 {
                lemma_named_entry_unique(r, other, q);
            } else {
                assert forall|i: int| 0 <= i < r.len() implies r[i].0@ != other by {}
                if position_named(r, other) >= 0 {
                    assert(r[position_named(r, other)].0@ == other);
                }
            }
        }
    } else {
        assert(names_of(r) =~= ns.push(name@));
        assert forall|a: int, b: int| 0 <= a < b < ns.len() + 1 implies
            ns.push(name@)[a] != ns.push(name@)[b] by {
            if b == ns.len() {
                assert(ns[a] == tools[a].0@);
            }
        }
        lemma_named_entry_unique(r, name@, tools.len() as int);
        if other != name@ {
            lemma_position_named(r, other);
            let q = position_named(tools, other);
            if q >= 0 {
                lemma_named_entry_unique(r, other, q);
            } else if position_named(r, other) >= 0 {
                assert(r[position_named(r, other)].0@ == other);
            }
        }
    }
}

impl<T> QueryEngine<T> {
    /// Each tool name is registered once.
    pub open spec fn wf(&self) -> bool {
        names_of(self.tools()).no_duplicates()
    }

    /// The conversation.
    pub closed spec fn conversation(&self) -> Seq<MessageView> {
        messages_view(self.messages@)
    }

    /// The registered tools by name, in order of first registration.
    pub closed spec fn tools(&self) -> Seq<(String, T)> {
        self.tools@
    }

    /// The model's name.
    pub closed spec fn model(&self) -> Seq<char> {
        self.model@
    }

    /// The system prompt.
    pub closed spec fn system(&self) -> Option<Seq<char>> {
        match self.system_prompt {
            Some(s) => Some(s@),
            None => None,
        }
    }

    /// Every text whose tokens the engine counts can be tokenized.
    pub open spec fn countable(&self) -> bool {
        tokenizable(self.system(), self.conversation())
    }

    /// Whether every text whose tokens the engine counts can be tokenized.
    pub fn is_countable(&self) -> (r: bool)
        ensures
            r == self.countable(),
    {
        if let Some(s) = &self.system_prompt {
            if !has_short_blank_runs(s.as_str()) {
                return false;
            }
        }
        let mut i: usize = 0;
        while i < self.messages.len()
            invariant
                i <= self.messages@.len(),
                self.system() matches Some(s) ==> short_blank_runs(s),
                forall|k: int| 0 <= k < i ==> blocks_tokenizable(#[trigger] self.conversation()[k].content),
            decreases self.messages@.len() - i,
        {
            let blocks = &self.messages[i].content;
            assert(self.conversation()[i as int].content == blocks_view(blocks@));
            let mut j: usize = 0;
            while j < blocks.len()
                invariant
                    j <= blocks@.len(),
                    i < self.messages@.len(),
                    self.conversation()[i as int].content == blocks_view(blocks@),
                    forall|k: int| 0 <= k < j ==> short_blank_runs(#[trigger] block_text(blocks_view(blocks@)[k])),
                decreases blocks@.len() - j,
            {
                let ok = match &blocks[j] {
                    ContentBlock::Text { text } => has_short_blank_runs(text.as_str()),
                    ContentBlock::ToolResult { content, .. } => has_short_blank_runs(content.as_str()),
                    ContentBlock::ToolUse { input, .. } => has_short_blank_runs(input.as_str()),
                };
                if !ok {
                    assert(!short_blank_runs(block_text(blocks_view(blocks@)[j as int])));
                    assert(!blocks_tokenizable(self.conversation()[i as int].content));
                    return false;
                }
                j = j + 1;
            }
            assert(blocks_tokenizable(self.conversation()[i as int].content));
            i = i + 1;
        }
        true
    }

    /// An engine with an empty conversation and no tools.
    pub fn new(model: String, system_prompt: Option<String>, tokenizer: Cl100k) -> (r: Self)
        ensures
            r.wf(),
            r.conversation() == Seq::<MessageView>::empty(),
            r.tools() == Seq::<(String, T)>::empty(),
            r.model() == model@,
            r.system() == (match system_prompt { Some(s) => Some(s@), None => None::<Seq<char>> }),
    {
        let r = QueryEngine { model, system_prompt, messages: Vec::new(), tools: Vec::new(), tokenizer };
        assert(messages_view(r.messages@) =~= Seq::<MessageView>::empty());
        assert(names_of(r.tools@) =~= Seq::<Seq<char>>::empty());
        r
    }

    /// The conversation's messages.
    pub fn messages(&self) -> (r: &Vec<Message>)
        ensures
            messages_view(r@) == self.conversation(),
    {
        &self.messages
    }

    /// The model's name.
    pub fn model_name(&self) -> (r: &String)
        ensures
            r@ == self.model(),
    {
        &self.model
    }

    fn position_of(&self, name: &str) -> (r: Option<usize>)
        ensures
            match r {
                Some(i) => i < self.tools@.len() && self.tools@[i as int].0@ == name@,
                None => forall|i: int| 0 <= i < self.tools@.len() ==> self.tools@[i].0@ != name@,
            },
    {
        let mut i: usize = 0;
        while i < self.tools.len()
            invariant
                i <= self.tools@.len(),
                forall|k: int| 0 <= k < i ==> self.tools@[k].0@ != name@,
            decreases self.tools@.len() - i,
        {
            if crate::text::same_text(self.tools[i].0.as_str(), name) {
                return Some(i);
            }
            i = i + 1;
        }
        None
    }

    /// Registers `tool` under `name`; a tool already registered under that name is
    /// replaced, in its place.
    pub fn register_tool(&mut self, name: String, tool: T)
        requires
            old(self).wf(),
        ensures
            final(self).wf(),
            final(self).conversation() == old(self).conversation(),
            final(self).model() == old(self).model(),
            final(self).system() == old(self).system(),
            final(self).tools() == registered(old(self).tools(), name, tool),
    {
        let ghost before = self.tools@;
        proof {
            lemma_register_then_find(before, name, tool, name@);
        }
        match self.position_of(name.as_str()) {
            Some(i) => {
                proof {
                    lemma_named_entry_unique(before, name@, i as int);
                }
                let mut tools: Vec<(String, T)> = Vec::new();
                std::mem::swap(&mut tools, &mut self.tools);
                tools.set(i, (name, tool));
                self.tools = tools;
            },
            None => {
                proof {
                    lemma_position_named(before, name@);
                    if position_named(before, name@) >= 0 {
                        assert(before[position_named(before, name@)].0@ == name@);
                    }
                }
                let mut tools: Vec<(String, T)> = Vec::new();
                std::mem::swap(&mut tools, &mut self.tools);
                tools.push((name, tool));
                self.tools = tools;
            },
        }
    }

    /// The tool registered under `name`, if any.
    pub fn find_tool(&self, name: &str) -> (r: Option<&T>)
        ensures
            self.wf() ==> match r {
                Some(t) => tool_named(self.tools(), name@) == Some(*t),
                None => tool_named(self.tools(), name@) is None,
            },
            match r {
                Some(t) => exists|i: int| 0 <= i < self.tools().len() && self.tools()[i].0@ == name@
                    && *t == self.tools()[i].1,
                None => forall|i: int| 0 <= i < self.tools().len() ==> self.tools()[i].0@ != name@,
            },
    {
        match self.position_of(name) {
            Some(i) => {
                let t = &self.tools[i].1;
                assert(self.tools()[i as int].0@ == name@ && *t == self.tools()[i as int].1);
                proof {
                    if self.wf() {
                        lemma_named_entry_unique(self.tools@, name@, i as int);
                    }
                }
                Some(t)
            },
            None => {
                proof {
                    lemma_position_named(self.tools@, name@);
                    if position_named(self.tools@, name@) >= 0 {
                        assert(self.tools@[position_named(self.tools@, name@)].0@ == name@);
                    }
                }
                None
            },
        }
    }

    /// Adds the user's prompt to the conversation, as a user message of one text block.
    pub fn push_prompt(&mut self, prompt: &str)
        requires
            old(self).wf(),
        ensures
            final(self).wf(),
            final(self).conversation() == old(self).conversation().push(
                MessageView { role: Role::User, content: seq![BlockView::Text(prompt@)] },
            ),
            final(self).tools() == old(self).tools(),
            final(self).model() == old(self).model(),
            final(self).system() == old(self).system(),
    {
        let m = Message::text(Role::User, String::from_str(prompt));
        let ghost before = self.messages@;
        self.messages.push(m);
        assert(messages_view(self.messages@) =~= messages_view(before).push(m@));
    }

    fn blocks_token_count(&self, blocks: &Vec<ContentBlock>, acc: usize, Ghost(base): Ghost<nat>) -> (r: usize)
        requires
            acc as nat == capped(base),
            blocks_tokenizable(blocks_view(blocks@)),
        ensures
            r as nat == capped(base + blocks_tokens(blocks_view(blocks@))),
    {
        let mut total = acc;
        let mut i: usize = 0;
        while i < blocks.len()
            invariant
                i <= blocks@.len(),
                total as nat == capped(base + blocks_tokens(blocks_view(blocks@.subrange(0, i as int)))),
                blocks_tokenizable(blocks_view(blocks@)),
            decreases blocks@.len() - i,
        {
            assert(short_blank_runs(block_text(blocks_view(blocks@)[i as int])));
            let n = match &blocks[i] {
                ContentBlock::Text { text } => self.tokenizer.count(text.as_str()),
                ContentBlock::ToolResult { content, .. } => self.tokenizer.count(content.as_str()),
                ContentBlock::ToolUse { input, .. } => self.tokenizer.count(input.as_str()),
            };
            proof {
                let s = blocks_view(blocks@.subrange(0, i + 1));
                assert(s.drop_last() =~= blocks_view(blocks@.subrange(0, i as int)));
                assert(s.last() == blocks@[i as int]@);
            }
            total = total.saturating_add(n);
            i = i + 1;
        }
        assert(blocks@.subrange(0, blocks@.len() as int) =~= blocks@);
        total
    }

    /// The conversation's size in cl100k_base tokens: the system prompt, and every text,
    /// tool input and tool result of every message (at most the largest `usize`).
    pub fn estimate_tokens(&self) -> (n: usize)
        requires
            self.countable(),
        ensures
            n as nat == capped(conversation_tokens(self.system(), self.conversation())),
    {
        let mut total: usize = match &self.system_prompt {
            Some(s) => self.tokenizer.count(s.as_str()),
            None => 0,
        };
        let ghost sys = total as nat;
        let mut i: usize = 0;
        while i < self.messages.len()
            invariant
                i <= self.messages@.len(),
                sys == (match self.system() { Some(s) => cl100k_token_count(s), None => 0nat }),
                total as nat == capped(sys + messages_tokens(messages_view(self.messages@.subrange(0, i as int)))),
                tokenizable(self.system(), self.conversation()),
            decreases self.messages@.len() - i,
        {
            assert(blocks_tokenizable(messages_view(self.messages@)[i as int].content));
            let ghost base = sys + messages_tokens(messages_view(self.messages@.subrange(0, i as int)));
            total = self.blocks_token_count(&self.messages[i].content, total, Ghost(base));
            proof {
                let s = messages_view(self.messages@.subrange(0, i + 1));
                assert(s.drop_last() =~= messages_view(self.messages@.subrange(0, i as int)));
                assert(s.last() == self.messages@[i as int]@);
            }
            i = i + 1;
        }
        assert(self.messages@.subrange(0, self.messages@.len() as int) =~= self.messages@);
        total
    }

    /// Compacts the conversation when its estimated size reaches the threshold: with more
    /// than two messages, the older half gives way to a marker message. Reports the sizes
    /// before and after whenever the threshold is reached, and nothing otherwise.
    pub fn auto_compact_if_needed(&mut self) -> (r: Option<EngineEvent>)
        requires
            old(self).wf(),
            old(self).countable(),
        ensures
            final(self).wf(),
            final(self).countable(),
            final(self).tools() == old(self).tools(),
            final(self).model() == old(self).model(),
            final(self).system() == old(self).system(),
            capped(conversation_tokens(old(self).system(), old(self).conversation())) < AUTOCOMPACT_THRESHOLD
                ==> r is None && final(self).conversation() == old(self).conversation(),
            capped(conversation_tokens(old(self).system(), old(self).conversation())) >= AUTOCOMPACT_THRESHOLD
                ==> (final(self).conversation() == compacted(old(self).conversation())
                && (r matches Some(EngineEvent::ContextCompacted(before, after))
                && before as nat == capped(conversation_tokens(old(self).system(), old(self).conversation()))
                && after as nat == capped(conversation_tokens(final(self).system(), final(self).conversation())))),
    {
        let tokens = self.estimate_tokens();
        if tokens < AUTOCOMPACT_THRESHOLD {
            return None;
        }
        let len = self.messages.len();
        if len > 2 {
            let keep_idx = len / 2;
            let ghost before = self.messages@;
            let mut msgs: Vec<Message> = Vec::new();
            std::mem::swap(&mut msgs, &mut self.messages);
            let rest = msgs.split_off(keep_idx);
            let marker = Message::text(
                Role::User,
                String::from_str(
                    "<compact_boundary>Previous conversation was summarized to save context tokens.</compact_boundary>",
                ),
            );
            let mut rest = rest;
            rest.insert(0, marker);
            self.messages = rest;
            proof {
                let ms = messages_view(before);
                assert(messages_view(self.messages@) =~= seq![marker@] + ms.subrange(keep_idx as int, ms.len() as int));
                assert(marker@.content =~= seq![BlockView::Text(compact_marker_text())]);
                reveal_strlit("<compact_boundary>Previous conversation was summarized to save context tokens.</compact_boundary>");
                assert(blocks_tokenizable(marker@.content));
                let now = messages_view(self.messages@);
                assert forall|k: int| 0 <= k < now.len() implies blocks_tokenizable(#[trigger] now[k].content) by {
                    if k > 0 {
                        assert(now[k] == ms[keep_idx + k - 1]);
                    }
                }
            }
        } else {
            proof {
                assert(compacted(self.conversation()) == self.conversation());
            }
        }
        let new_tokens = self.estimate_tokens();
        Some(EngineEvent::ContextCompacted(tokens, new_tokens))
    }

    /// The request for the next reply: the model, at most 4096 output tokens, the whole
    /// conversation, the system prompt, every registered tool with a generic description and
    /// an object input schema, and streaming on.
    pub fn build_request(&self) -> (r: CreateMessageRequest)
        ensures
            r.model@ == self.model(),
            r.max_tokens == 4096,
            messages_view(r.messages@) == self.conversation(),
            (match r.system { Some(s) => Some(s@), None => None::<Seq<char>> }) == self.system(),
            r.stream == Some(true),
            r.tools@.len() == self.tools().len(),
            self.wf() ==> r.tools@.map_values(|t: ToolSchema| t.name@).no_duplicates(),
            forall|i: int| 0 <= i < r.tools@.len() ==> {
                &&& (#[trigger] r.tools@[i]).name@ == self.tools()[i].0@
                &&& r.tools@[i].description@ == "Auto-generated tool description"@
                &&& r.tools@[i].input_schema@ == "{\"type\":\"object\"}"@
            },
    {
        let mut tools: Vec<ToolSchema> = Vec::new();
        let mut i: usize = 0;
        while i < self.tools.len()
            invariant
                i <= self.tools@.len(),
                tools@.len() == i,
                forall|k: int| 0 <= k < i ==> {
                    &&& (#[trigger] tools@[k]).name@ == self.tools@[k].0@
                    &&& tools@[k].description@ == "Auto-generated tool description"@
                    &&& tools@[k].input_schema@ == "{\"type\":\"object\"}"@
                },
            decreases self.tools@.len() - i,
        {
            tools.push(ToolSchema {
                name: self.tools[i].0.clone(),
                description: String::from_str("Auto-generated tool description"),
                input_schema: String::from_str("{\"type\":\"object\"}"),
            });
            i = i + 1;
        }
        proof {
            let ns = tools@.map_values(|t: ToolSchema| t.name@);
            if self.wf() {
                assert forall|a: int, b: int| 0 <= a < b < ns.len() implies ns[a] != ns[b] by {
                    assert(ns[a] == names_of(self.tools@)[a] && ns[b] == names_of(self.tools@)[b]);
                }
            }
        }
        CreateMessageRequest {
            model: self.model.clone(),
            max_tokens: 4096,
            messages: duplicate_messages(&self.messages),
            system: match &self.system_prompt {
                Some(s) => Some(s.clone()),
                None => None,
            },
            tools,
            stream: Some(true),
        }
    }
}


/// The tool uses among a reply's blocks, in order: (id, name, input).
pub open spec fn tool_uses(bs: Seq<BlockView>) -> Seq<(Seq<char>, Seq<char>, Seq<char>)>
    decreases bs.len(),
{
    if bs.len() == 0 {
        Seq::empty()
    } else {
        let rest = tool_uses(bs.drop_last());
        match bs.last() {
            BlockView::ToolUse(id, name, input) => rest.push((id, name, input)),
            _ => rest,
        }
    }
}

/// A tool use of the reply that awaits its result.
#[derive(Debug)]
pub struct PendingToolUse {
    pub id: String,
    pub name: String,
    pub input: String,
}

/// How a tool use is to be handled.
#[derive(PartialEq, Eq, Structural, Clone, Copy, Debug)]
pub enum ToolDecision {
    /// No tool of that name is registered.
    Missing,
    /// The tool is destructive and a user is there to ask: ask first.
    AskPermission,
    /// Run the tool.
    Run,
}

/// How a tool use was handled.
#[derive(Debug)]
pub enum ToolOutcome {
    /// No tool of that name is registered.
    Missing,
    /// The user did not allow the tool to run.
    Denied,
    /// The tool ran; its result as JSON text.
    Completed(String),
    /// The tool ran and failed; the error's text.
    Failed(String),
}

/// Decides how a tool use is handled: whether a tool of its name is `found`, whether
/// it is `destructive` for this input, and whether a user is `interactive`ly there.
pub fn decide_tool_use(found: bool, destructive: bool, interactive: bool) -> (d: ToolDecision)
    ensures
        !found ==> d == ToolDecision::Missing,
        found && destructive && interactive ==> d == ToolDecision::AskPermission,
        found && !(destructive && interactive) ==> d == ToolDecision::Run,
{
    if !found {
        ToolDecision::Missing
    } else if destructive && interactive {
        ToolDecision::AskPermission
    } else {
        ToolDecision::Run
    }
}

/// What is done with a tool use once it is decided and, where asked, answered.
#[derive(Debug)]
pub enum ToolAction {
    /// The tool is not run; the use is settled with this outcome.
    Settle(ToolOutcome),
    /// The tool is run; its result or its error settles the use.
    Run,
}

/// What is done with a tool use, from the `decision` and the user's `answer` to the
/// permission question (`None` when no question was asked or when no answer came back).
/// A missing tool is settled as missing. A tool that needed permission runs only on a
/// yes, and is otherwise denied without running: a lost answer counts as a no. Any other
/// tool runs.
pub fn tool_action(decision: ToolDecision, answer: Option<bool>) -> (a: ToolAction)
    ensures
        decision == ToolDecision::Missing ==> a matches ToolAction::Settle(ToolOutcome::Missing),
        decision == ToolDecision::AskPermission && answer == Some(true) ==> a is Run,
        decision == ToolDecision::AskPermission && answer != Some(true)
            ==> a matches ToolAction::Settle(ToolOutcome::Denied),
        decision == ToolDecision::Run ==> a is Run,
{
    match decision {
        ToolDecision::Missing => ToolAction::Settle(ToolOutcome::Missing),
        ToolDecision::AskPermission => match answer {
            Some(true) => ToolAction::Run,
            _ => ToolAction::Settle(ToolOutcome::Denied),
        },
        ToolDecision::Run => ToolAction::Run,
    }
}

/// The text a user is shown when a tool was not allowed to run.
pub open spec fn denial_text() -> Seq<char> {
    "User denied execution of this tool."@
}

/// The tool-result block that answers the tool use `id` of the tool `name` when it was
/// handled with `o`.
pub open spec fn tool_result_view(id: Seq<char>, name: Seq<char>, o: ToolOutcome) -> BlockView {
    match o {
        ToolOutcome::Missing => BlockView::ToolResult(id, "Tool "@ + name + " not found"@, Some(true)),
        ToolOutcome::Denied => BlockView::ToolResult(id, denial_text(), Some(true)),
        ToolOutcome::Completed(s) => BlockView::ToolResult(id, s@, Some(false)),
        ToolOutcome::Failed(e) => BlockView::ToolResult(id, "Tool Error: "@ + e@, Some(true)),
    }
}

/// The answering of a reply's tool uses, one after the other.
pub struct ToolRound {
    uses: Vec<PendingToolUse>,
    results: Vec<ContentBlock>,
}

impl ToolRound {
    /// The tool uses to answer: (id, name, input).
    pub closed spec fn uses(&self) -> Seq<(Seq<char>, Seq<char>, Seq<char>)> {
        self.uses@.map_values(|u: PendingToolUse| (u.id@, u.name@, u.input@))
    }

    /// The results given so far, in the order of the uses.
    pub closed spec fn results(&self) -> Seq<BlockView> {
        blocks_view(self.results@)
    }

    /// At most one result per use, and the `i`-th result answers the `i`-th use.
    pub open spec fn wf(&self) -> bool {
        &&& self.results().len() <= self.uses().len()
        &&& forall|i: int| 0 <= i < self.results().len() ==>
            (#[trigger] self.results()[i]) is ToolResult && self.results()[i]->ToolResult_0 == self.uses()[i].0
    }

    /// The round over the tool uses of a reply's blocks.
    pub fn new(blocks: &Vec<ContentBlock>) -> (r: ToolRound)
        ensures
            r.wf(),
            r.uses() == tool_uses(blocks_view(blocks@)),
            r.results() == Seq::<BlockView>::empty(),
    {
        let mut uses: Vec<PendingToolUse> = Vec::new();
        let mut i: usize = 0;
        while i < blocks.len()
            invariant
                i <= blocks@.len(),
                uses@.map_values(|u: PendingToolUse| (u.id@, u.name@, u.input@))
                    == tool_uses(blocks_view(blocks@.subrange(0, i as int))),
            decreases blocks@.len() - i,
        {
            let ghost before = uses@;
            proof {
                let s = blocks_view(blocks@.subrange(0, i + 1));
                assert(s.drop_last() =~= blocks_view(blocks@.subrange(0, i as int)));
                assert(s.last() == blocks@[i as int]@);
            }
            match &blocks[i] {
                ContentBlock::ToolUse { id, name, input } => {
                    let u = PendingToolUse { id: id.clone(), name: name.clone(), input: input.clone() };
                    uses.push(u);
                    assert(uses@.map_values(|u: PendingToolUse| (u.id@, u.name@, u.input@))
                        =~= before.map_values(|u: PendingToolUse| (u.id@, u.name@, u.input@)).push((id@, name@, input@)));
                },
                _ => {},
            }
            i = i + 1;
        }
        assert(blocks@.subrange(0, blocks@.len() as int) =~= blocks@);
        let r = ToolRound { uses, results: Vec::new() };
        assert(r.results() =~= Seq::<BlockView>::empty());
        r
    }

    /// Whether every tool use has its result.
    pub fn is_done(&self) -> (b: bool)
        requires
            self.wf(),
        ensures
            b == (self.results().len() == self.uses().len()),
    {
        self.results.len() == self.uses.len()
    }

    /// The next tool use to answer, if any.
    pub fn current(&self) -> (r: Option<&PendingToolUse>)
        requires
            self.wf(),
        ensures
            self.results().len() == self.uses().len() ==> r is None,
            self.results().len() < self.uses().len() ==> (r matches Some(u)
                && (u.id@, u.name@, u.input@) == self.uses()[self.results().len() as int]),
    {
        if self.results.len() < self.uses.len() {
            let u = &self.uses[self.results.len()];
            Some(u)
        } else {
            None
        }
    }

    /// Records how the next tool use was handled, and gives the event that reports it:
    /// none for a missing tool, an error for a denial or a failure, a completion otherwise.
    pub fn settle(&mut self, outcome: ToolOutcome) -> (ev: Option<EngineEvent>)
        requires
            old(self).wf(),
            old(self).results().len() < old(self).uses().len(),
        ensures
            final(self).wf(),
            final(self).uses() == old(self).uses(),
            ({
                let u = old(self).uses()[old(self).results().len() as int];
                final(self).results() == old(self).results().push(tool_result_view(u.0, u.1, outcome))
                && match outcome {
                    ToolOutcome::Missing => ev is None,
                    ToolOutcome::Denied => ev matches Some(EngineEvent::ToolExecutionError(n, m))
                        && n@ == u.1 && m@ == denial_text(),
                    ToolOutcome::Completed(s) => ev matches Some(EngineEvent::ToolExecutionCompleted(n, m))
                        && n@ == u.1 && m@ == s@,
                    ToolOutcome::Failed(e) => ev matches Some(EngineEvent::ToolExecutionError(n, m))
                        && n@ == u.1 && m@ == e@,
                }
            }),
    {
        let k = self.results.len();
        let id = self.uses[k].id.clone();
        let name = self.uses[k].name.clone();
        let ghost o = outcome;
        let (block, ev) = match outcome {
            ToolOutcome::Missing => {
                let mut content = prefixed("Tool ", name.as_str());
                content.append(" not found");
                (ContentBlock::ToolResult { tool_use_id: id, content, is_error: Some(true) }, None)
            },
            ToolOutcome::Denied => {
                let content = String::from_str("User denied execution of this tool.");
                let ev = EngineEvent::ToolExecutionError(name, content.clone());
                (ContentBlock::ToolResult { tool_use_id: id, content, is_error: Some(true) }, Some(ev))
            },
            ToolOutcome::Completed(s) => {
                let ev = EngineEvent::ToolExecutionCompleted(name, s.clone());
                (ContentBlock::ToolResult { tool_use_id: id, content: s, is_error: Some(false) }, Some(ev))
            },
            ToolOutcome::Failed(e) => {
                let content = prefixed("Tool Error: ", e.as_str());
                let ev = EngineEvent::ToolExecutionError(name, e);
                (ContentBlock::ToolResult { tool_use_id: id, content, is_error: Some(true) }, Some(ev))
            },
        };
        let ghost before = self.results@;
        self.results.push(block);
        proof {
            assert(blocks_view(self.results@) =~= blocks_view(before).push(block@));
            assert(self.uses()[k as int].0 == id@);
        }
        ev
    }

    /// The user message that carries the results of all the tool uses.
    pub fn into_message(self) -> (m: Message)
        requires
            self.wf(),
            self.results().len() == self.uses().len(),
        ensures
            m@ == (MessageView { role: Role::User, content: self.results() }),
    {
        Message { role: Role::User, content: self.results }
    }
}

impl<T> QueryEngine<T> {
    /// Ends a reply: adds it to the conversation as an assistant message, and when it
    /// holds tool uses that ask for a follow-up, gives the round that answers them.
    pub fn finish_reply(&mut self, reply: TurnAssembler) -> (r: Option<ToolRound>)
        requires
            old(self).wf(),
        ensures
            final(self).wf(),
            final(self).tools() == old(self).tools(),
            final(self).model() == old(self).model(),
            final(self).system() == old(self).system(),
            final(self).conversation() == old(self).conversation().push(
                MessageView { role: Role::Assistant, content: reply@.blocks },
            ),
            r is Some <==> reply@.followup,
            r matches Some(round) ==> (round.wf() && round.results() == Seq::<BlockView>::empty()
                && round.uses() == tool_uses(reply@.blocks)),
    {
        let (blocks, followup) = reply.finish();
        let round = ToolRound::new(&blocks);
        let m = Message { role: Role::Assistant, content: blocks };
        let ghost before = self.messages@;
        self.messages.push(m);
        assert(messages_view(self.messages@) =~= messages_view(before).push(m@));
        if followup { Some(round) } else { None }
    }

    /// Adds the results of a finished round to the conversation, as a user message.
    pub fn record_tool_results(&mut self, round: ToolRound)
        requires
            old(self).wf(),
            round.wf(),
            round.results().len() == round.uses().len(),
        ensures
            final(self).wf(),
            final(self).tools() == old(self).tools(),
            final(self).model() == old(self).model(),
            final(self).system() == old(self).system(),
            final(self).conversation() == old(self).conversation().push(
                MessageView { role: Role::User, content: round.results() },
            ),
    {
        let m = round.into_message();
        let ghost before = self.messages@;
        self.messages.push(m);
        assert(messages_view(self.messages@) =~= messages_view(before).push(m@));
    }
}

/// The error a failed API call ends the turn with.
pub fn api_error_message(body: &str) -> (s: String)
    ensures
        s@ == "API Error: "@ + body@,
{
    prefixed("API Error: ", body)
}


proof fn lemma_tool_uses_nonempty(bs: Seq<BlockView>)
    ensures
        tool_uses(bs).len() > 0 <==> (exists|i: int| 0 <= i < bs.len() && bs[i] is ToolUse),
    decreases bs.len(),
{
    if bs.len() > 0 {
        lemma_tool_uses_nonempty(bs.drop_last());
        if exists|i: int| 0 <= i < bs.len() && bs[i] is ToolUse {
            let i = choose|i: int| 0 <= i < bs.len() && bs[i] is ToolUse;
            if i < bs.len() - 1 {
                assert(bs.drop_last()[i] is ToolUse);
            }
        }
        if exists|i: int| 0 <= i < bs.len() - 1 && bs.drop_last()[i] is ToolUse {
            let i = choose|i: int| 0 <= i < bs.len() - 1 && bs.drop_last()[i] is ToolUse;
            assert(bs[i] is ToolUse);
        }
    }
}

/// Every tool use to answer is a tool-use block of the reply, with that block's own id,
/// name and input.
pub proof fn lemma_tool_uses_come_from_blocks(bs: Seq<BlockView>, i: int)
    requires
        0 <= i < tool_uses(bs).len(),
    ensures
        exists|j: int| 0 <= j < bs.len()
            && bs[j] == BlockView::ToolUse(tool_uses(bs)[i].0, tool_uses(bs)[i].1, tool_uses(bs)[i].2),
    decreases bs.len(),
{
    let p = bs.drop_last();
    if i < tool_uses(p).len() {
        lemma_tool_uses_come_from_blocks(p, i);
        let j = choose|j: int| 0 <= j < p.len()
            && p[j] == BlockView::ToolUse(tool_uses(p)[i].0, tool_uses(p)[i].1, tool_uses(p)[i].2);
        assert(bs[j] == p[j]);
    } else {
        assert(bs[bs.len() - 1] == bs.last());
    }
}

/// Every tool-use block of the reply is answered, with its own id, name and input, at the
/// position given by the tool-use blocks before it: the uses keep the blocks' order.
pub proof fn lemma_tool_blocks_become_uses(bs: Seq<BlockView>, j: int)
    requires
        0 <= j < bs.len(),
        bs[j] is ToolUse,
    ensures
        tool_uses(bs.subrange(0, j)).len() < tool_uses(bs).len(),
        tool_uses(bs)[tool_uses(bs.subrange(0, j)).len() as int]
            == (bs[j]->ToolUse_0, bs[j]->ToolUse_1, bs[j]->ToolUse_2),
    decreases bs.len(),
{
    let p = bs.drop_last();
    if j < bs.len() - 1 {
        assert(p[j] == bs[j]);
        lemma_tool_blocks_become_uses(p, j);
        assert(bs.subrange(0, j) =~= p.subrange(0, j));
        let k = tool_uses(p.subrange(0, j)).len() as int;
        assert(tool_uses(bs)[k] == tool_uses(p)[k]);
    } else {
        assert(bs.subrange(0, j) =~= p);
    }
}

/// Every kind of block counts with the tokens of its own text: a text block with its
/// text, a tool use with its input, a tool result with its content.
pub proof fn lemma_each_block_counts_its_text(
    bs: Seq<BlockView>,
    text: Seq<char>,
    id: Seq<char>,
    name: Seq<char>,
    input: Seq<char>,
    content: Seq<char>,
    is_error: Option<bool>,
)
    ensures
        blocks_tokens(bs.push(BlockView::Text(text))) == blocks_tokens(bs) + cl100k_token_count(text),
        blocks_tokens(bs.push(BlockView::ToolUse(id, name, input))) == blocks_tokens(bs) + cl100k_token_count(input),
        blocks_tokens(bs.push(BlockView::ToolResult(id, content, is_error)))
            == blocks_tokens(bs) + cl100k_token_count(content),
{
    assert(bs.push(BlockView::Text(text)).drop_last() =~= bs);
    assert(bs.push(BlockView::ToolUse(id, name, input)).drop_last() =~= bs);
    assert(bs.push(BlockView::ToolResult(id, content, is_error)).drop_last() =~= bs);
}

/// The tokens of blocks add up: two runs of blocks together count what each counts.
pub proof fn lemma_blocks_tokens_add(a: Seq<BlockView>, b: Seq<BlockView>)
    ensures
        blocks_tokens(a + b) == blocks_tokens(a) + blocks_tokens(b),
    decreases b.len(),
{
    if b.len() == 0 {
        assert(a + b =~= a);
    } else {
        lemma_blocks_tokens_add(a, b.drop_last());
        assert((a + b).drop_last() =~= a + b.drop_last());
        assert((a + b).last() == b.last());
    }
}

/// The tokens of a conversation add up too: a further message adds the tokens of its
/// blocks.
pub proof fn lemma_messages_tokens_push(ms: Seq<MessageView>, m: MessageView)
    ensures
        messages_tokens(ms.push(m)) == messages_tokens(ms) + blocks_tokens(m.content),
{
    assert(ms.push(m).drop_last() =~= ms);
}

/// A well-formed reply asks for a follow-up exactly when it holds tool uses to answer;
/// so the engine starts a round of tool results exactly then.
pub proof fn lemma_followup_iff_tool_uses(s: crate::stream::TurnState)
    requires
        crate::stream::turn_well_formed(s),
    ensures
        s.followup <==> tool_uses(s.blocks).len() > 0,
{
    lemma_tool_uses_nonempty(s.blocks);
}

/// Compaction never lengthens the conversation, and it keeps the newest messages as they
/// were: the newer half (rounded up) follows the marker unchanged.
pub proof fn lemma_compaction_keeps_newest(ms: Seq<MessageView>)
    ensures
        compacted(ms).len() <= ms.len(),
        ms.len() > 2 ==> compacted(ms).len() == ms.len() - ms.len() / 2 + 1
            && compacted(ms).subrange(1, compacted(ms).len() as int)
                == ms.subrange((ms.len() / 2) as int, ms.len() as int),
{
    if ms.len() > 2 {
        let c = compacted(ms);
        assert(c.subrange(1, c.len() as int) =~= ms.subrange((ms.len() / 2) as int, ms.len() as int));
    }
}

/// Once a round over a reply's tool uses is done, its results answer those uses one for
/// one and in order: the `i`-th result carries the id of the `i`-th tool use.
pub proof fn lemma_round_answers_uses(round: ToolRound, blocks: Seq<BlockView>)
    requires
        round.wf(),
        round.uses() == tool_uses(blocks),
        round.results().len() == round.uses().len(),
    ensures
        round.results().len() == tool_uses(blocks).len(),
        forall|i: int| 0 <= i < tool_uses(blocks).len() ==>
            (#[trigger] round.results()[i]) is ToolResult && round.results()[i]->ToolResult_0 == tool_uses(blocks)[i].0,
{
}

} // verus!
