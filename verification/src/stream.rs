//! Reading a streamed reply: server-sent-event framing, and the assembly of the
//! reply's content blocks from its events.
use vstd::prelude::*;
use vstd::string::*;
use vstd::utf8::{valid_utf8, decode_utf8};
use crate::api::{BlockView, ContentBlock, blocks_view};
use crate::text::{opt_view, has_prefix, lines_of, text_lines, starts_with_text, text_after, same_text, is_text};

verus! {

/// The text that `String::from_utf8_lossy` makes of `bytes`.
pub uninterp spec fn utf8_lossy(bytes: Seq<u8>) -> Seq<char>;

/// `String::from_utf8_lossy`: decodes `bytes`, with each invalid sequence replaced by
/// U+FFFD. Claimed: the result is a function of the bytes alone, and valid UTF-8 is
/// decoded as it stands (the std documentation says so). The replacement rule itself is
/// not stated.
#[verifier::external_body]
pub(crate) fn decode_lossy(bytes: &[u8]) -> (s: String)
    ensures
        s@ == utf8_lossy(bytes@),
        valid_utf8(bytes@) ==> s@ == decode_utf8(bytes@),
{
    String::from_utf8_lossy(bytes).into_owned()
}

/// The compact JSON text of the value that `text` holds, if `text` is JSON.
pub uninterp spec fn compact_json(text: Seq<char>) -> Option<Seq<char>>;

/// `serde_json::from_str::<serde_json::Value>` followed by `Value`'s `Display`
/// (compact serialization). Claimed: the result is `None` exactly when parsing fails,
/// and otherwise a function of the text alone; what the text is is not stated.
#[verifier::external_body]
pub(crate) fn parse_compact_json(text: &str) -> (r: Option<String>)
    ensures
        match r {
            Some(s) => compact_json(text@) == Some(s@),
            None => compact_json(text@) is None,
        },
{
    serde_json::from_str::<serde_json::Value>(text).ok().map(|v| v.to_string())
}

/// The payloads of the `data: ` lines, up to a `[DONE]` payload, which ends them.
pub open spec fn sse_payloads(lines: Seq<Seq<char>>) -> Seq<Seq<char>>
    decreases lines.len(),
{
    if lines.len() == 0 {
        Seq::empty()
    } else {
        let line = lines[0];
        if has_prefix(line, "data: "@) {
            let data = line.subrange("data: "@.len() as int, line.len() as int);
            if data == "[DONE]"@ {
                Seq::empty()
            } else {
                seq![data] + sse_payloads(lines.drop_first())
            }
        } else {
            sse_payloads(lines.drop_first())
        }
    }
}

/// The event payloads that one chunk of a streamed reply carries: the chunk is decoded
/// (invalid UTF-8 replaced), split into lines, and the payloads of its `data: ` lines are
/// kept up to a `[DONE]` payload.
pub open spec fn chunk_payloads_of(chunk: Seq<u8>) -> Seq<Seq<char>> {
    sse_payloads(lines_of(utf8_lossy(chunk)))
}

/// Extracts the event payloads of one chunk of a streamed reply.
pub fn chunk_payloads(chunk: &[u8]) -> (r: Vec<String>)
    ensures
        r@.len() == chunk_payloads_of(chunk@).len(),
        forall|i: int| 0 <= i < r@.len() ==> #[trigger] r@[i]@ == chunk_payloads_of(chunk@)[i],
{
    let text = decode_lossy(chunk);
    let lines = text_lines(text.as_str());
    let ghost all = lines_of(text@);
    let mut out: Vec<String> = Vec::new();
    let mut i: usize = 0;
    let mut stopped = false;
    proof {
        assert(all.subrange(0, all.len() as int) =~= all);
        assert(out@.map_values(|s: String| s@) + sse_payloads(all) =~= sse_payloads(all));
    }
    while i < lines.len() && !stopped
        invariant
            all == lines_of(utf8_lossy(chunk@)),
            lines@.len() == all.len(),
            forall|k: int| 0 <= k < lines@.len() ==> #[trigger] lines@[k]@ == all[k],
            i <= lines@.len(),
            stopped ==> sse_payloads(all.subrange(i as int, all.len() as int)) == Seq::<Seq<char>>::empty(),
            out@.map_values(|s: String| s@) + sse_payloads(all.subrange(i as int, all.len() as int))
                == sse_payloads(all),
        decreases lines@.len() - i + (if stopped { 0int } else { 1int }),
    {
        let line = &lines[i];
        let ghost rest = all.subrange(i as int, all.len() as int);
        proof {
            assert(rest[0] == line@);
            assert(rest.drop_first() =~= all.subrange(i + 1, all.len() as int));
        }
        if starts_with_text(line.as_str(), "data: ") {
            let data = text_after(line.as_str(), "data: ".unicode_len());
            if same_text(data.as_str(), "[DONE]") {
                stopped = true;
            } else {
                proof {
                    assert(out@.push(data).map_values(|s: String| s@)
                        =~= out@.map_values(|s: String| s@).push(data@));
                    assert(out@.map_values(|s: String| s@).push(data@) + sse_payloads(rest.drop_first())
                        =~= out@.map_values(|s: String| s@) + (seq![data@] + sse_payloads(rest.drop_first())));
                }
                out.push(data);
                i = i + 1;
            }
        } else {
            i = i + 1;
        }
    }
    proof {
        if !stopped {
            assert(all.subrange(i as int, all.len() as int).len() == 0);
        }
        assert(out@.map_values(|s: String| s@) + Seq::<Seq<char>>::empty()
            =~= out@.map_values(|s: String| s@));
        assert(out@.map_values(|s: String| s@) == chunk_payloads_of(chunk@));
        assert forall|k: int| 0 <= k < out@.len() implies #[trigger] out@[k]@ == chunk_payloads_of(chunk@)[k] by {
            assert(out@.map_values(|s: String| s@)[k] == out@[k]@);
        }
    }
    out
}


/// The fields of a streamed event's JSON that the assembly reads: `type`,
/// `content_block.type`, `content_block.id`, `content_block.name`, `delta.type`,
/// `delta.text` and `delta.partial_json`, each where it is a string.
#[derive(Debug)]
pub struct StreamEvent {
    pub event_type: Option<String>,
    pub block_type: Option<String>,
    pub block_id: Option<String>,
    pub block_name: Option<String>,
    pub delta_type: Option<String>,
    pub delta_text: Option<String>,
    pub delta_partial_json: Option<String>,
}

/// The string that the JSON object held by `payload` has at `key`, if `payload` is JSON
/// and holds a string there.
pub uninterp spec fn json_text_at(payload: Seq<char>, key: Seq<char>) -> Option<Seq<char>>;

/// The string that the JSON object held by `payload` has at `key` and then `sub`, if
/// `payload` is JSON and holds a string there.
pub uninterp spec fn json_text_within(payload: Seq<char>, key: Seq<char>, sub: Seq<char>) -> Option<Seq<char>>;

/// `serde_json::from_str::<serde_json::Value>(payload)`, then `value[key].as_str()`.
/// Claimed: the result is a function of the payload and the key.
#[verifier::external_body]
fn json_text_field(payload: &str, key: &str) -> (r: Option<String>)
    ensures
        opt_view(r) == json_text_at(payload@, key@),
{
    serde_json::from_str::<serde_json::Value>(payload).ok().and_then(|v| v[key].as_str().map(String::from))
}

/// `serde_json::from_str::<serde_json::Value>(payload)`, then `value[key][sub].as_str()`.
/// Claimed: the result is a function of the payload and the two keys.
#[verifier::external_body]
fn json_text_subfield(payload: &str, key: &str, sub: &str) -> (r: Option<String>)
    ensures
        opt_view(r) == json_text_within(payload@, key@, sub@),
{
    serde_json::from_str::<serde_json::Value>(payload).ok().and_then(|v| v[key][sub].as_str().map(String::from))
}

/// The event that a stream payload carries: each field that the assembly reads is the
/// string at its place in the payload's JSON (`type`; `content_block`'s `type`, `id` and
/// `name`; `delta`'s `type`, `text` and `partial_json`), absent where there is none, and
/// absent everywhere when the payload is not JSON.
pub fn stream_event_of(payload: &str) -> (ev: StreamEvent)
    ensures
        opt_view(ev.event_type) == json_text_at(payload@, "type"@),
        opt_view(ev.block_type) == json_text_within(payload@, "content_block"@, "type"@),
        opt_view(ev.block_id) == json_text_within(payload@, "content_block"@, "id"@),
        opt_view(ev.block_name) == json_text_within(payload@, "content_block"@, "name"@),
        opt_view(ev.delta_type) == json_text_within(payload@, "delta"@, "type"@),
        opt_view(ev.delta_text) == json_text_within(payload@, "delta"@, "text"@),
        opt_view(ev.delta_partial_json) == json_text_within(payload@, "delta"@, "partial_json"@),
{
    StreamEvent {
        event_type: json_text_field(payload, "type"),
        block_type: json_text_subfield(payload, "content_block", "type"),
        block_id: json_text_subfield(payload, "content_block", "id"),
        block_name: json_text_subfield(payload, "content_block", "name"),
        delta_type: json_text_subfield(payload, "delta", "type"),
        delta_text: json_text_subfield(payload, "delta", "text"),
        delta_partial_json: json_text_subfield(payload, "delta", "partial_json"),
    }
}

/// The optional text is present and equal to `lit`.
pub open spec fn is_lit(o: Option<String>, lit: Seq<char>) -> bool {
    o is Some && o->0@ == lit
}

/// The optional text, or the empty text when it is absent.
pub open spec fn text_or_empty(o: Option<String>) -> Seq<char> {
    match o {
        Some(t) => t@,
        None => Seq::empty(),
    }
}

/// The input recorded for a tool use whose streamed input JSON is `raw`: its compact
/// form, or `{}` when it is not JSON.
pub open spec fn tool_input_text(raw: Seq<char>) -> Seq<char> {
    match compact_json(raw) {
        Some(j) => j,
        None => "{}"@,
    }
}

/// The state of a reply being assembled: the pending text, the pending tool use (id,
/// name, input JSON so far), the finished blocks, and whether a tool use was finished.
pub struct TurnState {
    pub text: Seq<char>,
    pub id: Seq<char>,
    pub name: Seq<char>,
    pub input: Seq<char>,
    pub blocks: Seq<BlockView>,
    pub followup: bool,
}

/// What an event makes visible while the reply is assembled.
#[derive(Debug)]
pub enum StreamOutput {
    Nothing,
    /// A piece of the reply's text.
    Text(String),
    /// A tool use was finished; the tool's name.
    ToolStarted(String),
}

/// A `StreamOutput` with its text taken as a character sequence.
pub enum OutputView {
    Nothing,
    Text(Seq<char>),
    ToolStarted(Seq<char>),
}

impl View for StreamOutput {
    type V = OutputView;

    open spec fn view(&self) -> OutputView {
        match self {
            StreamOutput::Nothing => OutputView::Nothing,
            StreamOutput::Text(t) => OutputView::Text(t@),
            StreamOutput::ToolStarted(n) => OutputView::ToolStarted(n@),
        }
    }
}

/// The state after a `content_block_stop` event: the pending text, if any, becomes a
/// text block; then the pending tool use, if it has a name, becomes a tool-use block.
pub open spec fn stop_block(s: TurnState) -> TurnState {
    let s1 = if s.text.len() > 0 {
        TurnState { text: Seq::empty(), blocks: s.blocks.push(BlockView::Text(s.text)), ..s }
    } else {
        s
    };
    if s1.name.len() > 0 {
        TurnState {
            id: Seq::empty(),
            name: Seq::empty(),
            input: Seq::empty(),
            blocks: s1.blocks.push(BlockView::ToolUse(s1.id, s1.name, tool_input_text(s1.input))),
            followup: true,
            ..s1
        }
    } else {
        s1
    }
}

/// The state after one event of the stream.
pub open spec fn turn_step(s: TurnState, ev: StreamEvent) -> TurnState {
    if is_lit(ev.event_type, "content_block_start"@) {
        if is_lit(ev.block_type, "tool_use"@) {
            TurnState { id: text_or_empty(ev.block_id), name: text_or_empty(ev.block_name), ..s }
        } else {
            s
        }
    } else if is_lit(ev.event_type, "content_block_delta"@) {
        if is_lit(ev.delta_type, "text_delta"@) {
            match ev.delta_text {
                Some(t) => TurnState { text: s.text + t@, ..s },
                None => s,
            }
        } else if is_lit(ev.delta_type, "input_json_delta"@) {
            match ev.delta_partial_json {
                Some(p) => TurnState { input: s.input + p@, ..s },
                None => s,
            }
        } else {
            s
        }
    } else if is_lit(ev.event_type, "content_block_stop"@) {
        stop_block(s)
    } else {
        s
    }
}

/// What one event of the stream makes visible.
pub open spec fn turn_output(s: TurnState, ev: StreamEvent) -> OutputView {
    if is_lit(ev.event_type, "content_block_start"@) {
        OutputView::Nothing
    } else if is_lit(ev.event_type, "content_block_delta"@) {
        if is_lit(ev.delta_type, "text_delta"@) && ev.delta_text is Some {
            OutputView::Text(ev.delta_text->0@)
        } else {
            OutputView::Nothing
        }
    } else if is_lit(ev.event_type, "content_block_stop"@) && s.name.len() > 0 {
        OutputView::ToolStarted(s.name)
    } else {
        OutputView::Nothing
    }
}

/// Assembles the content blocks of a streamed reply from its events.
pub struct TurnAssembler {
    text: String,
    tool_use_id: String,
    tool_name: String,
    tool_input: String,
    blocks: Vec<ContentBlock>,
    requires_followup: bool,
}

impl View for TurnAssembler {
    type V = TurnState;

    closed spec fn view(&self) -> TurnState {
        TurnState {
            text: self.text@,
            id: self.tool_use_id@,
            name: self.tool_name@,
            input: self.tool_input@,
            blocks: blocks_view(self.blocks@),
            followup: self.requires_followup,
        }
    }
}

/// The state before the first event.
pub open spec fn turn_start() -> TurnState {
    TurnState {
        text: Seq::empty(),
        id: Seq::empty(),
        name: Seq::empty(),
        input: Seq::empty(),
        blocks: Seq::empty(),
        followup: false,
    }
}

impl TurnAssembler {
    /// An assembler that has seen no event.
    pub fn new() -> (r: TurnAssembler)
        ensures
            r@ == turn_start(),
    {
        let r = TurnAssembler {
            text: String::new(),
            tool_use_id: String::new(),
            tool_name: String::new(),
            tool_input: String::new(),
            blocks: Vec::new(),
            requires_followup: false,
        };
        assert(blocks_view(r.blocks@) =~= Seq::<BlockView>::empty());
        r
    }

    fn finish_block(&mut self)
        ensures
            final(self)@ == stop_block(old(self)@),
    {
        if self.text.unicode_len() > 0 {
            let t = self.text.clone();
            self.text = String::new();
            let ghost before = self.blocks@;
            self.blocks.push(ContentBlock::Text { text: t });
            assert(blocks_view(self.blocks@) =~= blocks_view(before).push(BlockView::Text(t@)));
        }
        if self.tool_name.unicode_len() > 0 {
            let id = self.tool_use_id.clone();
            self.tool_use_id = String::new();
            let name = self.tool_name.clone();
            self.tool_name = String::new();
            let raw = self.tool_input.clone();
            self.tool_input = String::new();
            let input = match parse_compact_json(raw.as_str()) {
                Some(j) => j,
                None => String::from_str("{}"),
            };
            let ghost before = self.blocks@;
            self.blocks.push(ContentBlock::ToolUse { id, name, input });
            assert(blocks_view(self.blocks@) =~= blocks_view(before).push(
                BlockView::ToolUse(id@, name@, tool_input_text(raw@))));
            self.requires_followup = true;
        }
    }

    /// Takes in one event of the stream; says what the event makes visible.
    pub fn on_event(&mut self, ev: &StreamEvent) -> (out: StreamOutput)
        ensures
            final(self)@ == turn_step(old(self)@, *ev),
            out@ == turn_output(old(self)@, *ev),
    {
        if is_text(&ev.event_type, "content_block_start") {
            if is_text(&ev.block_type, "tool_use") {
                self.tool_use_id = match &ev.block_id {
                    Some(t) => t.clone(),
                    None => String::new(),
                };
                self.tool_name = match &ev.block_name {
                    Some(t) => t.clone(),
                    None => String::new(),
                };
            }
            StreamOutput::Nothing
        } else if is_text(&ev.event_type, "content_block_delta") {
            if is_text(&ev.delta_type, "text_delta") {
                match &ev.delta_text {
                    Some(t) => {
                        self.text.append(t.as_str());
                        StreamOutput::Text(t.clone())
                    },
                    None => StreamOutput::Nothing,
                }
            } else if is_text(&ev.delta_type, "input_json_delta") {
                match &ev.delta_partial_json {
                    Some(p) => {
                        self.tool_input.append(p.as_str());
                    },
                    None => {},
                }
                StreamOutput::Nothing
            } else {
                StreamOutput::Nothing
            }
        } else if is_text(&ev.event_type, "content_block_stop") {
            let started = if self.tool_name.unicode_len() > 0 {
                StreamOutput::ToolStarted(self.tool_name.clone())
            } else {
                StreamOutput::Nothing
            };
            self.finish_block();
            started
        } else {
            StreamOutput::Nothing
        }
    }

    /// Ends the reply: its finished blocks, and whether a tool use among them asks for a
    /// follow-up request. Text still pending is dropped.
    pub fn finish(self) -> (r: (Vec<ContentBlock>, bool))
        ensures
            blocks_view(r.0@) == self@.blocks,
            r.1 == self@.followup,
    {
        (self.blocks, self.requires_followup)
    }
}

/// A reply state is well formed: it asks for a follow-up exactly when a tool use was
/// finished, no finished text block is empty, and every finished tool use has a name.
pub open spec fn turn_well_formed(s: TurnState) -> bool {
    &&& s.followup <==> (exists|i: int| 0 <= i < s.blocks.len() && s.blocks[i] is ToolUse)
    &&& forall|i: int| 0 <= i < s.blocks.len() ==> match #[trigger] s.blocks[i] {
        BlockView::Text(t) => t.len() > 0,
        BlockView::ToolUse(_, n, _) => n.len() > 0,
        BlockView::ToolResult(..) => false,
    }
}

/// Every event keeps a reply state well formed: the reply asks for a follow-up exactly
/// when it holds a tool use, it holds no empty text block, no nameless tool use, and no
/// tool result. The state before the first event is well formed.
pub proof fn lemma_turn_step_well_formed(s: TurnState, ev: StreamEvent)
    ensures
        turn_well_formed(turn_start()),
        turn_well_formed(s) ==> turn_well_formed(turn_step(s, ev)),
{
    if turn_well_formed(s) {
        let s1 = if s.text.len() > 0 {
            TurnState { text: Seq::empty(), blocks: s.blocks.push(BlockView::Text(s.text)), ..s }
        } else {
            s
        };
        if s.text.len() > 0 {
            assert forall|i: int| 0 <= i < s1.blocks.len() && s1.blocks[i] is ToolUse implies
                0 <= i < s.blocks.len() && s.blocks[i] is ToolUse by {}
            if s.followup {
                let w = choose|i: int| 0 <= i < s.blocks.len() && s.blocks[i] is ToolUse;
                assert(s1.blocks[w] is ToolUse);
            }
        }
        if s1.name.len() > 0 {
            let b = s1.blocks.push(BlockView::ToolUse(s1.id, s1.name, tool_input_text(s1.input)));
            assert(b[s1.blocks.len() as int] is ToolUse);
        }
    }
}

/// The state after the events `evs`, one after the other, from `s`.
pub open spec fn turn_run(s: TurnState, evs: Seq<StreamEvent>) -> TurnState
    decreases evs.len(),
{
    if evs.len() == 0 {
        s
    } else {
        turn_run(turn_step(s, evs[0]), evs.drop_first())
    }
}

/// `ev` starts a tool-use block with this id and (non-empty) name.
pub open spec fn starts_tool_use(ev: StreamEvent, id: Seq<char>, name: Seq<char>) -> bool {
    &&& is_lit(ev.event_type, "content_block_start"@)
    &&& is_lit(ev.block_type, "tool_use"@)
    &&& text_or_empty(ev.block_id) == id
    &&& text_or_empty(ev.block_name) == name
    &&& name.len() > 0
}

/// `ev` carries the piece `p` of a tool use's input JSON.
pub open spec fn carries_input(ev: StreamEvent, p: Seq<char>) -> bool {
    &&& is_lit(ev.event_type, "content_block_delta"@)
    &&& is_lit(ev.delta_type, "input_json_delta"@)
    &&& ev.delta_partial_json is Some
    &&& ev.delta_partial_json->0@ == p
}

/// `ev` stops the current block.
pub open spec fn stops_block(ev: StreamEvent) -> bool {
    is_lit(ev.event_type, "content_block_stop"@)
}

proof fn lemma_event_kinds_differ()
    ensures
        "content_block_start"@ != "content_block_delta"@,
        "content_block_start"@ != "content_block_stop"@,
        "content_block_delta"@ != "content_block_stop"@,
        "tool_use"@ != "text_delta"@,
        "input_json_delta"@ != "text_delta"@,
{
    reveal_strlit("content_block_start");
    reveal_strlit("content_block_delta");
    reveal_strlit("content_block_stop");
    reveal_strlit("input_json_delta");
    reveal_strlit("text_delta");
    reveal_strlit("tool_use");
    assert("content_block_start"@[14] != "content_block_delta"@[14]);
    assert("content_block_start"@.len() != "content_block_stop"@.len());
    assert("content_block_delta"@.len() != "content_block_stop"@.len());
    assert("tool_use"@.len() != "text_delta"@.len());
    assert("input_json_delta"@.len() != "text_delta"@.len());
}

/// Finishing a tool use leaves nothing of it pending: once a `content_block_stop` closes
/// a named tool use, the pending id, name, input and text are all empty, and the last
/// finished block is that tool use, with the input received for it.
pub proof fn lemma_tool_stop_clears_pending(s: TurnState, ev: StreamEvent)
    requires
        stops_block(ev),
        s.name.len() > 0,
    ensures
        turn_step(s, ev).input.len() == 0,
        turn_step(s, ev).id.len() == 0,
        turn_step(s, ev).name.len() == 0,
        turn_step(s, ev).text.len() == 0,
        turn_step(s, ev).followup,
        turn_step(s, ev).blocks.last() == BlockView::ToolUse(s.id, s.name, tool_input_text(s.input)),
{
    lemma_event_kinds_differ();
}

proof fn lemma_input_pieces_accumulate(s: TurnState, deltas: Seq<StreamEvent>, pieces: Seq<Seq<char>>)
    requires
        deltas.len() == pieces.len(),
        forall|i: int| 0 <= i < deltas.len() ==> #[trigger] carries_input(deltas[i], pieces[i]),
    ensures
        turn_run(s, deltas) == (TurnState { input: s.input + pieces.flatten(), ..s }),
    decreases deltas.len(),
{
    lemma_event_kinds_differ();
    if deltas.len() > 0 {
        assert(carries_input(deltas[0], pieces[0]));
        let s1 = turn_step(s, deltas[0]);
        assert(s1 == (TurnState { input: s.input + pieces[0], ..s }));
        assert forall|i: int| 0 <= i < deltas.drop_first().len() implies
            #[trigger] carries_input(deltas.drop_first()[i], pieces.drop_first()[i]) by {
            assert(carries_input(deltas[i + 1], pieces[i + 1]));
        }
        lemma_input_pieces_accumulate(s1, deltas.drop_first(), pieces.drop_first());
        assert(pieces.flatten() == pieces[0] + pieces.drop_first().flatten()) by {
            reveal(Seq::flatten);
        }
        assert(s.input + pieces[0] + pieces.drop_first().flatten() =~= s.input + pieces.flatten());
    }
}

proof fn lemma_turn_run_append(s: TurnState, a: Seq<StreamEvent>, b: Seq<StreamEvent>)
    ensures
        turn_run(s, a + b) == turn_run(turn_run(s, a), b),
    decreases a.len(),
{
    if a.len() > 0 {
        assert((a + b).drop_first() =~= a.drop_first() + b);
        assert((a + b)[0] == a[0]);
        lemma_turn_run_append(turn_step(s, a[0]), a.drop_first(), b);
    }
}

/// A tool use's input is made of its own pieces only: from a state with no pending tool
/// input and no pending text, a tool use started with `id` and `name`, then the input
/// pieces `pieces`, then a stop, adds the one block `ToolUse(id, name, input)` where
/// `input` is the compact JSON of the pieces joined (or `{}` when they are not JSON), and
/// leaves no input pending for the next tool use.
pub proof fn lemma_tool_use_input_is_its_own(
    s: TurnState,
    start: StreamEvent,
    id: Seq<char>,
    name: Seq<char>,
    deltas: Seq<StreamEvent>,
    pieces: Seq<Seq<char>>,
    stop: StreamEvent,
)
    requires
        s.input.len() == 0,
        s.text.len() == 0,
        starts_tool_use(start, id, name),
        deltas.len() == pieces.len(),
        forall|i: int| 0 <= i < deltas.len() ==> #[trigger] carries_input(deltas[i], pieces[i]),
        stops_block(stop),
    ensures
        turn_run(s, seq![start] + deltas + seq![stop]).blocks
            == s.blocks.push(BlockView::ToolUse(id, name, tool_input_text(pieces.flatten()))),
        turn_run(s, seq![start] + deltas + seq![stop]).input.len() == 0,
        turn_run(s, seq![start] + deltas + seq![stop]).followup,
{
    lemma_event_kinds_differ();
    let s1 = turn_step(s, start);
    assert(turn_run(s, seq![start]) == s1) by {
        assert(seq![start].drop_first() =~= Seq::<StreamEvent>::empty());
        assert(turn_run(s1, seq![start].drop_first()) == s1);
    }
    lemma_turn_run_append(s, seq![start], deltas);
    lemma_input_pieces_accumulate(s1, deltas, pieces);
    let s2 = turn_run(s1, deltas);
    assert(s2.input =~= pieces.flatten());
    lemma_turn_run_append(s, seq![start] + deltas, seq![stop]);
    assert(turn_run(s2, seq![stop]) == turn_step(s2, stop)) by {
        assert(seq![stop].drop_first() =~= Seq::<StreamEvent>::empty());
        assert(turn_run(turn_step(s2, stop), seq![stop].drop_first()) == turn_step(s2, stop));
    }
}

} // verus!
