//! The interactive session's state: the transcript, the input line, whether a reply is
//! awaited, and a pending permission question; how engine events and keys change it.
use vstd::prelude::*;
use vstd::string::*;
use crate::engine::EngineEvent;
use crate::text::{prefixed, texts, has_prefix, replace_all, replace_occurrences, chars_of, starts_with_text, push_char, pop_char, split_on, split_text};

verus! {

/// The state of the interactive session.
pub struct App {
    /// The name the assistant's lines are shown under.
    pub speaker: String,
    pub input: String,
    pub messages: Vec<String>,
    pub is_processing: bool,
    /// The tool and its input that wait for the user's permission.
    pub pending_permission: Option<(String, String)>,
}

/// The pending permission question with its texts as character sequences.
pub open spec fn pending_view(p: Option<(String, String)>) -> Option<(Seq<char>, Seq<char>)> {
    match p {
        Some((a, b)) => Some((a@, b@)),
        None => None,
    }
}

/// The mark that begins the assistant's lines: its name and a colon.
pub open spec fn speaker_mark(speaker: Seq<char>) -> Seq<char> {
    speaker + ": "@
}

/// The transcript after a piece of reply text arrives: the piece loses its line breaks and
/// extends the last line when that line is the assistant's, else it starts a new line of
/// the assistant's.
pub open spec fn with_reply_text(ms: Seq<Seq<char>>, speaker: Seq<char>, piece: Seq<char>) -> Seq<Seq<char>> {
    let t = replace_all(piece, seq!['\n'], Seq::empty());
    if ms.len() > 0 && has_prefix(ms.last(), speaker_mark(speaker)) {
        ms.drop_last().push(ms.last() + t)
    } else {
        ms.push(speaker_mark(speaker) + t)
    }
}

/// A key the session reacts to.
#[derive(PartialEq, Eq, Structural, Clone, Copy, Debug)]
pub enum Key {
    Char(char),
    Backspace,
    Enter,
    Esc,
    Other,
}

/// What a key asks the caller to do.
#[derive(Debug)]
pub enum KeyAction {
    Nothing,
    /// Send this prompt to the engine.
    Submit(String),
    /// Answer the pending permission question.
    Permission(bool),
    /// Leave the session.
    Quit,
}

/// The key answers a pending permission question with yes.
pub open spec fn is_yes(k: Key) -> bool {
    k == Key::Char('y') || k == Key::Char('Y')
}

/// The key answers a pending permission question with no.
pub open spec fn is_no(k: Key) -> bool {
    k == Key::Char('n') || k == Key::Char('N') || k == Key::Esc || k == Key::Enter
}

impl App {
    /// The transcript's lines.
    pub open spec fn transcript(&self) -> Seq<Seq<char>> {
        texts(self.messages@)
    }

    /// A session that shows the `welcome` line and the assistant's lines under `speaker`,
    /// with an empty input, nothing awaited or pending.
    pub fn new(welcome: String, speaker: String) -> (r: App)
        ensures
            r.speaker@ == speaker@,
            r.input@ == Seq::<char>::empty(),
            r.transcript() == seq![welcome@],
            !r.is_processing,
            r.pending_permission is None,
    {
        let mut messages: Vec<String> = Vec::new();
        messages.push(welcome);
        let r = App { speaker, input: String::new(), messages, is_processing: false, pending_permission: None };
        assert(r.transcript() =~= seq![welcome@]);
        r
    }

    fn push_line(&mut self, line: String)
        ensures
            final(self).transcript() == old(self).transcript().push(line@),
            final(self).input == old(self).input,
            final(self).speaker == old(self).speaker,
            final(self).is_processing == old(self).is_processing,
            final(self).pending_permission == old(self).pending_permission,
    {
        let ghost before = self.messages@;
        self.messages.push(line);
        assert(texts(self.messages@) =~= texts(before).push(line@));
    }

    /// Shows an engine event: reply text joins the assistant's line, a started tool, a tool error
    /// and an API error get a line of their own, the end of a turn or an API error ends the
    /// wait, and a permission request becomes the pending question. A finished tool and a
    /// compaction show nothing.
    pub fn apply_engine_event(&mut self, ev: EngineEvent)
        ensures
            match ev {
                EngineEvent::TextDelta(t) => final(self).transcript() == with_reply_text(old(self).transcript(), old(self).speaker@, t@)
                    && final(self).is_processing == old(self).is_processing
                    && final(self).pending_permission == old(self).pending_permission,
                EngineEvent::ToolExecutionStarted(n) =>
                    final(self).transcript() == old(self).transcript().push("[Running Tool: "@ + n@ + "]"@)
                    && final(self).is_processing == old(self).is_processing
                    && final(self).pending_permission == old(self).pending_permission,
                EngineEvent::ToolExecutionError(n, e) =>
                    final(self).transcript() == old(self).transcript().push("[Tool Error "@ + n@ + "]: "@ + e@)
                    && final(self).is_processing == old(self).is_processing
                    && final(self).pending_permission == old(self).pending_permission,
                EngineEvent::TurnCompleted => final(self).transcript() == old(self).transcript()
                    && !final(self).is_processing
                    && final(self).pending_permission == old(self).pending_permission,
                EngineEvent::Error(e) => final(self).transcript() == old(self).transcript().push("API Error: "@ + e@)
                    && !final(self).is_processing
                    && final(self).pending_permission == old(self).pending_permission,
                EngineEvent::PermissionRequested(n, i) => final(self).transcript() == old(self).transcript()
                    && final(self).is_processing == old(self).is_processing
                    && pending_view(final(self).pending_permission) == Some((n@, i@)),
                _ => final(self).transcript() == old(self).transcript()
                    && final(self).is_processing == old(self).is_processing
                    && final(self).pending_permission == old(self).pending_permission,
            },
            final(self).input == old(self).input,
            final(self).speaker == old(self).speaker,
    {
        match ev {
            EngineEvent::TextDelta(text) => {
                let newline: Vec<char> = vec!['\n'];
                let t = replace_occurrences(&chars_of(text.as_str()), &newline, "");
                proof {
                    reveal_strlit("");
                    assert(""@ =~= Seq::<char>::empty());
                    assert(newline@ =~= seq!['\n']);
                    assert(t@ == replace_all(text@, seq!['\n'], Seq::empty()));
                }
                let mark = prefixed(self.speaker.as_str(), ": ");
                let n = self.messages.len();
                proof {
                    if n > 0 {
                        assert(self.transcript().last() == self.messages@[n - 1]@);
                    }
                }
                if n > 0 && starts_with_text(self.messages[n - 1].as_str(), mark.as_str()) {
                    let mut last = self.messages[n - 1].clone();
                    last.append(t.as_str());
                    let ghost before = self.messages@;
                    self.messages.set(n - 1, last);
                    proof {
                        assert(texts(self.messages@) =~= texts(before).drop_last().push(before.last()@ + t@));
                    }
                } else {
                    let mut line = mark;
                    line.append(t.as_str());
                    self.push_line(line);
                }
            },
            EngineEvent::ToolExecutionStarted(name) => {
                let mut line = prefixed("[Running Tool: ", name.as_str());
                line.append("]");
                self.push_line(line);
            },
            EngineEvent::ToolExecutionError(name, err) => {
                let mut line = prefixed("[Tool Error ", name.as_str());
                line.append("]: ");
                line.append(err.as_str());
                self.push_line(line);
            },
            EngineEvent::TurnCompleted => {
                self.is_processing = false;
            },
            EngineEvent::Error(err) => {
                self.push_line(prefixed("API Error: ", err.as_str()));
                self.is_processing = false;
            },
            EngineEvent::PermissionRequested(name, input) => {
                self.pending_permission = Some((name, input));
            },
            _ => {},
        }
    }

    /// Reacts to a key. With a permission question pending, y/Y allows and n/N, Esc or
    /// Enter denies, and the answer is noted in the transcript; other keys edit the input
    /// as usual. Enter submits a non-empty input when no reply is awaited; Esc quits.
    pub fn handle_key(&mut self, key: Key) -> (a: KeyAction)
        ensures
            final(self).speaker == old(self).speaker,
            old(self).pending_permission is Some && (key == Key::Char('y') || key == Key::Char('Y'))
                ==> (a matches KeyAction::Permission(true) && final(self).pending_permission is None),
            old(self).pending_permission is Some && (key == Key::Char('n') || key == Key::Char('N'))
                ==> (a matches KeyAction::Permission(false) && final(self).pending_permission is None),
            old(self).pending_permission is Some && is_yes(key) ==> (a matches KeyAction::Permission(true)
                && final(self).pending_permission is None
                && final(self).transcript() == old(self).transcript().push("[User Allowed Tool Execution]"@)
                && final(self).input == old(self).input
                && final(self).is_processing == old(self).is_processing),
            old(self).pending_permission is Some && is_no(key) ==> (a matches KeyAction::Permission(false)
                && final(self).pending_permission is None
                && final(self).transcript() == old(self).transcript().push("[User Denied Tool Execution]"@)
                && final(self).input == old(self).input
                && final(self).is_processing == old(self).is_processing),
            !(old(self).pending_permission is Some && (is_yes(key) || is_no(key))) ==> {
                &&& final(self).pending_permission == old(self).pending_permission
                &&& match key {
                    Key::Char(c) => a is Nothing && final(self).input@ == old(self).input@.push(c)
                        && final(self).transcript() == old(self).transcript()
                        && final(self).is_processing == old(self).is_processing,
                    Key::Backspace => a is Nothing
                        && final(self).input@ == (if old(self).input@.len() > 0 { old(self).input@.drop_last() } else { old(self).input@ })
                        && final(self).transcript() == old(self).transcript()
                        && final(self).is_processing == old(self).is_processing,
                    Key::Enter => if old(self).input@.len() > 0 && !old(self).is_processing {
                        (a matches KeyAction::Submit(m) && m@ == old(self).input@)
                        && final(self).input@ == Seq::<char>::empty()
                        && final(self).transcript() == old(self).transcript().push("You: "@ + old(self).input@)
                        && final(self).is_processing
                    } else {
                        a is Nothing && final(self).input == old(self).input
                        && final(self).transcript() == old(self).transcript()
                        && final(self).is_processing == old(self).is_processing
                    },
                    Key::Esc => a is Quit && final(self).input == old(self).input
                        && final(self).transcript() == old(self).transcript()
                        && final(self).is_processing == old(self).is_processing,
                    Key::Other => a is Nothing && final(self).input == old(self).input
                        && final(self).transcript() == old(self).transcript()
                        && final(self).is_processing == old(self).is_processing,
                }
            },
    {
        if self.pending_permission.is_some() {
            let yes = key == Key::Char('y') || key == Key::Char('Y');
            let no = key == Key::Char('n') || key == Key::Char('N') || key == Key::Esc || key == Key::Enter;
            if yes {
                self.pending_permission = None;
                self.push_line(String::from_str("[User Allowed Tool Execution]"));
                return KeyAction::Permission(true);
            }
            if no {
                self.pending_permission = None;
                self.push_line(String::from_str("[User Denied Tool Execution]"));
                return KeyAction::Permission(false);
            }
        }
        match key {
            Key::Char(c) => {
                push_char(&mut self.input, c);
                KeyAction::Nothing
            },
            Key::Backspace => {
                pop_char(&mut self.input);
                KeyAction::Nothing
            },
            Key::Enter => {
                if self.input.unicode_len() > 0 && !self.is_processing {
                    let msg = self.input.clone();
                    self.input = String::new();
                    self.push_line(prefixed("You: ", msg.as_str()));
                    self.is_processing = true;
                    KeyAction::Submit(msg)
                } else {
                    KeyAction::Nothing
                }
            },
            Key::Esc => KeyAction::Quit,
            Key::Other => KeyAction::Nothing,
        }
    }

    /// The transcript as display lines: every line split at its line breaks.
    pub fn transcript_lines(&self) -> (r: Vec<String>)
        ensures
            texts(r@) == self.transcript().map_values(|m: Seq<char>| split_on(m, '\n')).flatten(),
    {
        let mut out: Vec<String> = Vec::new();
        let mut i: usize = 0;
        while i < self.messages.len()
            invariant
                i <= self.messages@.len(),
                texts(out@) == self.transcript().subrange(0, i as int).map_values(|m: Seq<char>| split_on(m, '\n')).flatten(),
            decreases self.messages@.len() - i,
        {
            let pieces = split_text(self.messages[i].as_str(), '\n');
            let ghost before = out@;
            let mut j: usize = 0;
            while j < pieces.len()
                invariant
                    j <= pieces@.len(),
                    texts(out@) == texts(before) + texts(pieces@).subrange(0, j as int),
                decreases pieces@.len() - j,
            {
                let ghost prev = out@;
                out.push(pieces[j].clone());
                proof {
                    assert(texts(out@) =~= texts(prev).push(pieces@[j as int]@));
                    assert(texts(pieces@).subrange(0, j + 1) =~= texts(pieces@).subrange(0, j as int).push(pieces@[j as int]@));
                }
                j = j + 1;
            }
            proof {
                let ms = self.transcript();
                let f = |m: Seq<char>| split_on(m, '\n');
                assert(texts(pieces@).subrange(0, pieces@.len() as int) =~= texts(pieces@));
                assert(ms.subrange(0, i + 1) =~= ms.subrange(0, i as int).push(ms[i as int]));
                assert(ms.subrange(0, i + 1).map_values(f) =~= ms.subrange(0, i as int).map_values(f).push(f(ms[i as int])));
                ms.subrange(0, i as int).map_values(f).lemma_flatten_push(f(ms[i as int]));
            }
            i = i + 1;
        }
        assert(self.transcript().subrange(0, self.messages@.len() as int) =~= self.transcript());
        out
    }

    /// The input box's title: it says whether the engine waits on a permission question,
    /// and otherwise whether the assistant is replying.
    pub fn input_title(&self) -> (s: String)
        ensures
            self.pending_permission is Some ==> s@ == " Engine Suspended "@,
            self.pending_permission is None && self.is_processing ==> s@ == " "@ + self.speaker@ + " is typing... "@,
            self.pending_permission is None && !self.is_processing
                ==> s@ == " Input (Press Enter to submit, Esc to quit) "@,
    {
        if self.pending_permission.is_some() {
            String::from_str(" Engine Suspended ")
        } else if self.is_processing {
            let mut s = prefixed(" ", self.speaker.as_str());
            s.append(" is typing... ");
            s
        } else {
            String::from_str(" Input (Press Enter to submit, Esc to quit) ")
        }
    }
}

/// A row of the screen's vertical layout.
#[derive(PartialEq, Eq, Structural, Clone, Copy, Debug)]
pub enum Row {
    /// At least this many lines.
    Min(u16),
    /// Exactly this many lines.
    Length(u16),
}

impl App {
    /// The screen's rows, top to bottom: the transcript (at least 3 lines), the permission
    /// question (6 lines) when one is pending, and the input box (3 lines).
    pub fn layout_rows(&self) -> (r: Vec<Row>)
        ensures
            self.pending_permission is Some ==> r@ == seq![Row::Min(3), Row::Length(6), Row::Length(3)],
            self.pending_permission is None ==> r@ == seq![Row::Min(3), Row::Length(3)],
    {
        let mut r: Vec<Row> = Vec::new();
        r.push(Row::Min(3));
        r.push(Row::Length(3));
        if self.pending_permission.is_some() {
            r.insert(1, Row::Length(6));
            assert(r@ =~= seq![Row::Min(3), Row::Length(6), Row::Length(3)]);
        } else {
            assert(r@ =~= seq![Row::Min(3), Row::Length(3)]);
        }
        r
    }

    /// The lines of the pending permission question, if one is pending: the warning that
    /// names the tool, an "Input:" label, the tool's input, and the question.
    pub fn permission_lines(&self) -> (r: Option<Vec<String>>)
        ensures
            match self.pending_permission {
                None => r is None,
                Some((n, i)) => r matches Some(v) && texts(v@) == seq![
                    "Danger: Tool '"@ + n@ + "' requested permission to run."@,
                    "Input:"@,
                    i@,
                    "Do you want to allow this? [y/N]"@,
                ],
            },
    {
        match &self.pending_permission {
            None => None,
            Some((name, input)) => {
                let mut warning = prefixed("Danger: Tool '", name.as_str());
                warning.append("' requested permission to run.");
                let mut v: Vec<String> = Vec::new();
                v.push(warning);
                v.push(String::from_str("Input:"));
                v.push(input.clone());
                v.push(String::from_str("Do you want to allow this? [y/N]"));
                assert(texts(v@) =~= seq![
                    "Danger: Tool '"@ + name@ + "' requested permission to run."@,
                    "Input:"@,
                    input@,
                    "Do you want to allow this? [y/N]"@,
                ]);
                Some(v)
            },
        }
    }
}

/// Reply text joins the assistant's line only. The lines before the last never change;
/// a last line that is not the assistant's (such as the user's own) is kept as it is, and
/// the text starts a new assistant line after it; an assistant's last line is extended by
/// the text. Either way the transcript then ends with an assistant line that ends with the
/// text, its line breaks removed.
pub proof fn lemma_reply_text_joins_only_the_assistant(ms: Seq<Seq<char>>, speaker: Seq<char>, piece: Seq<char>)
    ensures
        ({
            let r = with_reply_text(ms, speaker, piece);
            let t = replace_all(piece, seq!['\n'], Seq::empty());
            &&& ms.len() <= r.len() <= ms.len() + 1
            &&& forall|i: int| 0 <= i < ms.len() - 1 ==> r[i] == ms[i]
            &&& r.len() > 0 && has_prefix(r.last(), speaker + ": "@)
            &&& r.last().len() >= t.len()
            &&& r.last().subrange(r.last().len() - t.len(), r.last().len() as int) == t
            &&& ms.len() > 0 && !has_prefix(ms.last(), speaker + ": "@)
                ==> r.len() == ms.len() + 1 && r[ms.len() - 1] == ms.last()
            &&& ms.len() > 0 && has_prefix(ms.last(), speaker + ": "@)
                ==> r.len() == ms.len() && r.last() == ms.last() + t
        }),
{
    let r = with_reply_text(ms, speaker, piece);
    let t = replace_all(piece, seq!['\n'], Seq::empty());
    let mark = speaker + ": "@;
    if ms.len() > 0 && has_prefix(ms.last(), mark) {
        assert(r.last() == ms.last() + t);
        assert((ms.last() + t).subrange(0, mark.len() as int) =~= ms.last().subrange(0, mark.len() as int));
        assert(r.last().subrange(r.last().len() - t.len(), r.last().len() as int) =~= t);
    } else {
        assert(r.last() == mark + t);
        assert((mark + t).subrange(0, mark.len() as int) =~= mark);
        assert(r.last().subrange(r.last().len() - t.len(), r.last().len() as int) =~= t);
    }
}

/// The capital of a lowercase ASCII letter.
pub open spec fn capital(c: char) -> char {
    ((c as int) - 32) as char
}

/// Answering a permission question does not depend on case: a lowercase letter answers
/// yes, or no, exactly when its capital does. And no key answers both yes and no.
pub proof fn lemma_answers_ignore_case(c: char, k: Key)
    requires
        'a' <= c <= 'z',
    ensures
        is_yes(Key::Char(c)) == is_yes(Key::Char(capital(c))),
        is_no(Key::Char(c)) == is_no(Key::Char(capital(c))),
        !(is_yes(k) && is_no(k)),
{
}

} // verus!
