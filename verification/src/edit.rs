//! Unique search-and-replace edits of a file's text.
use vstd::prelude::*;
use vstd::string::*;
use crate::text::{occurs_at, first_occurrence_from, lemma_single_occurrence_replacement, lemma_sole_position_counts_once, prefixed, saturate, count_matches, replace_all, decimal, chars_of, count_occurrences, replace_occurrences, usize_to_text};

verus! {

/// What an edit of a file asks for: the file, the snippet to find and its replacement.
pub struct EditOptions {
    pub absolute_path: String,
    pub old_string: String,
    pub new_string: String,
}

/// Why an edit was refused.
#[derive(PartialEq, Eq, Structural, Debug, Clone, Copy)]
pub enum EditError {
    /// The snippet does not occur in the text.
    NotFound,
    /// The snippet occurs this many times (more than once).
    Ambiguous(usize),
}

/// The outcome of replacing the snippet `old` by `new` in `content`: the new text when
/// `old` occurs exactly once, else the error that says how often it occurs.
pub open spec fn edit_outcome(content: Seq<char>, old: Seq<char>, new: Seq<char>) -> Result<Seq<char>, EditError> {
    let n = count_matches(content, old);
    if n == 0 {
        Err(EditError::NotFound)
    } else if n == 1 {
        Ok(replace_all(content, old, new))
    } else {
        Err(EditError::Ambiguous(saturate(n)))
    }
}

/// Replaces the single occurrence of `old` in `content` by `new`. Refuses when `old`
/// does not occur, or occurs more than once (an empty `old` occurs at every character
/// boundary, so it is accepted only in empty text).
pub fn replace_unique(content: &str, old: &str, new: &str) -> (r: Result<String, EditError>)
    ensures
        match r {
            Ok(t) => edit_outcome(content@, old@, new@) == Ok::<Seq<char>, EditError>(t@),
            Err(e) => edit_outcome(content@, old@, new@) == Err::<Seq<char>, EditError>(e),
        },
{
    let text = chars_of(content);
    let pat = chars_of(old);
    let n = count_occurrences(&text, &pat);
    if n == 0 {
        Err(EditError::NotFound)
    } else if n > 1 {
        Err(EditError::Ambiguous(n))
    } else {
        Ok(replace_occurrences(&text, &pat, new))
    }
}

/// The refusal text of the native edit entry point.
pub open spec fn native_edit_error_text(e: EditError) -> Seq<char> {
    match e {
        EditError::NotFound =>
            "The specified 'old_string' could not be found in the file. Please verify the file content."@,
        EditError::Ambiguous(n) =>
            "The specified 'old_string' appears "@ + decimal(n as nat)
                + " times. Please provide more context to uniquely identify the snippet to replace."@,
    }
}

/// The report of a successful edit of the file at `path`.
pub open spec fn edit_success_text(path: Seq<char>) -> Seq<char> {
    "Successfully replaced 1 occurrence in "@ + path
}

/// A file's new text and the report that goes with it.
pub struct EditOutcome {
    pub new_content: String,
    pub message: String,
}

impl EditError {
    /// The message the native edit entry point reports for this refusal.
    pub fn native_message(&self) -> (s: String)
        ensures
            s@ == native_edit_error_text(*self),
    {
        match self {
            EditError::NotFound => String::from_str(
                "The specified 'old_string' could not be found in the file. Please verify the file content.",
            ),
            EditError::Ambiguous(n) => {
                let mut s = prefixed("The specified 'old_string' appears ", usize_to_text(*n).as_str());
                s.append(" times. Please provide more context to uniquely identify the snippet to replace.");
                s
            },
        }
    }
}

impl EditOptions {
    /// The message reported when the file to edit does not exist.
    pub fn missing_file_message(&self) -> (s: String)
        ensures
            s@ == "File does not exist: "@ + self.absolute_path@,
    {
        prefixed("File does not exist: ", self.absolute_path.as_str())
    }
}

/// Applies the edit that `options` describes to `content`, the file's current text.
/// On success, gives the new text and the report; otherwise the refusal message.
pub fn apply_file_edit(options: &EditOptions, content: &str) -> (r: Result<EditOutcome, String>)
    ensures
        match edit_outcome(content@, options.old_string@, options.new_string@) {
            Ok(t) => r matches Ok(o) && o.new_content@ == t
                && o.message@ == edit_success_text(options.absolute_path@),
            Err(e) => r matches Err(m) && m@ == native_edit_error_text(e),
        },
{
    match replace_unique(content, options.old_string.as_str(), options.new_string.as_str()) {
        Ok(t) => Ok(EditOutcome {
            new_content: t,
            message: prefixed("Successfully replaced 1 occurrence in ", options.absolute_path.as_str()),
        }),
        Err(e) => Err(e.native_message()),
    }
}


/// An edit can be undone by the opposite edit: when `old` and `new` are not empty, the
/// edit succeeds, and `new` occurs in the edited text at one position only (the one where
/// it was put), then replacing `new` by `old` in the edited text succeeds and gives the
/// text back.
pub proof fn lemma_edit_undo(content: Seq<char>, old: Seq<char>, new: Seq<char>)
    requires
        old.len() > 0,
        new.len() > 0,
        edit_outcome(content, old, new) is Ok,
        forall|j: int, k: int|
            occurs_at(edit_outcome(content, old, new)->Ok_0, new, j)
            && occurs_at(edit_outcome(content, old, new)->Ok_0, new, k) ==> j == k,
    ensures
        edit_outcome(edit_outcome(content, old, new)->Ok_0, new, old) == Ok::<Seq<char>, EditError>(content),
{
    let r = edit_outcome(content, old, new)->Ok_0;
    lemma_single_occurrence_replacement(content, old, new);
    let f = first_occurrence_from(content, old, 0);
    let before = content.subrange(0, f);
    let after = content.subrange(f + old.len(), content.len() as int);
    assert(r == before + new + after);
    assert(r.subrange(f, f + new.len()) =~= new);
    assert(occurs_at(r, new, f));
    lemma_sole_position_counts_once(r, new, f);
    lemma_single_occurrence_replacement(r, new, old);
    assert(r.subrange(0, f) =~= before);
    assert(r.subrange(f + new.len(), r.len() as int) =~= after);
    assert(content.subrange(f, f + old.len()) == old);
    assert(before + old + after =~= content);
}

} // verus!
