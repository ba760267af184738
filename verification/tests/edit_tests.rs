use coding_agent::edit::{apply_file_edit, replace_unique, EditError, EditOptions};

fn options(old: &str, new: &str) -> EditOptions {
    EditOptions {
        absolute_path: "/tmp/file.txt".to_string(),
        old_string: old.to_string(),
        new_string: new.to_string(),
    }
}

#[test]
fn unique_snippet_is_replaced_in_place() {
    let out = replace_unique("one two three", "two", "2").unwrap();
    assert_eq!(out, "one 2 three");
}

#[test]
fn missing_snippet_is_refused() {
    assert_eq!(replace_unique("abc", "z", "y"), Err(EditError::NotFound));
    let err = apply_file_edit(&options("z", "y"), "abc").err().unwrap();
    assert_eq!(
        err,
        "The specified 'old_string' could not be found in the file. Please verify the file content."
    );
}

#[test]
fn repeated_snippet_is_refused_with_its_count() {
    assert_eq!(replace_unique("a-a-a", "a", "b"), Err(EditError::Ambiguous(3)));
    let err = apply_file_edit(&options("a", "b"), "a-a-a").err().unwrap();
    assert_eq!(
        err,
        "The specified 'old_string' appears 3 times. Please provide more context to uniquely identify the snippet to replace."
    );
}

#[test]
fn successful_edit_reports_the_path() {
    let out = apply_file_edit(&options("world", "there"), "hello world").ok().unwrap();
    assert_eq!(out.new_content, "hello there");
    assert_eq!(out.message, "Successfully replaced 1 occurrence in /tmp/file.txt");
}

#[test]
fn empty_snippet_only_edits_empty_text() {
    assert_eq!(replace_unique("", "", "new").unwrap(), "new");
    assert_eq!(replace_unique("ab", "", "x"), Err(EditError::Ambiguous(3)));
}

#[test]
fn overlapping_occurrences_count_once() {
    assert_eq!(replace_unique("aaa", "aa", "b").unwrap(), "ba");
}

#[test]
fn missing_file_message_names_the_path() {
    assert_eq!(options("a", "b").missing_file_message(), "File does not exist: /tmp/file.txt");
}

#[test]
fn an_edit_is_undone_by_the_opposite_edit() {
    let original = "fn main() { run(); }";
    let edited = replace_unique(original, "run()", "start()").unwrap();
    assert_eq!(replace_unique(&edited, "start()", "run()").unwrap(), original);
}

#[test]
fn undo_needs_the_new_text_to_occur_once() {
    let edited = replace_unique("aX", "X", "aa").unwrap();
    assert_eq!(edited, "aaa");
    assert_eq!(replace_unique(&edited, "aa", "X").unwrap(), "Xa");
}
