use coding_agent::search::{
    check_glob_pattern, check_grep_pattern, glob_fits, glob_search, grep_search, sort_texts, text_le_exec,
    FileHits, GlobOptions, GrepOptions, WalkEntry, GLOB_NESTING_LIMIT,
};

fn entry(p: &str, is_file: bool) -> WalkEntry {
    WalkEntry { path: p.to_string(), is_file }
}

fn glob(pattern: &str, max: Option<u32>) -> GlobOptions {
    GlobOptions { dir: ".".to_string(), pattern: pattern.to_string(), max_results: max }
}

fn grep(pattern: &str, max: Option<u32>) -> GrepOptions {
    GrepOptions { dir: ".".to_string(), pattern: pattern.to_string(), include_pattern: None, max_results: max }
}

#[test]
fn glob_matches_files_and_sorts_them() {
    let entries = vec![entry("src/b.rs", true), entry("src", false), entry("src/a.rs", true), entry("x.txt", true)];
    let out = glob_search(&glob("**/*.rs", None), &entries).unwrap();
    assert_eq!(out, vec!["src/a.rs", "src/b.rs"]);
}

#[test]
fn glob_keeps_the_first_files_walked() {
    let entries = vec![entry("z.rs", true), entry("a.rs", true), entry("m.rs", true)];
    assert_eq!(glob_search(&glob("*.rs", Some(2)), &entries).unwrap(), vec!["a.rs", "z.rs"]);
    assert!(glob_search(&glob("*.rs", Some(0)), &entries).unwrap().is_empty());
}

#[test]
fn directories_never_match() {
    let entries = vec![entry("dir.rs", false)];
    assert!(glob_search(&glob("*.rs", None), &entries).unwrap().is_empty());
}

#[test]
fn invalid_glob_is_refused() {
    let err = glob_search(&glob("a[", None), &vec![]).err().unwrap();
    assert!(err.starts_with("Invalid glob pattern: "), "{}", err);
    assert!(err.len() > "Invalid glob pattern: ".len());
}

#[test]
fn grep_reports_path_number_and_trimmed_line() {
    let files = vec![
        FileHits { path: "b.txt".to_string(), hits: vec![(3, "needle here  \n".to_string())] },
        FileHits { path: "a.txt".to_string(), hits: vec![(10, "a needle\r\n".to_string()), (2, "needle".to_string())] },
    ];
    let out = grep_search(&grep("needle", None), &files).unwrap();
    assert_eq!(out, vec!["a.txt:10:a needle", "a.txt:2:needle", "b.txt:3:needle here"]);
}

#[test]
fn grep_stops_at_the_limit() {
    let files = vec![
        FileHits { path: "b".to_string(), hits: vec![(1, "x".to_string()), (2, "x".to_string())] },
        FileHits { path: "a".to_string(), hits: vec![(1, "x".to_string())] },
    ];
    assert_eq!(grep_search(&grep("x", Some(2)), &files).unwrap(), vec!["b:1:x", "b:2:x"]);
}

#[test]
fn invalid_regex_is_refused() {
    let err = grep_search(&grep("(", None), &vec![]).err().unwrap();
    assert!(err.starts_with("Invalid regex: "), "{}", err);
    assert!(err.len() > "Invalid regex: ".len());
    assert!(check_grep_pattern(&grep("a+b", None)).is_ok());
}

#[test]
fn sorting_follows_string_order() {
    let v = vec!["b".to_string(), "ab".to_string(), "a".to_string(), "é".to_string(), "Z".to_string()];
    let mut expected = v.clone();
    expected.sort();
    assert_eq!(sort_texts(v), expected);
    assert!(text_le_exec("a", "ab"));
    assert!(!text_le_exec("b", "ab"));
    assert!(text_le_exec("same", "same"));
}

#[test]
fn glob_check_runs_before_any_walk() {
    assert!(check_glob_pattern(&glob("**/*.rs", None)).is_ok());
    let err = check_glob_pattern(&glob("{a,b", None)).err().unwrap();
    assert!(err.starts_with("Invalid glob pattern: "), "{}", err);
}

#[test]
fn deeply_nested_alternates_are_refused_not_fatal() {
    let mut pattern = String::new();
    for _ in 0..300 {
        pattern.push_str("{a,");
    }
    pattern.push('b');
    for _ in 0..300 {
        pattern.push('}');
    }
    let r = glob_search(&glob(&pattern, None), &vec![entry("b", true)]);
    if let Err(e) = r {
        assert!(e.starts_with("Invalid glob pattern: "), "{}", e);
    }
}

#[test]
fn include_patterns_are_checked() {
    let mut options = grep("x", None);
    options.include_pattern = Some("*.rs".to_string());
    assert!(check_grep_pattern(&options).is_ok());
    options.include_pattern = Some("[z".to_string());
    let err = check_grep_pattern(&options).err().unwrap();
    assert!(err.starts_with("Invalid include pattern: "), "{}", err);
    assert!(err.len() > "Invalid include pattern: ".len());
    let err = grep_search(&options, &vec![]).err().unwrap();
    assert!(err.starts_with("Invalid include pattern: "), "{}", err);
    options.pattern = "(".to_string();
    let err = check_grep_pattern(&options).err().unwrap();
    assert!(err.starts_with("Invalid regex: "), "{}", err);
}

#[test]
fn globs_beyond_the_matcher_are_told_apart() {
    assert!(glob_fits("**/*.{rs,toml}"));
    assert!(glob_fits(&"{a,".repeat(GLOB_NESTING_LIMIT)));
    assert!(!glob_fits(&"{a,".repeat(GLOB_NESTING_LIMIT + 1)));
    assert!(!glob_fits(&format!("{}{}", "{a,".repeat(GLOB_NESTING_LIMIT + 1), "}".repeat(GLOB_NESTING_LIMIT + 1))));
    assert!(!glob_fits(&format!("\\{}{}", "{".repeat(GLOB_NESTING_LIMIT + 1), "\\}".repeat(GLOB_NESTING_LIMIT + 1))));
}

#[test]
fn many_groups_in_a_row_are_searched() {
    let pattern = "{a}".repeat(GLOB_NESTING_LIMIT + 1);
    assert!(glob_fits(&pattern));
    let name = "a".repeat(GLOB_NESTING_LIMIT + 1);
    let entries = vec![entry(&name, true), entry("b", true)];
    assert_eq!(glob_search(&glob(&pattern, None), &entries).unwrap(), vec![name]);
}
