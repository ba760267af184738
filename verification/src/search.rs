//! File search: which walked files match a glob, which matched lines a regex search
//! reports, and the sorted, size-limited result lists. Walking the directory and reading
//! the files is left to the caller.
use vstd::prelude::*;
use vstd::string::*;
use crate::text::{prefixed, texts, chars_of, decimal, u64_to_text, trim_end_of, trim_end_text};

verus! {

/// `a` comes no later than `b` in the order of `String`'s comparison: character by
/// character, a proper prefix first.
pub open spec fn text_le(a: Seq<char>, b: Seq<char>) -> bool
    decreases a.len(),
{
    if a.len() == 0 {
        true
    } else if b.len() == 0 {
        false
    } else if a[0] != b[0] {
        a[0] < b[0]
    } else {
        text_le(a.drop_first(), b.drop_first())
    }
}

/// Any two texts are ordered one way or the other.
pub proof fn lemma_text_le_total(a: Seq<char>, b: Seq<char>)
    ensures
        text_le(a, b) || text_le(b, a),
    decreases a.len(),
{
    if a.len() > 0 && b.len() > 0 && a[0] == b[0] {
        lemma_text_le_total(a.drop_first(), b.drop_first());
    }
}

/// The order is transitive.
pub proof fn lemma_text_le_transitive(a: Seq<char>, b: Seq<char>, c: Seq<char>)
    requires
        text_le(a, b),
        text_le(b, c),
    ensures
        text_le(a, c),
    decreases a.len(),
{
    if a.len() > 0 && b.len() > 0 && c.len() > 0 && a[0] == b[0] && b[0] == c[0] {
        lemma_text_le_transitive(a.drop_first(), b.drop_first(), c.drop_first());
    }
}

/// Whether `a` comes no later than `b`.
pub fn text_le_exec(a: &str, b: &str) -> (r: bool)
    ensures
        r == text_le(a@, b@),
{
    let x = chars_of(a);
    let y = chars_of(b);
    let mut i: usize = 0;
    assert(x@.subrange(0, x@.len() as int) =~= x@);
    assert(y@.subrange(0, y@.len() as int) =~= y@);
    while i < x.len() && i < y.len() && x[i] == y[i]
        invariant
            x@ == a@,
            y@ == b@,
            i <= x@.len(),
            i <= y@.len(),
            text_le(a@, b@) == text_le(x@.subrange(i as int, x@.len() as int), y@.subrange(i as int, y@.len() as int)),
        decreases x@.len() - i,
    {
        proof {
            let xs = x@.subrange(i as int, x@.len() as int);
            let ys = y@.subrange(i as int, y@.len() as int);
            assert(xs.drop_first() =~= x@.subrange(i + 1, x@.len() as int));
            assert(ys.drop_first() =~= y@.subrange(i + 1, y@.len() as int));
        }
        i = i + 1;
    }
    proof {
        let xs = x@.subrange(i as int, x@.len() as int);
        let ys = y@.subrange(i as int, y@.len() as int);
        if i < x@.len() && i < y@.len() {
            assert(xs[0] == x@[i as int]);
            assert(ys[0] == y@[i as int]);
        }
    }
    if i == x.len() {
        true
    } else if i == y.len() {
        false
    } else {
        x[i] < y[i]
    }
}

/// The texts are in order.
pub open spec fn sorted_texts(s: Seq<Seq<char>>) -> bool {
    forall|i: int, j: int| 0 <= i < j < s.len() ==> text_le(#[trigger] s[i], #[trigger] s[j])
}

proof fn lemma_insert_multiset(s: Seq<Seq<char>>, pos: int, x: Seq<char>)
    requires
        0 <= pos <= s.len(),
    ensures
        s.insert(pos, x).to_multiset() =~= s.to_multiset().insert(x),
{
    broadcast use vstd::seq_lib::group_to_multiset_ensures;
    let t = s.insert(pos, x);
    assert(t.remove(pos) =~= s);
    assert(t[pos] == x);
    assert(t.to_multiset().count(x) > 0) by {
        assert(t.contains(x));
    }
}

/// Sorts texts in the order of `String`'s comparison.
pub fn sort_texts(v: Vec<String>) -> (r: Vec<String>)
    ensures
        sorted_texts(texts(r@)),
        texts(r@).to_multiset() == texts(v@).to_multiset(),
{
    broadcast use vstd::seq_lib::group_to_multiset_ensures;
    let mut out: Vec<String> = Vec::new();
    let mut i: usize = 0;
    assert(texts(out@) =~= Seq::<Seq<char>>::empty());
    assert(texts(v@).subrange(0, 0) =~= Seq::<Seq<char>>::empty());
    while i < v.len()
        invariant
            i <= v@.len(),
            sorted_texts(texts(out@)),
            texts(out@).to_multiset() == texts(v@).subrange(0, i as int).to_multiset(),
        decreases v@.len() - i,
    {
        let x = v[i].clone();
        let mut pos: usize = 0;
        while pos < out.len() && text_le_exec(out[pos].as_str(), x.as_str())
            invariant
                pos <= out@.len(),
                forall|k: int| 0 <= k < pos ==> text_le(#[trigger] texts(out@)[k], x@),
            decreases out@.len() - pos,
        {
            pos = pos + 1;
        }
        let ghost before = texts(out@);
        assert(texts(v@)[i as int] == x@);
        out.insert(pos, x);
        proof {
            assert(texts(out@) =~= before.insert(pos as int, x@));
            lemma_insert_multiset(before, pos as int, x@);
            assert(texts(v@).subrange(0, i + 1) =~= texts(v@).subrange(0, i as int).push(x@));
            vstd::seq_lib::to_multiset_build(texts(v@).subrange(0, i as int), x@);
            assert(texts(v@).subrange(0, i as int).push(x@).to_multiset()
                =~= texts(v@).subrange(0, i as int).to_multiset().insert(x@));
            let now = texts(out@);
            assert forall|a: int, b: int| 0 <= a < b < now.len() implies text_le(#[trigger] now[a], #[trigger] now[b]) by {
                if pos < before.len() {
                    lemma_text_le_total(before[pos as int], x@);
                }
                if b < pos {
                } else if a < pos && b == pos {
                } else if a < pos {
                    // before[a] <= x <= before[pos] <= before[b - 1]
                    lemma_text_le_total(before[pos as int], x@);
                    if pos < b - 1 {
                        lemma_text_le_transitive(x@, before[pos as int], before[b - 1]);
                    }
                    lemma_text_le_transitive(before[a], x@, before[b - 1]);
                } else if a == pos {
                    lemma_text_le_total(before[pos as int], x@);
                    if pos < b - 1 {
                        lemma_text_le_transitive(x@, before[pos as int], before[b - 1]);
                    }
                } else {
                }
            }
        }
        i = i + 1;
    }
    assert(texts(v@).subrange(0, v@.len() as int) =~= texts(v@));
    out
}


/// What a glob search asks for: the directory, the glob, and at most how many files.
pub struct GlobOptions {
    pub dir: String,
    pub pattern: String,
    pub max_results: Option<u32>,
}

/// What a content search asks for: the directory, the regex, an optional glob that
/// limits the files searched, and at most how many matched lines.
pub struct GrepOptions {
    pub dir: String,
    pub pattern: String,
    pub include_pattern: Option<String>,
    pub max_results: Option<u32>,
}

/// The most results a search gives: as asked, or 100.
pub open spec fn result_limit(m: Option<u32>) -> nat {
    match m {
        Some(n) => n as nat,
        None => 100,
    }
}

fn limit_of(m: Option<u32>) -> (n: usize)
    ensures
        n as nat == result_limit(m),
{
    match m {
        Some(k) => k as usize,
        None => 100,
    }
}

/// An entry met while walking the directory: its path as text, and whether it is a file.
#[derive(Debug)]
pub struct WalkEntry {
    pub path: String,
    pub is_file: bool,
}

/// The matched lines of one searched file: (line number, line).
#[derive(Debug)]
pub struct FileHits {
    pub path: String,
    pub hits: Vec<(u64, String)>,
}

#[verifier::external_type_specification]
#[verifier::external_body]
pub struct ExGlobSet(globset::GlobSet);

/// Globs at least this long are beyond the glob matcher: a literal part of such a glob
/// can overflow the state ids of the automaton that `globset` builds for it, and
/// `globset` unwraps that build.
pub const GLOB_LENGTH_LIMIT: usize = 0x1000_0000;

/// Globs whose alternates may nest deeper than this are beyond the glob matcher: `globset`
/// turns nested alternates into a regex by recursion, one call per level, on the thread's
/// stack. (Such a glob never gives a matcher anyway: the regex engine refuses a nesting
/// deeper than 250.)
pub const GLOB_NESTING_LIMIT: usize = 1000;

/// The number of `{` characters in `s`.
pub open spec fn open_braces(s: Seq<char>) -> nat
    decreases s.len(),
{
    if s.len() == 0 {
        0
    } else {
        open_braces(s.drop_last()) + if s.last() == '{' { 1nat } else { 0nat }
    }
}

/// `s` holds a `[`.
pub open spec fn has_bracket(s: Seq<char>) -> bool
    decreases s.len(),
{
    s.len() > 0 && (has_bracket(s.drop_last()) || s.last() == '[')
}

/// The number of `}` characters of `s` that surely close an alternate: those with no `[`
/// anywhere before them (which could open a class that takes them literally) and no `\`
/// right before them (which could escape them).
pub open spec fn sure_closes(s: Seq<char>) -> nat
    decreases s.len(),
{
    if s.len() == 0 {
        0
    } else {
        let p = s.drop_last();
        sure_closes(p) + if s.last() == '}' && !has_bracket(p) && (p.len() == 0 || p.last() != '\\') {
            1nat
        } else {
            0nat
        }
    }
}

/// A bound on how deeply the alternates of the glob `s` nest: the most, over the prefixes
/// of `s`, by which its `{` outnumber the `}` that surely close an alternate. Every `{`
/// that opens an alternate is counted, and every `}` counted closes one, so the nesting
/// at any point is at most this.
pub open spec fn nesting_bound(s: Seq<char>) -> int
    decreases s.len(),
{
    if s.len() == 0 {
        0
    } else {
        let here = open_braces(s) - sure_closes(s);
        let before = nesting_bound(s.drop_last());
        if here > before { here } else { before }
    }
}

/// A glob that the glob matcher can take: shorter than `GLOB_LENGTH_LIMIT`, with its
/// alternates nested at most `GLOB_NESTING_LIMIT` deep by `nesting_bound`.
pub open spec fn glob_in_bounds(pattern: Seq<char>) -> bool {
    pattern.len() < GLOB_LENGTH_LIMIT && nesting_bound(pattern) <= GLOB_NESTING_LIMIT
}

/// Whether the glob matcher can take `pattern` (see `glob_in_bounds`).
pub fn glob_fits(pattern: &str) -> (r: bool)
    ensures
        r == glob_in_bounds(pattern@),
{
    let cs = chars_of(pattern);
    if cs.len() >= GLOB_LENGTH_LIMIT {
        return false;
    }
    let mut opens: usize = 0;
    let mut closes: usize = 0;
    let mut seen_bracket = false;
    let mut best: usize = 0;
    let mut i: usize = 0;
    while i < cs.len()
        invariant
            cs@ == pattern@,
            i <= cs@.len(),
            opens <= i,
            closes <= i,
            best <= i,
            opens as nat == open_braces(cs@.subrange(0, i as int)),
            closes as nat == sure_closes(cs@.subrange(0, i as int)),
            seen_bracket == has_bracket(cs@.subrange(0, i as int)),
            best as int == nesting_bound(cs@.subrange(0, i as int)),
        decreases cs@.len() - i,
    {
        let ghost pre = cs@.subrange(0, i as int);
        assert(cs@.subrange(0, i + 1).drop_last() =~= pre);
        let c = cs[i];
        if c == '{' {
            opens = opens + 1;
        } else if c == '}' && !seen_bracket && (i == 0 || cs[i - 1] != '\\') {
            proof {
                if i > 0 {
                    assert(pre.last() == cs@[i - 1]);
                }
            }
            closes = closes + 1;
        } else {
            proof {
                if c == '}' && i > 0 {
                    assert(pre.last() == cs@[i - 1]);
                }
            }
        }
        if c == '[' {
            seen_bracket = true;
        }
        if opens >= closes && opens - closes > best {
            best = opens - closes;
        }
        i = i + 1;
    }
    assert(cs@.subrange(0, cs@.len() as int) =~= cs@);
    best <= GLOB_NESTING_LIMIT
}

/// The glob parses, and the matcher for it builds.
pub uninterp spec fn glob_accepts(pattern: Seq<char>) -> bool;

/// The text of the error that a glob which does not parse, or whose matcher does not
/// build, gives.
pub uninterp spec fn glob_error(pattern: Seq<char>) -> Seq<char>;

/// The glob matches the path.
pub uninterp spec fn glob_matches(pattern: Seq<char>, path: Seq<char>) -> bool;

/// A compiled glob, together with its source text.
pub struct CompiledGlob {
    matcher: globset::GlobSet,
    source: String,
}

impl CompiledGlob {
    /// The glob's source text.
    pub closed spec fn pattern(&self) -> Seq<char> {
        self.source@
    }

    /// `globset::Glob::new(pattern)`, then a `GlobSet` of that one glob
    /// (`GlobSetBuilder::add`, then `build`), or the `Display` text of the error of either
    /// step. Claimed: success and the error text are functions of the pattern.
    #[verifier::external_body]
    fn compile(pattern: &str) -> (r: Result<CompiledGlob, String>)
        requires
            glob_in_bounds(pattern@),
        ensures
            r is Ok <==> glob_accepts(pattern@),
            r matches Ok(g) ==> g.pattern() == pattern@,
            r matches Err(e) ==> e@ == glob_error(pattern@),
    {
        match globset::Glob::new(pattern) {
            Ok(g) => match globset::GlobSetBuilder::new().add(g).build() {
                Ok(set) => Ok(CompiledGlob { matcher: set, source: pattern.to_string() }),
                Err(e) => Err(e.to_string()),
            },
            Err(e) => Err(e.to_string()),
        }
    }

    /// `GlobSet::is_match` on the path's text. Claimed: a function of the glob and the
    /// path.
    #[verifier::external_body]
    fn is_match(&self, path: &str) -> (b: bool)
        ensures
            b == glob_matches(self.pattern(), path@),
    {
        self.matcher.is_match(path)
    }
}

/// A glob that does not parse, or whose matcher does not build, is refused with its error;
/// a search checks this before it walks the directory.
pub fn check_glob_pattern(options: &GlobOptions) -> (r: Result<(), String>)
    requires
        glob_in_bounds(options.pattern@),
    ensures
        glob_accepts(options.pattern@) ==> r is Ok,
        !glob_accepts(options.pattern@) ==> (r matches Err(e)
            && e@ == "Invalid glob pattern: "@ + glob_error(options.pattern@)),
{
    match CompiledGlob::compile(options.pattern.as_str()) {
        Ok(_) => Ok(()),
        Err(e) => Err(prefixed("Invalid glob pattern: ", e.as_str())),
    }
}

/// The text of the error that `OverrideBuilder::add` gives for an include glob, if any.
pub uninterp spec fn include_add_error(glob: Seq<char>) -> Option<Seq<char>>;

/// The text of the error that `OverrideBuilder::build` gives once the include glob was
/// added, if any.
pub uninterp spec fn include_build_error(glob: Seq<char>) -> Option<Seq<char>>;

/// `ignore::overrides::OverrideBuilder::new(dir)`, `add(glob)`, then `build()`: the
/// `Display` text of `add`'s error, or else (second) of `build`'s. Claimed: both are
/// functions of the glob; the builder keeps the directory only as the root that paths are
/// later matched against.
#[verifier::external_body]
fn include_override_check(dir: &str, glob: &str) -> (r: (Option<String>, Option<String>))
    requires
        glob_in_bounds(glob@),
    ensures
        match r.0 {
            Some(e) => include_add_error(glob@) == Some(e@),
            None => include_add_error(glob@) is None,
        },
        r.0 is None ==> match r.1 {
            Some(e) => include_build_error(glob@) == Some(e@),
            None => include_build_error(glob@) is None,
        },
{
    let mut builder = ignore::overrides::OverrideBuilder::new(dir);
    match builder.add(glob) {
        Err(e) => (Some(e.to_string()), None),
        Ok(_) => (None, builder.build().err().map(|e| e.to_string())),
    }
}

/// The text of the error that `grep_regex::RegexMatcher::new` gives for the pattern, if any.
pub uninterp spec fn regex_error(pattern: Seq<char>) -> Option<Seq<char>>;

/// `grep_regex::RegexMatcher::new(pattern)`, keeping only the error's `Display` text.
/// Claimed: the outcome is a function of the pattern.
#[verifier::external_body]
fn regex_check(pattern: &str) -> (r: Option<String>)
    ensures
        match r {
            Some(e) => regex_error(pattern@) == Some(e@),
            None => regex_error(pattern@) is None,
        },
{
    grep_regex::RegexMatcher::new(pattern).err().map(|e| e.to_string())
}

/// The files, in walk order, that the glob matches, up to `max` of them.
pub open spec fn glob_collect(pattern: Seq<char>, es: Seq<WalkEntry>, max: nat) -> Seq<Seq<char>>
    decreases es.len(),
{
    if es.len() == 0 {
        Seq::empty()
    } else {
        let prev = glob_collect(pattern, es.drop_last(), max);
        let e = es.last();
        if prev.len() < max && e.is_file && glob_matches(pattern, e.path@) {
            prev.push(e.path@)
        } else {
            prev
        }
    }
}

/// Finds, among the entries of a directory walk (in the order walked), the files that the
/// glob matches, keeps the first `max_results` (100 when not given), and sorts them.
/// A glob that does not parse is refused with its error.
pub fn glob_search(options: &GlobOptions, entries: &Vec<WalkEntry>) -> (r: Result<Vec<String>, String>)
    requires
        glob_in_bounds(options.pattern@),
    ensures
        !glob_accepts(options.pattern@) ==> (r matches Err(e)
            && e@ == "Invalid glob pattern: "@ + glob_error(options.pattern@)),
        glob_accepts(options.pattern@) ==> (r matches Ok(v)
            && sorted_texts(texts(v@))
            && texts(v@).to_multiset()
                == glob_collect(options.pattern@, entries@, result_limit(options.max_results)).to_multiset()),
{
    let glob = match CompiledGlob::compile(options.pattern.as_str()) {
        Ok(g) => g,
        Err(e) => return Err(prefixed("Invalid glob pattern: ", e.as_str())),
    };
    let max = limit_of(options.max_results);
    let mut found: Vec<String> = Vec::new();
    let mut i: usize = 0;
    while i < entries.len()
        invariant
            i <= entries@.len(),
            glob.pattern() == options.pattern@,
            max as nat == result_limit(options.max_results),
            texts(found@) == glob_collect(options.pattern@, entries@.subrange(0, i as int), max as nat),
        decreases entries@.len() - i,
    {
        let e = &entries[i];
        proof {
            assert(entries@.subrange(0, i + 1).drop_last() =~= entries@.subrange(0, i as int));
        }
        if found.len() < max && e.is_file && glob.is_match(e.path.as_str()) {
            let ghost before = found@;
            found.push(e.path.clone());
            assert(texts(found@) =~= texts(before).push(e.path@));
        }
        i = i + 1;
    }
    assert(entries@.subrange(0, entries@.len() as int) =~= entries@);
    Ok(sort_texts(found))
}

/// The line a matched line is reported as: `path:number:line`, the line without its
/// trailing white space.
pub open spec fn hit_text(path: Seq<char>, num: u64, line: Seq<char>) -> Seq<char> {
    path + ":"@ + decimal(num as nat) + ":"@ + trim_end_of(line)
}

/// The reports of one file's matched lines, in order.
pub open spec fn file_reports(f: FileHits) -> Seq<Seq<char>> {
    f.hits@.map_values(|h: (u64, String)| hit_text(f.path@, h.0, h.1@))
}

/// The reports of all the files' matched lines, file after file.
pub open spec fn all_reports(fs: Seq<FileHits>) -> Seq<Seq<char>> {
    fs.map_values(|f: FileHits| file_reports(f)).flatten()
}

/// The first `n` elements of `s`, or all of them when there are fewer.
pub open spec fn first_n<A>(s: Seq<A>, n: nat) -> Seq<A> {
    if s.len() <= n { s } else { s.take(n as int) }
}

/// Whether a content search goes ahead: `Ok` when the regex is accepted and the include
/// glob (if any) is accepted, and otherwise the error of the first check that fails.
pub open spec fn grep_verdict(options: GrepOptions) -> Result<(), Seq<char>> {
    match regex_error(options.pattern@) {
        Some(t) => Err("Invalid regex: "@ + t),
        None => match options.include_pattern {
            None => Ok(()),
            Some(g) => match include_add_error(g@) {
                Some(t) => Err("Invalid include pattern: "@ + t),
                None => match include_build_error(g@) {
                    Some(t) => Err("Failed building include override: "@ + t),
                    None => Ok(()),
                },
            },
        },
    }
}

/// A regex that `grep_regex` does not accept is refused with its error; so is an include
/// glob that cannot be added to an override, or whose override does not build. A search
/// checks this before it walks the directory.
pub fn check_grep_pattern(options: &GrepOptions) -> (r: Result<(), String>)
    requires
        options.include_pattern matches Some(g) ==> glob_in_bounds(g@),
    ensures
        match grep_verdict(*options) {
            Ok(()) => r is Ok,
            Err(t) => r matches Err(e) && e@ == t,
        },
{
    match regex_check(options.pattern.as_str()) {
        Some(e) => return Err(prefixed("Invalid regex: ", e.as_str())),
        None => {},
    }
    match &options.include_pattern {
        None => Ok(()),
        Some(g) => {
            let (add_error, build_error) = include_override_check(options.dir.as_str(), g.as_str());
            match add_error {
                Some(e) => Err(prefixed("Invalid include pattern: ", e.as_str())),
                None => match build_error {
                    Some(e) => Err(prefixed("Failed building include override: ", e.as_str())),
                    None => Ok(()),
                },
            }
        },
    }
}

fn hit_report(path: &str, num: u64, line: &str) -> (s: String)
    ensures
        s@ == hit_text(path@, num, line@),
{
    let mut s = prefixed(path, ":");
    s.append(u64_to_text(num).as_str());
    s.append(":");
    s.append(trim_end_text(line).as_str());
    s
}

/// Reports the matched lines of the searched files (in walk order, the walk limited to the
/// include glob's files) as `path:number:line`, keeps the first `max_results` (100 when
/// not given), and sorts them. A regex or an include glob that is not accepted is refused
/// with its error.
pub fn grep_search(options: &GrepOptions, files: &Vec<FileHits>) -> (r: Result<Vec<String>, String>)
    requires
        options.include_pattern matches Some(g) ==> glob_in_bounds(g@),
    ensures
        grep_verdict(*options) matches Err(t) ==> (r matches Err(e) && e@ == t),
        grep_verdict(*options) is Ok ==> (r matches Ok(v)
            && sorted_texts(texts(v@))
            && texts(v@).to_multiset()
                == first_n(all_reports(files@), result_limit(options.max_results)).to_multiset()),
{
    match check_grep_pattern(options) {
        Err(e) => return Err(e),
        Ok(()) => {},
    }
    let max = limit_of(options.max_results);
    let mut out: Vec<String> = Vec::new();
    let mut i: usize = 0;
    let ghost f = |x: FileHits| file_reports(x);
    assert(files@.subrange(0, 0).map_values(f) =~= Seq::<Seq<Seq<char>>>::empty());
    assert(texts(out@) =~= first_n(Seq::<Seq<char>>::empty(), max as nat));
    while i < files.len()
        invariant
            i <= files@.len(),
            max as nat == result_limit(options.max_results),
            f == (|x: FileHits| file_reports(x)),
            texts(out@) == first_n(files@.subrange(0, i as int).map_values(f).flatten(), max as nat),
        decreases files@.len() - i,
    {
        let file = &files[i];
        let ghost done = files@.subrange(0, i as int).map_values(f).flatten();
        let ghost reports = file_reports(*file);
        let mut j: usize = 0;
        assert(reports.take(0) =~= Seq::<Seq<char>>::empty());
        assert(done + reports.take(0) =~= done);
        while j < file.hits.len()
            invariant
                j <= file.hits@.len(),
                reports == file_reports(*file),
                reports.len() == file.hits@.len(),
                texts(out@) == first_n(done + reports.take(j as int), max as nat),
            decreases file.hits@.len() - j,
        {
            let ghost prev = done + reports.take(j as int);
            assert(done + reports.take(j + 1) =~= prev.push(reports[j as int]));
            if out.len() < max {
                let line = hit_report(file.path.as_str(), file.hits[j].0, file.hits[j].1.as_str());
                let ghost before = out@;
                out.push(line);
                proof {
                    assert(texts(out@) =~= texts(before).push(line@));
                    assert(prev.len() <= max);
                    assert(first_n(prev.push(reports[j as int]), max as nat) =~= prev.push(reports[j as int]));
                }
            } else {
                proof {
                    assert(first_n(prev.push(reports[j as int]), max as nat) =~= first_n(prev, max as nat));
                }
            }
            j = j + 1;
        }
        proof {
            assert(reports.take(reports.len() as int) =~= reports);
            let sub = files@.subrange(0, i as int);
            assert(files@.subrange(0, i + 1) =~= sub.push(*file));
            assert(sub.push(*file).map_values(f) =~= sub.map_values(f).push(reports));
            sub.map_values(f).lemma_flatten_push(reports);
        }
        i = i + 1;
    }
    proof {
        assert(files@.subrange(0, files@.len() as int) =~= files@);
    }
    Ok(sort_texts(out))
}

} // verus!
