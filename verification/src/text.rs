//! Character-level text utilities shared by the rest of the library.
use vstd::prelude::*;
use vstd::string::*;

verus! {

/// The texts of a list of strings.
pub open spec fn texts(v: Seq<String>) -> Seq<Seq<char>> {
    v.map_values(|s: String| s@)
}

/// The character of a decimal digit.
pub open spec fn digit_char(d: nat) -> char {
    if d == 0 { '0' }
    else if d == 1 { '1' }
    else if d == 2 { '2' }
    else if d == 3 { '3' }
    else if d == 4 { '4' }
    else if d == 5 { '5' }
    else if d == 6 { '6' }
    else if d == 7 { '7' }
    else if d == 8 { '8' }
    else { '9' }
}

/// The decimal rendering of `n`, as `Display` prints an unsigned integer.
pub open spec fn decimal(n: nat) -> Seq<char>
    decreases n,
{
    if n < 10 {
        seq![digit_char(n)]
    } else {
        decimal(n / 10).push(digit_char(n % 10))
    }
}

/// Appends one character to a string (`String::push`).
#[verifier::external_body]
pub(crate) fn push_char(s: &mut String, c: char)
    ensures
        final(s)@ == old(s)@.push(c),
{
    s.push(c);
}

fn digit(d: u64) -> (c: char)
    requires
        d < 10,
    ensures
        c == digit_char(d as nat),
{
    if d == 0 { '0' }
    else if d == 1 { '1' }
    else if d == 2 { '2' }
    else if d == 3 { '3' }
    else if d == 4 { '4' }
    else if d == 5 { '5' }
    else if d == 6 { '6' }
    else if d == 7 { '7' }
    else if d == 8 { '8' }
    else { '9' }
}

/// Renders `n` in decimal.
pub fn usize_to_text(n: usize) -> (s: String)
    ensures
        s@ == decimal(n as nat),
{
    u64_to_text(n as u64)
}

/// Renders `n` in decimal.
pub fn u64_to_text(n: u64) -> (s: String)
    ensures
        s@ == decimal(n as nat),
{
    let mut rev: Vec<char> = Vec::new();
    let mut m: u64 = n;
    // digits of n, least significant first
    while m >= 10
        invariant
            decimal(n as nat) == decimal(m as nat) + rev@.reverse(),
        decreases m,
    {
        let d = digit(m % 10);
        proof {
            assert(decimal(m as nat) == decimal((m / 10) as nat).push(digit_char((m % 10) as nat)));
            assert(rev@.push(d).reverse() =~= seq![d] + rev@.reverse());
        }
        rev.push(d);
        m = m / 10;
    }
    let last = digit(m);
    rev.push(last);
    proof {
        assert(rev@.reverse() =~= seq![last] + rev@.drop_last().reverse());
    }
    let mut s = String::new();
    let mut i: usize = rev.len();
    while i > 0
        invariant
            i <= rev@.len(),
            s@ + rev@.subrange(0, i as int).reverse() == rev@.reverse(),
        decreases i,
    {
        i = i - 1;
        let c = rev[i];
        proof {
            assert(rev@.subrange(0, i + 1).reverse() =~= seq![c] + rev@.subrange(0, i as int).reverse());
            assert(s@.push(c) + rev@.subrange(0, i as int).reverse() =~= s@ + (seq![c] + rev@.subrange(0, i as int).reverse()));
        }
        push_char(&mut s, c);
    }
    proof {
        assert(rev@.subrange(0, 0).reverse() =~= Seq::<char>::empty());
        assert(s@ =~= rev@.reverse());
    }
    s
}


/// An optional text as an optional character sequence.
pub open spec fn opt_view(o: Option<String>) -> Option<Seq<char>> {
    match o {
        Some(s) => Some(s@),
        None => None,
    }
}

/// The characters of `s`, in order.
pub fn chars_of(s: &str) -> (v: Vec<char>)
    ensures
        v@ == s@,
{
    broadcast use vstd::string::group_string_axioms;
    let mut v: Vec<char> = Vec::new();
    for c in it: s.chars()
        invariant
            v@ == it.seq().take(it.index() as int),
    {
        v.push(c);
    }
    v
}


/// `pat` occurs in `s` starting at position `i`.
pub open spec fn occurs_at(s: Seq<char>, pat: Seq<char>, i: int) -> bool {
    0 <= i && i + pat.len() <= s.len() && s.subrange(i, i + pat.len()) == pat
}

/// The number of non-overlapping occurrences of a non-empty `pat` in `s` found by
/// scanning left to right from position `i`, each match resuming after itself.
pub open spec fn count_from(s: Seq<char>, pat: Seq<char>, i: int) -> nat
    decreases s.len() - i,
{
    if pat.len() == 0 || i < 0 || i + pat.len() > s.len() {
        0
    } else if occurs_at(s, pat, i) {
        1 + count_from(s, pat, i + pat.len())
    } else {
        count_from(s, pat, i + 1)
    }
}

/// What `s.matches(pat).count()` returns: an empty pattern matches at every
/// character boundary.
pub open spec fn count_matches(s: Seq<char>, pat: Seq<char>) -> nat {
    if pat.len() == 0 {
        s.len() + 1
    } else {
        count_from(s, pat, 0)
    }
}

/// The rest of `s` from position `i`, with every non-overlapping occurrence of a
/// non-empty `pat` (scanning from the left) replaced by `rep`.
pub open spec fn replace_from(s: Seq<char>, pat: Seq<char>, rep: Seq<char>, i: int) -> Seq<char>
    decreases s.len() - i,
{
    if i < 0 || i >= s.len() || pat.len() == 0 {
        if 0 <= i <= s.len() { s.subrange(i, s.len() as int) } else { Seq::empty() }
    } else if occurs_at(s, pat, i) {
        rep + replace_from(s, pat, rep, i + pat.len())
    } else {
        seq![s[i]] + replace_from(s, pat, rep, i + 1)
    }
}

/// `rep` placed at every character boundary of `s`.
pub open spec fn interleave(s: Seq<char>, rep: Seq<char>) -> Seq<char>
    decreases s.len(),
{
    if s.len() == 0 {
        rep
    } else {
        rep + seq![s[0]] + interleave(s.drop_first(), rep)
    }
}

/// What `s.replace(pat, rep)` returns.
pub open spec fn replace_all(s: Seq<char>, pat: Seq<char>, rep: Seq<char>) -> Seq<char> {
    if pat.len() == 0 {
        interleave(s, rep)
    } else {
        replace_from(s, pat, rep, 0)
    }
}

/// Whether `pat` occurs in `s` at position `i`.
pub fn matches_at(s: &Vec<char>, pat: &Vec<char>, i: usize) -> (b: bool)
    ensures
        b == occurs_at(s@, pat@, i as int),
{
    if pat.len() > s.len() || i > s.len() - pat.len() {
        return false;
    }
    let mut j: usize = 0;
    while j < pat.len()
        invariant
            i + pat@.len() <= s.len(),
            j <= pat@.len(),
            forall|k: int| 0 <= k < j ==> s@[i + k] == pat@[k],
        decreases pat@.len() - j,
    {
        if s[i + j] != pat[j] {
            proof {
                assert(s@.subrange(i as int, i + pat@.len())[j as int] != pat@[j as int]);
            }
            return false;
        }
        j = j + 1;
    }
    assert(s@.subrange(i as int, i + pat@.len()) =~= pat@);
    true
}

/// `n`, or the largest `usize` when `n` is larger.
pub open spec fn saturate(n: nat) -> usize {
    if n > usize::MAX { usize::MAX } else { n as usize }
}

/// Counts the occurrences of `pat` in `s` as `str::matches(..).count()` does (at most
/// the largest `usize`).
pub fn count_occurrences(s: &Vec<char>, pat: &Vec<char>) -> (n: usize)
    ensures
        n == saturate(count_matches(s@, pat@)),
{
    let m = pat.len();
    if m == 0 {
        return s.len().saturating_add(1);
    }
    let mut i: usize = 0;
    let mut count: usize = 0;
    while i <= s.len() && s.len() - i >= m
        invariant
            m == pat@.len(),
            m > 0,
            i <= s@.len(),
            count <= i,
            count + count_from(s@, pat@, i as int) == count_from(s@, pat@, 0),
        decreases s@.len() - i,
    {
        if matches_at(s, pat, i) {
            count = count + 1;
            i = i + m;
        } else {
            i = i + 1;
        }
    }
    count
}

/// Replaces every occurrence of `pat` in `s` by `rep`, as `str::replace` does.
pub fn replace_occurrences(s: &Vec<char>, pat: &Vec<char>, rep: &str) -> (r: String)
    ensures
        r@ == replace_all(s@, pat@, rep@),
{
    let mut out = String::new();
    let m = pat.len();
    let mut i: usize = 0;
    if m == 0 {
        assert(s@.subrange(0, s@.len() as int) =~= s@);
        while i < s.len()
            invariant
                i <= s@.len(),
                out@ + interleave(s@.subrange(i as int, s@.len() as int), rep@) == interleave(s@, rep@),
            decreases s@.len() - i,
        {
            let c = s[i];
            proof {
                let rest = s@.subrange(i as int, s@.len() as int);
                assert(rest.drop_first() =~= s@.subrange(i + 1, s@.len() as int));
                assert(out@ + rep@ + seq![c] + interleave(rest.drop_first(), rep@)
                    =~= out@ + interleave(rest, rep@));
            }
            out.append(rep);
            push_char(&mut out, c);
            i = i + 1;
        }
        out.append(rep);
        proof {
            assert(s@.subrange(i as int, s@.len() as int) =~= Seq::<char>::empty());
        }
        assert(s@.subrange(0, s@.len() as int) =~= s@);
        return out;
    }
    while i < s.len()
        invariant
            m == pat@.len(),
            m > 0,
            i <= s@.len(),
            out@ + replace_from(s@, pat@, rep@, i as int) == replace_from(s@, pat@, rep@, 0),
        decreases s@.len() - i,
    {
        if matches_at(s, pat, i) {
            proof {
                assert(out@ + rep@ + replace_from(s@, pat@, rep@, i + m) =~= out@ + replace_from(s@, pat@, rep@, i as int));
            }
            out.append(rep);
            i = i + m;
        } else {
            let c = s[i];
            proof {
                assert(out@.push(c) + replace_from(s@, pat@, rep@, i + 1) =~= out@ + replace_from(s@, pat@, rep@, i as int));
            }
            push_char(&mut out, c);
            i = i + 1;
        }
    }
    proof {
        assert(s@.subrange(i as int, s@.len() as int) =~= Seq::<char>::empty());
        assert(out@ + Seq::<char>::empty() =~= out@);
    }
    out
}


/// The position of the first occurrence of a non-empty `pat` in `s` at or after `i`,
/// or the length of `s` when there is none.
pub open spec fn first_occurrence_from(s: Seq<char>, pat: Seq<char>, i: int) -> int
    decreases s.len() - i,
{
    if pat.len() == 0 || i < 0 || i + pat.len() > s.len() {
        s.len() as int
    } else if occurs_at(s, pat, i) {
        i
    } else {
        first_occurrence_from(s, pat, i + 1)
    }
}

proof fn lemma_no_match_keeps_rest(s: Seq<char>, pat: Seq<char>, rep: Seq<char>, i: int)
    requires
        pat.len() > 0,
        0 <= i <= s.len(),
        count_from(s, pat, i) == 0,
    ensures
        replace_from(s, pat, rep, i) == s.subrange(i, s.len() as int),
    decreases s.len() - i,
{
    if i < s.len() {
        if i + pat.len() <= s.len() {
            assert(!occurs_at(s, pat, i));
        }
        if i + pat.len() <= s.len() {
            lemma_no_match_keeps_rest(s, pat, rep, i + 1);
        } else {
            lemma_short_rest_has_no_match(s, pat, i + 1);
            lemma_no_match_keeps_rest(s, pat, rep, i + 1);
        }
        assert(seq![s[i]] + s.subrange(i + 1, s.len() as int) =~= s.subrange(i, s.len() as int));
    }
}

proof fn lemma_short_rest_has_no_match(s: Seq<char>, pat: Seq<char>, i: int)
    requires
        pat.len() > 0,
        0 <= i,
        i + pat.len() > s.len(),
    ensures
        count_from(s, pat, i) == 0,
{
}

proof fn lemma_single_match_from(s: Seq<char>, pat: Seq<char>, rep: Seq<char>, i: int)
    requires
        pat.len() > 0,
        0 <= i <= s.len(),
        count_from(s, pat, i) == 1,
    ensures
        ({
            let f = first_occurrence_from(s, pat, i);
            &&& i <= f
            &&& occurs_at(s, pat, f)
            &&& count_from(s, pat, f + pat.len()) == 0
            &&& replace_from(s, pat, rep, i) == s.subrange(i, f) + rep + s.subrange(f + pat.len(), s.len() as int)
        }),
    decreases s.len() - i,
{
    if occurs_at(s, pat, i) {
        lemma_no_match_keeps_rest(s, pat, rep, i + pat.len());
        assert(s.subrange(i, i) =~= Seq::<char>::empty());
        assert(rep + replace_from(s, pat, rep, i + pat.len()) =~= s.subrange(i, i) + rep
            + s.subrange(i + pat.len(), s.len() as int));
    } else {
        lemma_single_match_from(s, pat, rep, i + 1);
        let f = first_occurrence_from(s, pat, i + 1);
        assert(seq![s[i]] + (s.subrange(i + 1, f) + rep + s.subrange(f + pat.len(), s.len() as int))
            =~= s.subrange(i, f) + rep + s.subrange(f + pat.len(), s.len() as int));
    }
}

/// When `pat` occurs exactly once in `s`, replacing its occurrences replaces that one
/// occurrence and keeps the text around it: the result is the text before it, then
/// `rep`, then the text after it. (An empty `pat` occurs once only in empty text, where
/// the result is `rep`.)
pub proof fn lemma_single_occurrence_replacement(s: Seq<char>, pat: Seq<char>, rep: Seq<char>)
    requires
        count_matches(s, pat) == 1,
    ensures
        pat.len() == 0 ==> s.len() == 0 && replace_all(s, pat, rep) == rep,
        pat.len() > 0 ==> ({
            let f = first_occurrence_from(s, pat, 0);
            &&& occurs_at(s, pat, f)
            &&& replace_all(s, pat, rep) == s.subrange(0, f) + rep + s.subrange(f + pat.len(), s.len() as int)
        }),
{
    if pat.len() == 0 {
        assert(s.len() == 0);
        assert(interleave(s, rep) == rep);
    } else {
        lemma_single_match_from(s, pat, rep, 0);
    }
}


/// Whether two texts are equal.
pub fn same_text(a: &str, b: &str) -> (r: bool)
    ensures
        r == (a@ == b@),
{
    let x = chars_of(a);
    let y = chars_of(b);
    if x.len() != y.len() {
        return false;
    }
    let mut i: usize = 0;
    while i < x.len()
        invariant
            x@ == a@,
            y@ == b@,
            x@.len() == y@.len(),
            i <= x@.len(),
            forall|k: int| 0 <= k < i ==> x@[k] == y@[k],
        decreases x@.len() - i,
    {
        if x[i] != y[i] {
            assert(x@[i as int] != y@[i as int]);
            return false;
        }
        i = i + 1;
    }
    assert(x@ =~= y@);
    true
}

/// Whether an optional text is present and equal to `lit`.
pub fn is_text(s: &Option<String>, lit: &str) -> (r: bool)
    ensures
        r == (s is Some && s->0@ == lit@),
{
    match s {
        Some(t) => same_text(t.as_str(), lit),
        None => false,
    }
}

/// `s` begins with `prefix`.
pub open spec fn has_prefix(s: Seq<char>, prefix: Seq<char>) -> bool {
    prefix.len() <= s.len() && s.subrange(0, prefix.len() as int) == prefix
}

/// Whether `s` begins with `prefix` (`str::starts_with`).
pub fn starts_with_text(s: &str, prefix: &str) -> (r: bool)
    ensures
        r == has_prefix(s@, prefix@),
{
    let x = chars_of(s);
    let p = chars_of(prefix);
    matches_at(&x, &p, 0)
}

/// The text of `s` from character position `k` on.
pub fn text_after(s: &str, k: usize) -> (r: String)
    requires
        k <= s@.len(),
    ensures
        r@ == s@.subrange(k as int, s@.len() as int),
{
    let n = s.unicode_len();
    String::from_str(s.substring_char(k, n))
}

/// The position of the first `c` in `s`, or the length of `s` when there is none.
pub open spec fn index_of(s: Seq<char>, c: char) -> int
    decreases s.len(),
{
    if s.len() == 0 {
        0
    } else if s[0] == c {
        0
    } else {
        1 + index_of(s.drop_first(), c)
    }
}

/// A line as `str::lines` yields it: its `\n` is dropped, and so is a `\r` just before it.
pub open spec fn strip_line_end(line: Seq<char>) -> Seq<char> {
    if line.len() > 0 && line.last() == '\r' { line.drop_last() } else { line }
}

/// The lines of `s`, as `str::lines` yields them: split after each `\n`; each line
/// loses its `\n` and a `\r` just before it; a final line ending yields no empty line.
pub open spec fn lines_of(s: Seq<char>) -> Seq<Seq<char>>
    decreases s.len(),
{
    if s.len() == 0 {
        Seq::empty()
    } else {
        let k = index_of(s, '\n');
        proof {
            lemma_index_of_bounds(s, '\n');
        }
        if k >= s.len() {
            seq![s]
        } else {
            seq![strip_line_end(s.subrange(0, k))] + lines_of(s.subrange(k + 1, s.len() as int))
        }
    }
}

/// `index_of` gives a position within `s` holding `c`, or the length, with no `c` before it.
pub proof fn lemma_index_of_bounds(s: Seq<char>, c: char)
    ensures
        0 <= index_of(s, c) <= s.len(),
        index_of(s, c) < s.len() ==> s[index_of(s, c)] == c,
        forall|j: int| 0 <= j < index_of(s, c) ==> s[j] != c,
    decreases s.len(),
{
    if s.len() > 0 && s[0] != c {
        lemma_index_of_bounds(s.drop_first(), c);
        assert forall|j: int| 0 <= j < index_of(s, c) implies s[j] != c by {
            if j > 0 {
                assert(s[j] == s.drop_first()[j - 1]);
            }
        }
    }
}

proof fn lemma_index_of_found(s: Seq<char>, c: char, k: int)
    requires
        0 <= k < s.len(),
        s[k] == c,
        forall|j: int| 0 <= j < k ==> s[j] != c,
    ensures
        index_of(s, c) == k,
    decreases s.len(),
{
    if k > 0 {
        lemma_index_of_found(s.drop_first(), c, k - 1);
    }
}

proof fn lemma_index_of_absent(s: Seq<char>, c: char)
    requires
        forall|j: int| 0 <= j < s.len() ==> s[j] != c,
    ensures
        index_of(s, c) == s.len(),
    decreases s.len(),
{
    if s.len() > 0 {
        lemma_index_of_absent(s.drop_first(), c);
    }
}

pub(crate) fn string_of(cs: &Vec<char>, from: usize, to: usize) -> (r: String)
    requires
        from <= to <= cs@.len(),
    ensures
        r@ == cs@.subrange(from as int, to as int),
{
    let mut r = String::new();
    let mut i = from;
    while i < to
        invariant
            from <= i <= to,
            to <= cs@.len(),
            r@ == cs@.subrange(from as int, i as int),
        decreases to - i,
    {
        let c = cs[i];
        assert(cs@.subrange(from as int, i + 1) =~= cs@.subrange(from as int, i as int).push(c));
        push_char(&mut r, c);
        i = i + 1;
    }
    r
}

/// Splits `s` into lines as `str::lines` does.
pub fn text_lines(s: &str) -> (r: Vec<String>)
    ensures
        r@.len() == lines_of(s@).len(),
        forall|i: int| 0 <= i < r@.len() ==> #[trigger] r@[i]@ == lines_of(s@)[i],
{
    let cs = chars_of(s);
    let n = cs.len();
    let mut out: Vec<String> = Vec::new();
    let mut start: usize = 0;
    let ghost done: Seq<Seq<char>> = Seq::empty();
    assert(cs@.subrange(0, n as int) =~= cs@);
    assert(done + lines_of(cs@) =~= lines_of(cs@));
    while start < n
        invariant
            n == cs@.len(),
            start <= n,
            out@.len() == done.len(),
            forall|i: int| 0 <= i < out@.len() ==> #[trigger] out@[i]@ == done[i],
            done + lines_of(cs@.subrange(start as int, n as int)) == lines_of(cs@),
        decreases n - start,
    {
        let ghost rest = cs@.subrange(start as int, n as int);
        let mut k = start;
        while k < n && cs[k] != '\n'
            invariant
                start <= k <= n,
                n == cs@.len(),
                forall|j: int| start <= j < k ==> cs@[j] != '\n',
            decreases n - k,
        {
            k = k + 1;
        }
        proof {
            if k < n {
                lemma_index_of_found(rest, '\n', k - start);
            } else {
                lemma_index_of_absent(rest, '\n');
            }
        }
        let mut end = k;
        if k > start && cs[k - 1] == '\r' && k < n {
            end = k - 1;
        }
        let line = string_of(&cs, start, end);
        proof {
            let piece = rest.subrange(0, k - start);
            assert(piece =~= cs@.subrange(start as int, k as int));
            if k < n {
                assert(rest.subrange(k - start + 1, rest.len() as int) =~= cs@.subrange(k + 1, n as int));
                if k > start && cs@[k - 1] == '\r' {
                    assert(strip_line_end(piece) =~= cs@.subrange(start as int, end as int));
                } else {
                    assert(strip_line_end(piece) =~= cs@.subrange(start as int, end as int));
                }
            } else {
                assert(rest =~= cs@.subrange(start as int, end as int));
            }
        }
        out.push(line);
        proof {
            done = done.push(line@);
        }
        if k < n {
            start = k + 1;
        } else {
            start = n;
        }
        proof {
            if start == n {
                assert(cs@.subrange(n as int, n as int).len() == 0);
            }
        }
    }
    proof {
        assert(cs@.subrange(n as int, n as int).len() == 0);
        assert(done + Seq::<Seq<char>>::empty() =~= done);
    }
    out
}


/// Removes the last character of a string, if any (`String::pop`).
#[verifier::external_body]
pub(crate) fn pop_char(s: &mut String)
    ensures
        old(s)@.len() == 0 ==> final(s)@ == old(s)@,
        old(s)@.len() > 0 ==> final(s)@ == old(s)@.drop_last(),
{
    s.pop();
}

/// The pieces of `s` between the occurrences of `c` (`str::split` on a character): one
/// more piece than there are `c`s, empty pieces kept.
pub open spec fn split_on(s: Seq<char>, c: char) -> Seq<Seq<char>>
    decreases s.len(),
{
    let k = index_of(s, c);
    proof {
        lemma_index_of_bounds(s, c);
    }
    if k >= s.len() {
        seq![s]
    } else {
        seq![s.subrange(0, k)] + split_on(s.subrange(k + 1, s.len() as int), c)
    }
}

/// Splits `s` at every `c`, as `str::split` does.
pub fn split_text(s: &str, c: char) -> (r: Vec<String>)
    ensures
        r@.map_values(|t: String| t@) == split_on(s@, c),
{
    let cs = chars_of(s);
    let n = cs.len();
    let mut out: Vec<String> = Vec::new();
    let mut start: usize = 0;
    let mut finished = false;
    assert(cs@.subrange(0, n as int) =~= cs@);
    assert(out@.map_values(|t: String| t@) + split_on(cs@, c) =~= split_on(cs@, c));
    while !finished
        invariant
            n == cs@.len(),
            start <= n,
            finished ==> out@.map_values(|t: String| t@) == split_on(cs@, c),
            !finished ==> out@.map_values(|t: String| t@) + split_on(cs@.subrange(start as int, n as int), c)
                == split_on(cs@, c),
        decreases n - start + (if finished { 0int } else { 1int }),
    {
        let ghost rest = cs@.subrange(start as int, n as int);
        let mut k = start;
        while k < n && cs[k] != c
            invariant
                start <= k <= n,
                n == cs@.len(),
                forall|j: int| start <= j < k ==> cs@[j] != c,
            decreases n - k,
        {
            k = k + 1;
        }
        proof {
            if k < n {
                lemma_index_of_found(rest, c, k - start);
            } else {
                lemma_index_of_absent(rest, c);
            }
        }
        let piece = string_of(&cs, start, k);
        let ghost before = out@;
        out.push(piece);
        proof {
            assert(rest.subrange(0, k - start) =~= cs@.subrange(start as int, k as int));
            assert(out@.map_values(|t: String| t@) =~= before.map_values(|t: String| t@).push(piece@));
        }
        if k < n {
            proof {
                assert(rest.subrange(k - start + 1, rest.len() as int) =~= cs@.subrange(k + 1, n as int));
                assert(before.map_values(|t: String| t@).push(piece@) + split_on(cs@.subrange(k + 1, n as int), c)
                    =~= before.map_values(|t: String| t@) + (seq![piece@] + split_on(cs@.subrange(k + 1, n as int), c)));
            }
            start = k + 1;
        } else {
            proof {
                assert(rest =~= cs@.subrange(start as int, k as int));
                assert(before.map_values(|t: String| t@).push(piece@)
                    =~= before.map_values(|t: String| t@) + seq![piece@]);
            }
            finished = true;
        }
    }
    out
}


/// The characters that `char::is_whitespace` accepts: those with the Unicode
/// `White_Space` property.
pub open spec fn is_white_space(c: char) -> bool {
    ||| c == '\t' || c == '\n' || c == '\u{0B}' || c == '\u{0C}' || c == '\r' || c == ' '
    ||| c == '\u{85}' || c == '\u{A0}' || c == '\u{1680}'
    ||| ('\u{2000}' <= c && c <= '\u{200A}')
    ||| c == '\u{2028}' || c == '\u{2029}' || c == '\u{202F}' || c == '\u{205F}' || c == '\u{3000}'
}

/// Whether `c` is white space, as `char::is_whitespace` says.
pub fn white_space(c: char) -> (b: bool)
    ensures
        b == is_white_space(c),
{
    c == '\t' || c == '\n' || c == '\u{0B}' || c == '\u{0C}' || c == '\r' || c == ' '
        || c == '\u{85}' || c == '\u{A0}' || c == '\u{1680}'
        || ('\u{2000}' <= c && c <= '\u{200A}')
        || c == '\u{2028}' || c == '\u{2029}' || c == '\u{202F}' || c == '\u{205F}' || c == '\u{3000}'
}

/// `s` without its trailing white space (`str::trim_end`).
pub open spec fn trim_end_of(s: Seq<char>) -> Seq<char>
    decreases s.len(),
{
    if s.len() > 0 && is_white_space(s.last()) {
        trim_end_of(s.drop_last())
    } else {
        s
    }
}

/// Removes trailing white space, as `str::trim_end` does.
pub fn trim_end_text(s: &str) -> (r: String)
    ensures
        r@ == trim_end_of(s@),
{
    let cs = chars_of(s);
    let mut k = cs.len();
    assert(cs@.subrange(0, k as int) =~= cs@);
    while k > 0 && white_space(cs[k - 1])
        invariant
            k <= cs@.len(),
            trim_end_of(cs@) == trim_end_of(cs@.subrange(0, k as int)),
        decreases k,
    {
        assert(cs@.subrange(0, k as int).drop_last() =~= cs@.subrange(0, k - 1));
        k = k - 1;
    }
    string_of(&cs, 0, k)
}

/// Concatenates a literal prefix and a text.
pub fn prefixed(prefix: &str, rest: &str) -> (s: String)
    ensures
        s@ == prefix@ + rest@,
{
    let mut s = String::from_str(prefix);
    s.append(rest);
    s
}


proof fn lemma_no_occurrence_counts_zero(s: Seq<char>, pat: Seq<char>, i: int)
    requires
        pat.len() > 0,
        0 <= i,
        forall|j: int| i <= j ==> !occurs_at(s, pat, j),
    ensures
        count_from(s, pat, i) == 0,
    decreases s.len() - i,
{
    if i + pat.len() <= s.len() {
        lemma_no_occurrence_counts_zero(s, pat, i + 1);
    }
}

proof fn lemma_next_occurrence(s: Seq<char>, pat: Seq<char>, i: int, f: int)
    requires
        pat.len() > 0,
        0 <= i <= f,
        occurs_at(s, pat, f),
        forall|j: int| i <= j < f ==> !occurs_at(s, pat, j),
    ensures
        count_from(s, pat, i) == 1 + count_from(s, pat, f + pat.len()),
        first_occurrence_from(s, pat, i) == f,
    decreases f - i,
{
    if i < f {
        lemma_next_occurrence(s, pat, i + 1, f);
    }
}

/// When `pat` occurs in `s` at exactly one position (overlapping ones included), it
/// occurs there once by the left-to-right count, and that position is the first one.
pub proof fn lemma_sole_position_counts_once(s: Seq<char>, pat: Seq<char>, f: int)
    requires
        pat.len() > 0,
        occurs_at(s, pat, f),
        forall|j: int| occurs_at(s, pat, j) ==> j == f,
    ensures
        count_matches(s, pat) == 1,
        first_occurrence_from(s, pat, 0) == f,
{
    lemma_next_occurrence(s, pat, 0, f);
    lemma_no_occurrence_counts_zero(s, pat, f + pat.len());
}

} // verus!
