//! The matcher: the lines of a text that contain a query, with their
//! one-based line numbers.

use vstd::prelude::*;

use crate::text::{
    chars_of, closed_lines, contains, has_substring, last_start, lemma_closed_lines_bound,
    lemma_last_start_bound, lines_of, lower_of, lowercase, open_tail, string_of, strip_cr,
};

verus! {

/// One matching line: its one-based position in the text and its original
/// content, without the line terminator.
#[derive(Debug, PartialEq, Eq)]
pub struct Line {
    pub number: usize,
    pub content: String,
}

impl View for Line {
    type V = (nat, Seq<char>);

    open spec fn view(&self) -> (nat, Seq<char>) {
        (self.number as nat, self.content@)
    }
}

/// The models of a sequence of lines.
pub open spec fn lines_view(lines: Seq<Line>) -> Seq<(nat, Seq<char>)> {
    lines.map_values(|l: Line| l@)
}

/// Whether `line` matches `query`: a plain substring test, on both texts
/// lower-cased when the search ignores case.
pub open spec fn is_hit(query: Seq<char>, case_sensitive: bool, line: Seq<char>) -> bool {
    if case_sensitive {
        contains(line, query)
    } else {
        contains(lower_of(line), lower_of(query))
    }
}

/// The matches among the first `n` of `lines`, in order, each with its
/// one-based number.
pub open spec fn matched(
    query: Seq<char>,
    case_sensitive: bool,
    lines: Seq<Seq<char>>,
    n: nat,
) -> Seq<(nat, Seq<char>)>
    decreases n,
{
    if n == 0 {
        seq![]
    } else {
        let before = matched(query, case_sensitive, lines, (n - 1) as nat);
        if is_hit(query, case_sensitive, lines[n - 1]) {
            before.push((n, lines[n - 1]))
        } else {
            before
        }
    }
}

/// What a search of `contents` for `query` returns.
pub open spec fn search_result(query: Seq<char>, case_sensitive: bool, contents: Seq<char>) -> Seq<
    (nat, Seq<char>),
> {
    matched(query, case_sensitive, lines_of(contents), lines_of(contents).len())
}

/// The matches among the first `n` lines depend on those lines alone.
pub proof fn lemma_matched_prefix(
    query: Seq<char>,
    case_sensitive: bool,
    a: Seq<Seq<char>>,
    b: Seq<Seq<char>>,
    n: nat,
)
    requires
        n <= a.len(),
        n <= b.len(),
        a.take(n as int) == b.take(n as int),
    ensures
        matched(query, case_sensitive, a, n) == matched(query, case_sensitive, b, n),
    decreases n,
{
    if n > 0 {
        assert(a.take(n - 1) == a.take(n as int).take(n - 1));
        assert(b.take(n - 1) == b.take(n as int).take(n - 1));
        assert(a[n - 1] == a.take(n as int)[n - 1]);
        assert(b[n - 1] == b.take(n as int)[n - 1]);
        lemma_matched_prefix(query, case_sensitive, a, b, (n - 1) as nat);
    }
}

/// Appends `Line { number, content: line }` to `out` when `line` matches.
fn keep_if_hit(
    out: &mut Vec<Line>,
    line: &Vec<char>,
    number: usize,
    query: &str,
    case_sensitive: bool,
    pattern: &Vec<char>,
)
    requires
        pattern@ == (if case_sensitive {
            query@
        } else {
            lower_of(query@)
        }),
    ensures
        lines_view(final(out)@) == (if is_hit(query@, case_sensitive, line@) {
            lines_view(old(out)@).push((number as nat, line@))
        } else {
            lines_view(old(out)@)
        }),
{
    if case_sensitive {
        if has_substring(line.as_slice(), pattern.as_slice()) {
            let content = string_of(line.as_slice());
            out.push(Line { number, content });
            assert(lines_view(out@) =~= lines_view(old(out)@).push((number as nat, line@)));
        }
    } else {
        let content = string_of(line.as_slice());
        let folded = lowercase(content.as_str());
        let folded_chars = chars_of(folded.as_str());
        if has_substring(folded_chars.as_slice(), pattern.as_slice()) {
            out.push(Line { number, content });
            assert(lines_view(out@) =~= lines_view(old(out)@).push((number as nat, line@)));
        }
    }
}

/// The lines of `contents` that contain `query`, in order, each with its
/// one-based line number and its original text. Lines are split at `\n`,
/// a `\r` just before it belonging to the terminator. When `case_sensitive`
/// is false, the query (once) and each line are lower-cased before the test.
pub fn search(query: &str, case_sensitive: bool, contents: &str) -> (r: Vec<Line>)
    ensures
        lines_view(r@) == search_result(query@, case_sensitive, contents@),
{
    let pattern = if case_sensitive {
        chars_of(query)
    } else {
        let folded = lowercase(query);
        chars_of(folded.as_str())
    };
    let text = chars_of(contents);
    let mut out: Vec<Line> = Vec::new();
    let mut current: Vec<char> = Vec::new();
    let mut number: usize = 0;
    let mut i: usize = 0;
    while i < text.len()
        invariant
            text@ == contents@,
            i <= text@.len(),
            pattern@ == (if case_sensitive {
                query@
            } else {
                lower_of(query@)
            }),
            number == closed_lines(text@.take(i as int)).len(),
            current@ == open_tail(text@.take(i as int)),
            lines_view(out@) == matched(
                query@,
                case_sensitive,
                closed_lines(text@.take(i as int)),
                number as nat,
            ),
        decreases text.len() - i,
    {
        let c = text[i];
        let ghost prefix = text@.take(i as int);
        let ghost next = text@.take(i + 1);
        assert(next.drop_last() == prefix);
        proof {
            lemma_closed_lines_bound(prefix);
        }
        if c == '\n' {
            if current.len() > 0 && current[current.len() - 1] == '\r' {
                current.pop();
            }
            assert(current@ == strip_cr(open_tail(prefix)));
            number += 1;
            keep_if_hit(&mut out, &current, number, query, case_sensitive, &pattern);
            proof {
                let lines = closed_lines(next);
                assert(lines == closed_lines(prefix).push(current@));
                assert(closed_lines(prefix).take(number - 1) =~= lines.take(number - 1));
                lemma_matched_prefix(
                    query@,
                    case_sensitive,
                    closed_lines(prefix),
                    lines,
                    (number - 1) as nat,
                );
            }
            current = Vec::new();
            assert(current@ =~= open_tail(next));
        } else {
            current.push(c);
            assert(last_start(next) == last_start(prefix));
            proof {
                lemma_last_start_bound(prefix);
            }
            assert(current@ =~= open_tail(next));
        }
        i += 1;
    }
    assert(text@.take(i as int) == text@);
    if current.len() > 0 {
        proof {
            lemma_closed_lines_bound(text@);
        }
        number += 1;
        keep_if_hit(&mut out, &current, number, query, case_sensitive, &pattern);
        assert(closed_lines(text@).take(number - 1) =~= lines_of(text@).take(number - 1));
        proof {
            lemma_matched_prefix(
                query@,
                case_sensitive,
                closed_lines(text@),
                lines_of(text@),
                (number - 1) as nat,
            );
        }
    }
    out
}


/// The lines of `contents` that contain `query`, comparing case as it stands.
pub fn search_case_sensitive(query: &str, contents: &str) -> (r: Vec<Line>)
    ensures
        lines_view(r@) == search_result(query@, true, contents@),
{
    search(query, true, contents)
}

/// The lines of `contents` whose lower-cased text contains the lower-cased
/// `query`.
pub fn search_case_insensitive(query: &str, contents: &str) -> (r: Vec<Line>)
    ensures
        lines_view(r@) == search_result(query@, false, contents@),
{
    search(query, false, contents)
}

proof fn lemma_matched_numbers(
    query: Seq<char>,
    case_sensitive: bool,
    lines: Seq<Seq<char>>,
    n: nat,
)
    ensures
        ({
            let m = matched(query, case_sensitive, lines, n);
            &&& forall|k: int|
                0 <= k < m.len() ==> 1 <= #[trigger] m[k].0 <= n && m[k].1 == lines[m[k].0 - 1]
            &&& forall|j: int, k: int| 0 <= j < k < m.len() ==> #[trigger] m[j].0 < #[trigger] m[k].0
        }),
    decreases n,
{
    if n > 0 {
        lemma_matched_numbers(query, case_sensitive, lines, (n - 1) as nat);
        let prev = matched(query, case_sensitive, lines, (n - 1) as nat);
        let m = matched(query, case_sensitive, lines, n);
        assert forall|k: int| 0 <= k < m.len() implies 1 <= #[trigger] m[k].0 <= n && m[k].1
            == lines[m[k].0 - 1] by {
            if k < prev.len() {
                assert(m[k] == prev[k]);
            }
        }
        assert forall|j: int, k: int| 0 <= j < k < m.len() implies #[trigger] m[j].0
            < #[trigger] m[k].0 by {
            assert(m[j] == prev[j]);
            if k < prev.len() {
                assert(m[k] == prev[k]);
            }
        }
    }
}

/// Every match carries the number of the line it was found on: the numbers
/// lie between 1 and the number of lines of the text, strictly increase, and
/// each names the line whose text the match holds.
pub proof fn lemma_numbers_name_lines(query: Seq<char>, case_sensitive: bool, contents: Seq<char>)
    ensures
        ({
            let r = search_result(query, case_sensitive, contents);
            let lines = lines_of(contents);
            &&& forall|k: int|
                0 <= k < r.len() ==> 1 <= #[trigger] r[k].0 <= lines.len() && r[k].1 == lines[r[k].0
                    - 1]
            &&& forall|j: int, k: int| 0 <= j < k < r.len() ==> #[trigger] r[j].0 < #[trigger] r[k].0
        }),
{
    lemma_matched_numbers(query, case_sensitive, lines_of(contents), lines_of(contents).len());
}

proof fn lemma_matched_every_line(lines: Seq<Seq<char>>, n: nat)
    requires
        n <= lines.len(),
    ensures
        ({
            let m = matched(seq![], true, lines, n);
            &&& m.len() == n
            &&& forall|k: int| 0 <= k < n ==> #[trigger] m[k] == ((k + 1) as nat, lines[k])
        }),
    decreases n,
{
    if n > 0 {
        lemma_matched_every_line(lines, (n - 1) as nat);
        let line = lines[n - 1];
        let empty: Seq<char> = seq![];
        assert(line.subrange(0, 0 + empty.len() as int) =~= empty);
        assert(contains(line, empty));
    }
}

/// Line numbers count every line of the text, matching or not: with the
/// empty query, which every line contains, the matches are exactly the lines,
/// numbered 1 up to the number of lines.
pub proof fn lemma_numbering_counts_every_line(contents: Seq<char>)
    ensures
        search_result(seq![], true, contents).len() == lines_of(contents).len(),
        forall|k: int|
            0 <= k < lines_of(contents).len() ==> #[trigger] search_result(
                seq![],
                true,
                contents,
            )[k] == ((k + 1) as nat, lines_of(contents)[k]),
{
    lemma_matched_every_line(lines_of(contents), lines_of(contents).len());
}

proof fn lemma_contains_mapped(text: Seq<char>, pattern: Seq<char>, fold: spec_fn(char) -> char)
    requires
        contains(text, pattern),
    ensures
        contains(text.map_values(fold), pattern.map_values(fold)),
{
    let i = choose|i: int|
        0 <= i <= text.len() - pattern.len() && #[trigger] text.subrange(i, i + pattern.len())
            == pattern;
    assert(text.map_values(fold).subrange(i, i + pattern.len()) =~= pattern.map_values(fold));
}

proof fn lemma_matched_folding(
    query: Seq<char>,
    lines: Seq<Seq<char>>,
    n: nat,
    fold: spec_fn(char) -> char,
)
    requires
        n <= lines.len(),
        lower_of(query) == query.map_values(fold),
        forall|i: int| 0 <= i < n ==> lower_of(#[trigger] lines[i]) == lines[i].map_values(fold),
    ensures
        forall|e: (nat, Seq<char>)|
            #[trigger] matched(query, true, lines, n).contains(e) ==> matched(
                query,
                false,
                lines,
                n,
            ).contains(e),
    decreases n,
{
    if n > 0 {
        let line = lines[n - 1];
        lemma_matched_folding(query, lines, (n - 1) as nat, fold);
        if contains(line, query) {
            lemma_contains_mapped(line, query, fold);
        }
        let s_prev = matched(query, true, lines, (n - 1) as nat);
        let i_prev = matched(query, false, lines, (n - 1) as nat);
        let i_now = matched(query, false, lines, n);
        assert forall|e: (nat, Seq<char>)|
            #[trigger] matched(query, true, lines, n).contains(e) implies i_now.contains(e) by {
            if s_prev.contains(e) {
                let k = choose|k: int| 0 <= k < i_prev.len() && i_prev[k] == e;
                assert(i_now[k] == e);
            } else {
                assert(i_now[i_now.len() - 1] == e);
            }
        }
    }
}

/// Ignoring case only adds matches: every match of a case-sensitive search
/// is also a match of the same search ignoring case. This holds wherever
/// lower-casing maps each character on its own (`fold`), as it does for
/// ASCII text and for simple case mappings.
pub proof fn lemma_ignoring_case_adds_matches(
    query: Seq<char>,
    contents: Seq<char>,
    fold: spec_fn(char) -> char,
)
    requires
        lower_of(query) == query.map_values(fold),
        forall|i: int|
            0 <= i < lines_of(contents).len() ==> lower_of(#[trigger] lines_of(contents)[i])
                == lines_of(contents)[i].map_values(fold),
    ensures
        forall|e: (nat, Seq<char>)|
            #[trigger] search_result(query, true, contents).contains(e) ==> search_result(
                query,
                false,
                contents,
            ).contains(e),
{
    lemma_matched_folding(query, lines_of(contents), lines_of(contents).len(), fold);
}

/// An empty text has no lines, so no search of it finds anything.
pub proof fn lemma_empty_text_has_no_matches(query: Seq<char>, case_sensitive: bool)
    ensures
        lines_of(seq![]) == Seq::<Seq<char>>::empty(),
        search_result(query, case_sensitive, seq![]) == Seq::<(nat, Seq<char>)>::empty(),
{
    let e: Seq<char> = seq![];
    assert(open_tail(e) =~= seq![]);
}

} // verus!
