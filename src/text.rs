//! Character-level helpers: substring containment and the split of a text
//! into lines.

use vstd::prelude::*;

verus! {

/// `pattern` occurs in `text` as a contiguous run of characters.
pub open spec fn contains(text: Seq<char>, pattern: Seq<char>) -> bool {
    exists|i: int|
        0 <= i <= text.len() - pattern.len() && #[trigger] text.subrange(i, i + pattern.len())
            == pattern
}

/// The characters of `s`, in order.
pub fn chars_of(s: &str) -> (r: Vec<char>)
    ensures
        r@ == s@,
{
    let mut r: Vec<char> = Vec::new();
    for c in it: s.chars()
        invariant
            it.seq() == s@,
            r@ == it.seq().subrange(0, it.index() as int),
    {
        r.push(c);
    }
    r
}


/// Whether `pattern` occurs in `text`.
pub fn has_substring(text: &[char], pattern: &[char]) -> (r: bool)
    ensures
        r == contains(text@, pattern@),
{
    if pattern.len() > text.len() {
        return false;
    }
    let last: usize = text.len() - pattern.len();
    let mut i: usize = 0;
    loop
        invariant
            pattern@.len() <= text@.len(),
            last == text@.len() - pattern@.len(),
            i <= last,
            forall|k: int|
                0 <= k < i ==> #[trigger] text@.subrange(k, k + pattern@.len()) != pattern@,
        decreases last - i,
    {
        if occurs_at(text, pattern, i) {
            return true;
        }
        if i == last {
            return false;
        }
        i += 1;
    }
}

/// Whether `pattern` occurs in `text` starting at position `at`.
fn occurs_at(text: &[char], pattern: &[char], at: usize) -> (r: bool)
    requires
        at + pattern@.len() <= text@.len(),
    ensures
        r == (text@.subrange(at as int, at + pattern@.len()) == pattern@),
{
    let mut j: usize = 0;
    while j < pattern.len()
        invariant
            at + pattern@.len() <= text@.len(),
            j <= pattern@.len(),
            forall|k: int| 0 <= k < j ==> text@[at + k] == pattern@[k],
        decreases pattern.len() - j,
    {
        let tl = text.len();
        assert(at + j < tl);
        if text[at + j] != pattern[j] {
            assert(text@.subrange(at as int, at + pattern@.len())[j as int] != pattern@[j as int]);
            return false;
        }
        j += 1;
    }
    assert(text@.subrange(at as int, at + pattern@.len()) =~= pattern@);
    true
}

/// Position just after the last line feed of `s`, or 0 when it has none:
/// where the line that `s` ends in begins.
pub open spec fn last_start(s: Seq<char>) -> nat
    decreases s.len(),
{
    if s.len() == 0 {
        0
    } else if s.last() == '\n' {
        s.len()
    } else {
        last_start(s.drop_last())
    }
}

/// A line without the carriage return that ends it, if any.
pub open spec fn strip_cr(line: Seq<char>) -> Seq<char> {
    if line.len() > 0 && line.last() == '\r' {
        line.drop_last()
    } else {
        line
    }
}

/// The lines of `s` that a line feed closes, each without its terminator
/// (`\n` or `\r\n`).
pub open spec fn closed_lines(s: Seq<char>) -> Seq<Seq<char>>
    decreases s.len(),
{
    if s.len() == 0 {
        seq![]
    } else if s.last() == '\n' {
        let p = s.drop_last();
        closed_lines(p).push(strip_cr(p.subrange(last_start(p) as int, p.len() as int)))
    } else {
        closed_lines(s.drop_last())
    }
}

/// The characters after the last line feed of `s`.
pub open spec fn open_tail(s: Seq<char>) -> Seq<char> {
    s.subrange(last_start(s) as int, s.len() as int)
}

/// The lines of `s`: the closed lines, then the unterminated last line if it
/// is not empty. An empty text has no lines, and a final line feed opens no
/// new line.
pub open spec fn lines_of(s: Seq<char>) -> Seq<Seq<char>> {
    if open_tail(s).len() == 0 {
        closed_lines(s)
    } else {
        closed_lines(s).push(open_tail(s))
    }
}

pub proof fn lemma_last_start_bound(s: Seq<char>)
    ensures
        last_start(s) <= s.len(),
    decreases s.len(),
{
    if s.len() > 0 && s.last() != '\n' {
        lemma_last_start_bound(s.drop_last());
    }
}

/// Each closed line takes at least one character of the text.
pub proof fn lemma_closed_lines_bound(s: Seq<char>)
    ensures
        closed_lines(s).len() <= s.len(),
        closed_lines(s).len() < s.len() || last_start(s) == s.len(),
    decreases s.len(),
{
    if s.len() > 0 {
        lemma_closed_lines_bound(s.drop_last());
        lemma_last_start_bound(s.drop_last());
    }
}

/// Relies on `String`'s `FromIterator<char>`: the characters, in order.
#[verifier::external_body]
pub(crate) fn string_of(cs: &[char]) -> (r: String)
    ensures
        r@ == cs@,
{
    cs.iter().collect()
}

/// What `str::to_lowercase` returns for a text.
pub uninterp spec fn lower_of(s: Seq<char>) -> Seq<char>;

/// Relies on `str::to_lowercase`: the result depends on the characters alone,
/// and the empty text stays empty.
#[verifier::external_body]
pub(crate) fn lowercase(s: &str) -> (r: String)
    ensures
        r@ == lower_of(s@),
        s@.len() == 0 ==> r@.len() == 0,
{
    s.to_lowercase()
}

} // verus!
