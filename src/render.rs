//! The renderer: the text printed for a sequence of matches, with an
//! optional line-number gutter.

use vstd::prelude::*;

use crate::search::{
    lemma_empty_text_has_no_matches, lines_view, search_result, Line,
};
use crate::text::string_of;

verus! {

/// The character of the decimal digit `d` (`d < 10`).
pub open spec fn digit_char(d: nat) -> char {
    ((48 + d) as u8) as char
}

/// The decimal numeral of `n`, without leading zeros.
pub open spec fn decimal(n: nat) -> Seq<char>
    decreases n,
{
    if n < 10 {
        seq![digit_char(n)]
    } else {
        decimal(n / 10).push(digit_char(n % 10))
    }
}

/// The text between a line number and the line's content: it pads numbers
/// of up to three digits to one column, and is a bare `"| "` from four
/// digits on.
pub open spec fn separator_of(number: nat) -> Seq<char> {
    if number < 10 {
        seq![' ', ' ', ' ', '|', ' ']
    } else if number < 100 {
        seq![' ', ' ', '|', ' ']
    } else if number < 1000 {
        seq![' ', '|', ' ']
    } else {
        seq!['|', ' ']
    }
}

/// The output line for one match.
pub open spec fn rendered_line(m: (nat, Seq<char>), show_line_numbers: bool) -> Seq<char> {
    if show_line_numbers {
        decimal(m.0) + separator_of(m.0) + m.1 + seq!['\n']
    } else {
        m.1 + seq!['\n']
    }
}

/// The output for a sequence of matches: their output lines, in order.
pub open spec fn rendered(matches: Seq<(nat, Seq<char>)>, show_line_numbers: bool) -> Seq<char>
    decreases matches.len(),
{
    if matches.len() == 0 {
        seq![]
    } else {
        rendered(matches.drop_last(), show_line_numbers) + rendered_line(
            matches.last(),
            show_line_numbers,
        )
    }
}

proof fn lemma_decimal_len(n: nat)
    ensures
        1 <= decimal(n).len(),
        n >= 1 ==> decimal(n).len() <= n,
        n >= 10 ==> decimal(n).len() == decimal(n / 10).len() + 1,
    decreases n,
{
    if n >= 10 {
        lemma_decimal_len(n / 10);
    }
}

/// Appends the decimal numeral of `n` to `out`.
fn push_decimal(out: &mut Vec<char>, n: usize)
    ensures
        final(out)@ == old(out)@ + decimal(n as nat),
    decreases n,
{
    if n >= 10 {
        push_decimal(out, n / 10);
    }
    let d: u8 = (n % 10) as u8;
    out.push((48u8 + d) as char);
    assert(out@ =~= old(out)@ + decimal(n as nat));
}

/// The decimal numeral of `n`.
fn decimal_string(n: usize) -> (r: String)
    ensures
        r@ == decimal(n as nat),
{
    let mut digits: Vec<char> = Vec::new();
    push_decimal(&mut digits, n);
    assert(digits@ =~= decimal(n as nat));
    string_of(digits.as_slice())
}

impl Line {
    /// The number of decimal digits of the line number.
    pub fn number_len(&self) -> (r: usize)
        ensures
            r as nat == decimal(self.number as nat).len(),
    {
        let mut count: usize = 1;
        let mut rest: usize = self.number;
        while rest >= 10
            invariant
                count + decimal(rest as nat).len() == decimal(self.number as nat).len() + 1,
                rest <= self.number,
            decreases rest,
        {
            proof {
                lemma_decimal_len(rest as nat);
                lemma_decimal_len(self.number as nat);
            }
            rest = rest / 10;
            count += 1;
        }
        count
    }

    /// The separator between the line number and the content.
    pub fn separator(&self) -> (r: &'static str)
        ensures
            r@ == separator_of(self.number as nat),
    {
        if self.number < 10 {
            proof {
                reveal_strlit("   | ");
            }
            "   | "
        } else if self.number < 100 {
            proof {
                reveal_strlit("  | ");
            }
            "  | "
        } else if self.number < 1000 {
            proof {
                reveal_strlit(" | ");
            }
            " | "
        } else {
            proof {
                reveal_strlit("| ");
            }
            "| "
        }
    }
}

/// The output text for `matches`: for each, in order, its content and a line
/// feed, preceded by the line number and its separator when
/// `show_line_numbers` is set.
pub fn render(matches: &Vec<Line>, show_line_numbers: bool) -> (r: String)
    ensures
        r@ == rendered(lines_view(matches@), show_line_numbers),
{
    let mut out = String::new();
    let mut i: usize = 0;
    while i < matches.len()
        invariant
            i <= matches@.len(),
            out@ == rendered(lines_view(matches@.take(i as int)), show_line_numbers),
        decreases matches.len() - i,
    {
        let line = &matches[i];
        if show_line_numbers {
            let numeral = decimal_string(line.number);
            out.append(numeral.as_str());
            out.append(line.separator());
        }
        out.append(line.content.as_str());
        proof {
            reveal_strlit("\n");
        }
        out.append("\n");
        assert(lines_view(matches@.take(i + 1)).drop_last() =~= lines_view(matches@.take(i as int)));
        assert(out@ =~= rendered(lines_view(matches@.take(i + 1)), show_line_numbers));
        i += 1;
    }
    assert(matches@.take(i as int) =~= matches@);
    out
}


/// Rendering depends on the matches' numbers and contents alone: two match
/// sequences with the same models, among them the same sequence rendered
/// twice, give the same text.
pub proof fn lemma_render_depends_on_models_alone(
    a: Seq<Line>,
    b: Seq<Line>,
    show_line_numbers: bool,
)
    requires
        lines_view(a) == lines_view(b),
    ensures
        rendered(lines_view(a), show_line_numbers) == rendered(lines_view(b), show_line_numbers),
{
}

/// An empty text gives no matches, and no matches render to the empty text.
pub proof fn lemma_empty_text_renders_empty(
    query: Seq<char>,
    case_sensitive: bool,
    show_line_numbers: bool,
)
    ensures
        search_result(query, case_sensitive, seq![]) == Seq::<(nat, Seq<char>)>::empty(),
        rendered(search_result(query, case_sensitive, seq![]), show_line_numbers)
            == Seq::<char>::empty(),
{
    lemma_empty_text_has_no_matches(query, case_sensitive);
}

} // verus!
