//! The header line of a matrix's text, and how to read it back.

use crate::decimal::{decimal, digit_run, is_digit, lemma_decimal_denotes, lemma_digit_run, number_of};
use vstd::prelude::*;

verus! {

/// The header line of a matrix of `rows` by `cols`, newline included.
pub open spec fn header_text(rows: nat, cols: nat) -> Seq<char> {
    "rows: "@ + decimal(rows) + ", cols: "@ + decimal(cols) + "\n"@
}

/// The first line of `text`: what stands before its first newline, or all
/// of it where it has none.
pub open spec fn first_line(text: Seq<char>) -> Seq<char>
    decreases text.len(),
{
    if text.len() == 0 || text[0] == '\n' {
        Seq::<char>::empty()
    } else {
        seq![text[0]] + first_line(text.skip(1))
    }
}

/// The dimensions that a header line states, newline not included: `Some`
/// exactly where the line is `rows: `, a number, `, cols: ` and a number,
/// and nothing else.
pub open spec fn parse_header(line: Seq<char>) -> Option<(nat, nat)> {
    let after_rows = line.skip("rows: "@.len() as int);
    let rows_len = digit_run(after_rows);
    let after_number = after_rows.skip(rows_len as int);
    let after_cols = after_number.skip(", cols: "@.len() as int);
    if "rows: "@.is_prefix_of(line) && rows_len > 0 && ", cols: "@.is_prefix_of(after_number)
        && after_cols.len() > 0 && digit_run(after_cols) == after_cols.len() {
        Some((number_of(after_rows.take(rows_len as int)), number_of(after_cols)))
    } else {
        None
    }
}

/// Where the first newline of `text` stands at `k`, the first line is what
/// stands before `k`.
pub proof fn lemma_first_line(text: Seq<char>, k: nat)
    requires
        k < text.len(),
        text[k as int] == '\n',
        forall|i: int| 0 <= i < k ==> #[trigger] text[i] != '\n',
    ensures
        first_line(text) == text.take(k as int),
    decreases k,
{
    if k == 0 {
        assert(text.take(0) =~= Seq::<char>::empty());
    } else {
        let rest = text.skip(1);
        assert forall|i: int| 0 <= i < k - 1 implies #[trigger] rest[i] != '\n' by {
            assert(rest[i] == text[i + 1]);
        }
        lemma_first_line(rest, (k - 1) as nat);
        assert(text.take(k as int) =~= seq![text[0]] + rest.take(k - 1));
    }
}

/// Reading back the first line of a text that begins with the header of
/// `rows` by `cols` gives `rows` and `cols`, whatever follows the header.
pub proof fn lemma_header_round_trip(rows: nat, cols: nat, body: Seq<char>)
    ensures
        parse_header(first_line(header_text(rows, cols) + body)) == Some((rows, cols)),
{
    reveal_strlit("rows: ");
    reveal_strlit(", cols: ");
    reveal_strlit("\n");
    lemma_decimal_denotes(rows);
    lemma_decimal_denotes(cols);
    let a = "rows: "@;
    let b = ", cols: "@;
    let r = decimal(rows);
    let c = decimal(cols);
    let text = header_text(rows, cols) + body;
    let line = a + r + b + c;
    let k = line.len();
    assert(text.take(k as int) =~= line);
    assert(text[k as int] == '\n');
    assert forall|i: int| 0 <= i < k implies #[trigger] text[i] != '\n' by {
        assert(text[i] == line[i]);
        if i < a.len() {
        } else if i < a.len() + r.len() {
            assert(line[i] == r[i - a.len()]);
            assert(is_digit(r[i - a.len()]));
        } else if i < a.len() + r.len() + b.len() {
            assert(line[i] == b[i - a.len() - r.len()]);
        } else {
            assert(line[i] == c[i - a.len() - r.len() - b.len()]);
            assert(is_digit(c[i - a.len() - r.len() - b.len()]));
        }
    }
    lemma_first_line(text, k);
    assert(first_line(text) == line);

    assert(a.is_prefix_of(line));
    let after_rows = line.skip(a.len() as int);
    assert(after_rows =~= r + b + c);
    assert forall|i: int| 0 <= i < r.len() implies is_digit(#[trigger] after_rows[i]) by {
        assert(after_rows[i] == r[i]);
    }
    assert(after_rows[r.len() as int] == b[0]);
    lemma_digit_run(after_rows, r.len());
    assert(after_rows.take(r.len() as int) =~= r);
    let after_number = after_rows.skip(r.len() as int);
    assert(after_number =~= b + c);
    assert(b.is_prefix_of(after_number));
    let after_cols = after_number.skip(b.len() as int);
    assert(after_cols =~= c);
    lemma_digit_run(c, c.len());
}

} // verus!
