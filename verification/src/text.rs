//! The plain-text rendering of a matrix.

use crate::decimal::decimal_text;
use crate::element::Render;
use crate::header::{first_line, header_text, lemma_header_round_trip, parse_header};
use crate::matrix::Matrix;
use vstd::prelude::*;

verus! {

/// The first `cols` elements of `row`, each followed by one space.
pub open spec fn row_text<T: Render>(row: Seq<T>, cols: nat) -> Seq<char>
    decreases cols,
{
    if cols == 0 {
        Seq::<char>::empty()
    } else {
        row_text(row, (cols - 1) as nat) + row[cols - 1].rendered() + " "@
    }
}

/// The first `rows` rows of `cells`, each as the line of its first `cols`
/// elements, newline included.
pub open spec fn body_text<T: Render>(cells: Seq<Seq<T>>, rows: nat, cols: nat) -> Seq<char>
    decreases rows,
{
    if rows == 0 {
        Seq::<char>::empty()
    } else {
        body_text(cells, (rows - 1) as nat, cols) + row_text(cells[rows - 1], cols) + "\n"@
    }
}

impl<T: Render> Matrix<T> {
    /// The text of the whole matrix: the header line, then one line for each
    /// row.
    pub open spec fn text(&self) -> Seq<char> {
        header_text(self.rows as nat, self.cols as nat) + body_text(
            self.cells(),
            self.rows as nat,
            self.cols as nat,
        )
    }

    /// Writes the matrix out: a header line with the dimensions, then each
    /// row on a line of its own, every element followed by one space.
    ///
    /// The storage must hold an element at every coordinate within the
    /// dimensions, as that of a filled matrix does.
    pub fn to_text(&self) -> (s: String)
        requires
            self.covers(self.rows as nat, self.cols as nat),
        ensures
            s@ == self.text(),
    {
        let mut s = String::from_str("rows: ");
        s.append(decimal_text(self.rows).as_str());
        s.append(", cols: ");
        s.append(decimal_text(self.cols).as_str());
        s.append("\n");
        let ghost head = s@;
        assert(head == header_text(self.rows as nat, self.cols as nat));
        let mut i: usize = 0;
        while i < self.rows
            invariant
                i <= self.rows,
                self.covers(self.rows as nat, self.cols as nat),
                s@ == head + body_text(self.cells(), i as nat, self.cols as nat),
            decreases self.rows - i,
        {
            let ghost before = s@;
            let mut j: usize = 0;
            while j < self.cols
                invariant
                    i < self.rows,
                    j <= self.cols,
                    self.covers(self.rows as nat, self.cols as nat),
                    s@ == before + row_text(self.cells()[i as int], j as nat),
                decreases self.cols - j,
            {
                assert(self.holds(i as int, j as int));
                s.append(self.data[i][j].render().as_str());
                s.append(" ");
                assert(s@ =~= before + row_text(self.cells()[i as int], (j + 1) as nat));
                j += 1;
            }
            s.append("\n");
            assert(s@ =~= head + body_text(self.cells(), (i + 1) as nat, self.cols as nat));
            i += 1;
        }
        s
    }
}

/// Reading back the first line of a matrix's text gives the dimensions of
/// the matrix.
pub proof fn lemma_text_states_dimensions<T: Render>(m: Matrix<T>)
    ensures
        parse_header(first_line(m.text())) == Some((m.rows as nat, m.cols as nat)),
{
    lemma_header_round_trip(
        m.rows as nat,
        m.cols as nat,
        body_text(m.cells(), m.rows as nat, m.cols as nat),
    );
}

} // verus!
