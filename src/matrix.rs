use vstd::prelude::*;
use vstd::std_specs::cmp::PartialEqSpec;

use crate::cell::{CellDebug, MatrixBool};
use crate::text::{grid_listing, grid_text, glyph, join_items, lemma_join_push, row_listing};

verus! {

/// Appends the listing of `row` to `out`.
fn append_row_listing<T: CellDebug>(out: &mut String, row: &Vec<T>)
    ensures
        final(out)@ == old(out)@ + row_listing(row@),
{
    let ghost start = out@;
    out.append("[");
    proof {
        reveal_strlit("[");
        assert(row@.take(0).map_values(|c: T| c.debug_view()) =~= Seq::empty());
    }
    let mut j: usize = 0;
    while j < row.len()
        invariant
            j <= row@.len(),
            out@ == start + seq!['['] + join_items(row@.take(j as int).map_values(|c: T| c.debug_view())),
        decreases row@.len() - j,
    {
        let ghost before = row@.take(j as int).map_values(|c: T| c.debug_view());
        if j > 0 {
            out.append(", ");
        }
        let text = row[j].debug_text();
        out.append(text.as_str());
        proof {
            reveal_strlit(", ");
            lemma_join_push(before, row@[j as int].debug_view());
            assert(row@.take(j + 1).map_values(|c: T| c.debug_view())
                =~= before.push(row@[j as int].debug_view()));
        }
        j = j + 1;
    }
    out.append("]");
    proof {
        reveal_strlit("]");
        assert(row@.take(j as int) =~= row@);
    }
}

/// Relies on `String::with_capacity`: an empty string, with room reserved;
/// it panics when the room asked for exceeds `isize::MAX` bytes.
#[verifier::external_body]
fn string_with_capacity(capacity: usize) -> (r: String)
    requires
        capacity <= isize::MAX,
    ensures
        r@ == Seq::<char>::empty(),
{
    String::with_capacity(capacity)
}

/// The room to reserve for a rendering: a byte per cell of a full grid and
/// one per newline, or nothing where that count is out of range.
fn capacity_hint(rows: usize, cols: usize) -> (r: usize)
    ensures
        r == (if rows * cols + rows <= isize::MAX { rows * cols + rows } else { 0 }),
{
    if let Some(cells) = rows.checked_mul(cols) {
        if let Some(total) = cells.checked_add(rows) {
            if total <= isize::MAX as usize {
                return total;
            }
        }
    }
    proof {
        if rows * cols + rows <= isize::MAX {
            assert(rows * cols <= rows * cols + rows);
        }
    }
    0
}

/// A borrowed, read-only view over a grid stored as a vector of rows.
pub struct Matrix2d<'a, T> {
    matrix: &'a Vec<Vec<T>>,
}

impl<'a, T> View for Matrix2d<'a, T> {
    type V = Seq<Seq<T>>;

    closed spec fn view(&self) -> Seq<Seq<T>> {
        self.matrix@.map_values(|row: Vec<T>| row@)
    }
}

impl<'a, T> Matrix2d<'a, T> {
    /// Wraps a grid without copying or inspecting it.
    pub fn from(matrix: &'a Vec<Vec<T>>) -> (r: Self)
        ensures
            r@ == matrix@.map_values(|row: Vec<T>| row@),
    {
        Matrix2d { matrix }
    }

    /// The rows of the grid, in stored order, borrowed from the source.
    pub fn rows(&self) -> (r: &'a [Vec<T>])
        ensures
            r@.map_values(|row: Vec<T>| row@) == self@,
    {
        self.matrix.as_slice()
    }

    /// The number of rows.
    pub fn row_len(&self) -> (r: usize)
        ensures
            r == self@.len(),
    {
        self.matrix.len()
    }

    /// The length of the first row, or 0 when there are no rows.
    pub fn col_len(&self) -> (r: usize)
        ensures
            r == (if self@.len() == 0 { 0 } else { self@[0].len() }),
    {
        if let Some(row) = self.matrix.first() {
            row.len()
        } else {
            0
        }
    }
}

impl<'a, T: CellDebug> Matrix2d<'a, T> {
    /// Lists the rows in order, each as the list of its cells' texts:
    /// `[[true, false], [false, true]]`.
    pub fn to_debug_string(&self) -> (r: String)
        ensures
            r@ == grid_listing(self@),
    {
        let mut out = String::new();
        out.append("[");
        proof {
            reveal_strlit("[");
            assert(self@.take(0).map_values(|row: Seq<T>| row_listing(row)) =~= Seq::empty());
        }
        let mut i: usize = 0;
        while i < self.matrix.len()
            invariant
                i <= self.matrix@.len(),
                out@ == seq!['['] + join_items(
                    self@.take(i as int).map_values(|row: Seq<T>| row_listing(row)),
                ),
            decreases self.matrix@.len() - i,
        {
            let ghost before = self@.take(i as int).map_values(|row: Seq<T>| row_listing(row));
            if i > 0 {
                out.append(", ");
            }
            append_row_listing(&mut out, &self.matrix[i]);
            proof {
                reveal_strlit(", ");
                assert(self@[i as int] == self.matrix@[i as int]@);
                lemma_join_push(before, row_listing(self@[i as int]));
                assert(self@.take(i + 1).map_values(|row: Seq<T>| row_listing(row))
                    =~= before.push(row_listing(self@[i as int])));
            }
            i = i + 1;
        }
        out.append("]");
        proof {
            reveal_strlit("]");
            assert(self@.take(i as int) =~= self@);
        }
        out
    }
}

impl<'a, T: PartialEq<MatrixBool>> Matrix2d<'a, T> {
    /// Renders each row as a line of glyphs: a filled block for each cell
    /// equal to `MatrixBool(true)`, an empty block for any other cell.
    pub fn to_display_string(&self) -> (r: String)
        requires
            T::obeys_eq_spec(),
        ensures
            r@ == grid_text(self@),
    {
        let mut out = string_with_capacity(capacity_hint(self.row_len(), self.col_len()));
        let mut i: usize = 0;
        while i < self.matrix.len()
            invariant
                i <= self.matrix@.len(),
                T::obeys_eq_spec(),
                out@ == grid_text(self@.take(i as int)),
            decreases self.matrix@.len() - i,
        {
            let row = &self.matrix[i];
            let ghost done = out@;
            let mut j: usize = 0;
            while j < row.len()
                invariant
                    j <= row@.len(),
                    T::obeys_eq_spec(),
                    out@ == done + row@.take(j as int).map_values(|c: T| glyph(c)),
                decreases row@.len() - j,
            {
                if row[j] == MatrixBool(true) {
                    out.append("\u{2B1B}");
                } else {
                    out.append("\u{2B1C}");
                }
                proof {
                    reveal_strlit("\u{2B1B}");
                    reveal_strlit("\u{2B1C}");
                    assert(row@.take(j + 1) =~= row@.take(j as int).push(row@[j as int]));
                }
                j = j + 1;
            }
            out.append("\n");
            proof {
                reveal_strlit("\n");
                assert(row@.take(j as int) =~= row@);
                assert(self@.take(i + 1).drop_last() =~= self@.take(i as int));
                assert(self@[i as int] == row@);
            }
            i = i + 1;
        }
        proof {
            assert(self@.take(i as int) =~= self@);
        }
        out
    }
}

/// Asking a view for its rows twice gives the same rows both times, in the
/// order the source stores them.
pub proof fn lemma_rows_repeatable<'a, T>(
    view: &Matrix2d<'a, T>,
    first: &'a [Vec<T>],
    second: &'a [Vec<T>],
)
    requires
        call_ensures(Matrix2d::<'a, T>::rows, (view,), first),
        call_ensures(Matrix2d::<'a, T>::rows, (view,), second),
    ensures
        first@.len() == second@.len(),
        forall|i: int| 0 <= i < first@.len() ==> #[trigger] first@[i]@ == second@[i]@,
        first@.map_values(|row: Vec<T>| row@) == view@,
{
    assert(first@.map_values(|row: Vec<T>| row@).len() == first@.len());
    assert forall|i: int| 0 <= i < first@.len() implies #[trigger] first@[i]@ == second@[i]@ by {
        assert(first@.map_values(|row: Vec<T>| row@)[i] == second@.map_values(|row: Vec<T>| row@)[i]);
    }
}

} // verus!
