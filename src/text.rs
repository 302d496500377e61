use vstd::prelude::*;
use vstd::std_specs::cmp::PartialEqSpec;

use crate::cell::{CellDebug, MatrixBool};

verus! {

/// The glyph a cell renders as: a filled block when the cell equals
/// `MatrixBool(true)`, an empty block otherwise.
pub open spec fn glyph<T: PartialEq<MatrixBool>>(cell: T) -> char {
    if cell.eq_spec(&MatrixBool(true)) {
        '\u{2B1B}'
    } else {
        '\u{2B1C}'
    }
}

/// One rendered row: a glyph per cell, no separator, then a newline.
pub open spec fn row_text<T: PartialEq<MatrixBool>>(row: Seq<T>) -> Seq<char> {
    row.map_values(|c: T| glyph(c)).push('\n')
}

/// The rendered grid: the rendered rows, in order.
pub open spec fn grid_text<T: PartialEq<MatrixBool>>(grid: Seq<Seq<T>>) -> Seq<char>
    decreases grid.len(),
{
    if grid.len() == 0 {
        Seq::empty()
    } else {
        grid_text(grid.drop_last()) + row_text(grid.last())
    }
}

/// Texts joined by ", ".
pub open spec fn join_items(items: Seq<Seq<char>>) -> Seq<char>
    decreases items.len(),
{
    if items.len() == 0 {
        Seq::empty()
    } else if items.len() == 1 {
        items[0]
    } else {
        join_items(items.drop_last()) + seq![',', ' '] + items.last()
    }
}

/// A list of texts: "[", the texts joined by ", ", then "]".
pub open spec fn bracketed(items: Seq<Seq<char>>) -> Seq<char> {
    seq!['['] + join_items(items) + seq![']']
}

/// The listing of one row: its cells' texts, bracketed.
pub open spec fn row_listing<T: CellDebug>(row: Seq<T>) -> Seq<char> {
    bracketed(row.map_values(|c: T| c.debug_view()))
}

/// The listing of a grid: its rows' listings, bracketed.
pub open spec fn grid_listing<T: CellDebug>(grid: Seq<Seq<T>>) -> Seq<char> {
    bracketed(grid.map_values(|row: Seq<T>| row_listing(row)))
}

/// Joining one more text adds a separator and the text, except after none.
pub proof fn lemma_join_push(items: Seq<Seq<char>>, item: Seq<char>)
    ensures
        join_items(items.push(item)) == (if items.len() == 0 {
            item
        } else {
            join_items(items) + seq![',', ' '] + item
        }),
{
    assert(items.push(item).drop_last() =~= items);
}

/// `line` written `n` times, one after another.
pub open spec fn repeat_line(line: Seq<char>, n: nat) -> Seq<char>
    decreases n,
{
    if n == 0 {
        Seq::empty()
    } else {
        repeat_line(line, (n - 1) as nat) + line
    }
}

/// A boolean grid whose rows all hold `cols` cells, every one of them equal
/// to `value`, renders as one line per row: `cols` copies of the glyph for
/// `value` (filled for `true`, empty for `false`), then a newline.
pub proof fn lemma_uniform_grid_text(grid: Seq<Seq<bool>>, cols: nat, value: bool)
    requires
        forall|i: int| 0 <= i < grid.len() ==> #[trigger] grid[i].len() == cols,
        forall|i: int, j: int|
            0 <= i < grid.len() && 0 <= j < grid[i].len() ==> #[trigger] grid[i][j] == value,
    ensures
        grid_text(grid) == repeat_line(
            Seq::new(cols, |_k: int| if value { '\u{2B1B}' } else { '\u{2B1C}' }).push('\n'),
            grid.len(),
        ),
    decreases grid.len(),
{
    let line = Seq::new(cols, |_k: int| if value { '\u{2B1B}' } else { '\u{2B1C}' }).push('\n');
    if grid.len() > 0 {
        let rest = grid.drop_last();
        lemma_uniform_grid_text(rest, cols, value);
        let last = grid.last();
        assert(last.len() == cols);
        assert(row_text(last) =~= line) by {
            assert forall|j: int| 0 <= j < cols implies #[trigger] last[j] == value by {
                assert(grid[grid.len() - 1][j] == value);
            }
        }
    }
}

} // verus!
