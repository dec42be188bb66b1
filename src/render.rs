use vstd::prelude::*;
use crate::color::{ansi_of, Color};
use crate::column::ColumnState;
use crate::ring::{Cell, Direction};

verus! {

/// Relies on `String::push`: appends one character at the end.
pub assume_specification[ String::push ](s: &mut String, ch: char)
    ensures
        final(s)@ == old(s)@.push(ch),
;

/// A cell as text: its color, its character, then the default color again.
pub open spec fn cell_text(c: Cell) -> Seq<char> {
    ansi_of(c.1) + seq![c.0] + ansi_of(Color::Default)
}

/// The text of several cells side by side.
pub open spec fn cells_text(cs: Seq<Cell>) -> Seq<char>
    decreases cs.len(),
{
    if cs.len() == 0 {
        Seq::empty()
    } else {
        cells_text(cs.drop_last()) + cell_text(cs.last())
    }
}

/// The cells of screen row `h`: for each column, left to right, the cell
/// its `h`-th read returns.
pub open spec fn row_cells(cols: Seq<ColumnState>, dir: Direction, height: nat, h: int) -> Seq<
    Cell,
> {
    Seq::new(cols.len(), |c: int| cols[c].ring.reads(dir, height)[h])
}

/// The text of screen row `h`, closed by a reset and a line break.
pub open spec fn row_text(cols: Seq<ColumnState>, dir: Direction, height: nat, h: int) -> Seq<
    char,
> {
    cells_text(row_cells(cols, dir, height, h)) + ansi_of(Color::Default) + seq!['\n']
}

/// The text of the first `n` rows of a frame, top to bottom.
pub open spec fn frame_text(cols: Seq<ColumnState>, dir: Direction, height: nat, n: nat) -> Seq<
    char,
>
    decreases n,
{
    if n == 0 {
        Seq::empty()
    } else {
        frame_text(cols, dir, height, (n - 1) as nat) + row_text(cols, dir, height, n - 1)
    }
}

/// Whether `(x, y)` lies on a `width` x `height` screen.
pub open spec fn on_screen(x: int, y: int, width: int, height: int) -> bool {
    0 <= x < width && 0 <= y < height
}

/// The cells of a spiral frame that land on screen, with their positions:
/// the `k`-th cell read from the ray goes to the center shifted by the
/// `k`-th offset, and is left out when that position is off screen.
pub open spec fn spiral_plan(
    cells: Seq<Cell>,
    offsets: Seq<(i32, i32)>,
    center_x: int,
    center_y: int,
    width: int,
    height: int,
) -> Seq<(u16, u16, Cell)>
    decreases offsets.len(),
{
    if offsets.len() == 0 {
        Seq::empty()
    } else {
        let prev = spiral_plan(cells, offsets.drop_last(), center_x, center_y, width, height);
        let k = offsets.len() - 1;
        let x = center_x + offsets[k].0;
        let y = center_y + offsets[k].1;
        if on_screen(x, y, width, height) {
            prev.push((x as u16, y as u16, cells[k]))
        } else {
            prev
        }
    }
}

} // verus!
