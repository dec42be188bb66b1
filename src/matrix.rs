use vstd::prelude::*;
use crate::color::{ansi_of, Color};
use crate::column::{ColumnMat, ColumnState};
use crate::render::{cells_text, frame_text, row_cells, spiral_plan};
use crate::ring::{blank, lemma_advanced_wf, lemma_reads_advanced, Cell, Direction, RingState};

verus! {

/// The settings the animation runs with, fixed for its whole life.
#[derive(Debug, Clone, Copy, PartialEq, Eq)]
pub struct Args {
    /// Color of the text.
    pub color: Color,
    /// Color of the first characters of each line.
    pub highlight_color: Color,
    /// How many characters of each line are highlighted.
    pub highlight_threshold: usize,
    /// Period between two frames, in milliseconds.
    pub frequency: u64,
    /// How the text moves.
    pub direction: Direction,
    /// Blank cells between two lines.
    pub spaces: u16,
}

/// A fresh, idle column of `height` cells drawn with the colors of `opt`.
pub open spec fn fresh_column(height: nat, opt: Args) -> ColumnState {
    ColumnState {
        queue: Seq::empty(),
        index: 0,
        gap: 0,
        ring: RingState::blanks(height),
        color: opt.color,
        highlight: opt.highlight_color,
        threshold: opt.highlight_threshold as int,
    }
}

/// Length of the spiral's ray on a `width` x `height` terminal.
pub open spec fn spiral_length_of(width: int, height: int) -> int {
    2 * (width + height)
}

/// The columns for a `width` x `height` terminal: one ray of
/// `spiral_length` cells in spiral mode, else one column of `height` cells
/// per screen column.
pub open spec fn fresh_columns(width: int, height: int, spiral_length: int, opt: Args) -> Seq<
    ColumnState,
> {
    match opt.direction {
        Direction::SpiralRight => seq![fresh_column(spiral_length as nat, opt)],
        _ => Seq::new(width as nat, |i: int| fresh_column(height as nat, opt)),
    }
}

/// A column after `k` of its cells were read in direction `dir`.
pub open spec fn read_on(col: ColumnState, dir: Direction, k: nat) -> ColumnState {
    ColumnState { ring: col.ring.advanced(dir, k), ..col }
}

/// The column that a line goes to when the random draw is `draw`.
pub open spec fn target_column(draw: u16, count: nat) -> int {
    (draw as int) % (count as int)
}

/// Time left to wait at the end of a frame, in microseconds: the period less
/// the time the frame already took, or nothing when it took longer.
pub open spec fn pause_of(period_ms: int, elapsed_us: int) -> int {
    if elapsed_us >= period_ms * 1000 { 0 } else { period_ms * 1000 - elapsed_us }
}

/// Computes `pause_of`: a frame that overran its period waits not at all.
pub fn frame_pause(period_ms: u64, elapsed_us: u128) -> (r: u128)
    ensures
        r as int == pause_of(period_ms as int, elapsed_us as int),
{
    let period_us: u128 = period_ms as u128 * 1000;
    if elapsed_us >= period_us {
        0
    } else {
        period_us - elapsed_us
    }
}

/// Relies on `rand::random`: a `u16` from the thread's generator. Nothing is
/// known of its value.
#[verifier::external_body]
fn random_u16() -> u16 {
    rand::random::<u16>()
}

/// Abstract state of the animation.
pub struct MatrixState {
    pub width: int,
    pub height: int,
    pub center_x: int,
    pub center_y: int,
    pub spiral_length: int,
    pub columns: Seq<ColumnState>,
    pub opt: Args,
}

impl MatrixState {
    /// The state just after the terminal was found to be `width` x `height`.
    pub open spec fn fresh(width: int, height: int, opt: Args) -> MatrixState {
        MatrixState {
            width,
            height,
            center_x: width / 2,
            center_y: height / 2,
            spiral_length: spiral_length_of(width, height),
            columns: fresh_columns(width, height, spiral_length_of(width, height), opt),
            opt,
        }
    }

    /// The state after `line` was appended to column `i`.
    pub open spec fn with_line(self, i: int, line: Seq<char>) -> MatrixState {
        MatrixState {
            columns: self.columns.update(
                i,
                ColumnState { queue: self.columns[i].queue.push(line), ..self.columns[i] },
            ),
            ..self
        }
    }

    /// Derived values agree with the size, and the columns have the count and
    /// heights the size asks for, each well formed.
    pub open spec fn wf(self) -> bool {
        &&& 0 <= self.width <= u16::MAX
        &&& 0 <= self.height <= u16::MAX
        &&& self.center_x == self.width / 2
        &&& self.center_y == self.height / 2
        &&& self.spiral_length == spiral_length_of(self.width, self.height)
        &&& self.columns.len() == match self.opt.direction {
            Direction::SpiralRight => 1,
            _ => self.width,
        }
        &&& forall|i: int|
            0 <= i < self.columns.len() ==> {
                let c = #[trigger] self.columns[i];
                &&& c.wf()
                &&& c.ring.capacity() == match self.opt.direction {
                    Direction::SpiralRight => self.spiral_length,
                    _ => self.height,
                }
                &&& c.color == self.opt.color
                &&& c.highlight == self.opt.highlight_color
                &&& c.threshold == self.opt.highlight_threshold
            }
    }
}

/// Resizing to `width` x `height` leaves exactly `width` idle columns of
/// `height` blank cells each in the directional modes, or one idle ray of
/// `2 * (width + height)` blank cells in spiral mode: nothing of the earlier
/// content remains.
pub proof fn lemma_resize_shape(width: u16, height: u16, opt: Args)
    ensures
        ({
            let s = MatrixState::fresh(width as int, height as int, opt);
            &&& s.wf()
            &&& s.columns.len() == match opt.direction {
                Direction::SpiralRight => 1,
                _ => width as int,
            }
            &&& forall|i: int|
                0 <= i < s.columns.len() ==> {
                    let c = #[trigger] s.columns[i];
                    &&& c.queue.len() == 0
                    &&& c.ring.capacity() == match opt.direction {
                        Direction::SpiralRight => 2 * (width + height),
                        _ => height as int,
                    }
                    &&& forall|j: int| 0 <= j < c.ring.capacity() ==> #[trigger] c.ring.cells[j] == blank()
                }
        }),
{
}

/// The animation: terminal size, the columns, and the settings.
pub struct Matrix {
    width: u16,
    height: u16,
    center_x: u16,
    center_y: u16,
    spiral_length: usize,
    columns: Vec<ColumnMat>,
    opt: Args,
}

impl View for Matrix {
    type V = MatrixState;

    closed spec fn view(&self) -> MatrixState {
        MatrixState {
            width: self.width as int,
            height: self.height as int,
            center_x: self.center_x as int,
            center_y: self.center_y as int,
            spiral_length: self.spiral_length as int,
            columns: self.columns@.map_values(|c: ColumnMat| c@),
            opt: self.opt,
        }
    }
}

impl Matrix {
    /// The animation for a `width` x `height` terminal, every column idle.
    pub fn new(width: u16, height: u16, opt: Args) -> (r: Matrix)
        ensures
            r@ == MatrixState::fresh(width as int, height as int, opt),
            r@.wf(),
    {
        let spiral_length = Matrix::get_spiral_length(height, width);
        let columns = Matrix::get_columns(width, height, spiral_length, &opt);
        let r = Matrix {
            width,
            height,
            center_x: width / 2,
            center_y: height / 2,
            spiral_length,
            columns,
            opt,
        };
        assert(r@.columns =~= fresh_columns(width as int, height as int, spiral_length as int, opt));
        r
    }

    /// Length of the spiral's ray: twice the sum of the two sides.
    pub fn get_spiral_length(height: u16, width: u16) -> (r: usize)
        ensures
            r as int == spiral_length_of(width as int, height as int),
    {
        (height as usize + width as usize) * 2
    }

    /// Fresh columns for the given size (see `fresh_columns`).
    pub fn get_columns(width: u16, height: u16, spiral_length: usize, opt: &Args) -> (r: Vec<
        ColumnMat,
    >)
        ensures
            r@.map_values(|c: ColumnMat| c@) == fresh_columns(
                width as int,
                height as int,
                spiral_length as int,
                *opt,
            ),
            forall|i: int| 0 <= i < r@.len() ==> (#[trigger] r@[i])@.wf(),
    {
        let mut r: Vec<ColumnMat> = Vec::new();
        match opt.direction {
            Direction::SpiralRight => {
                r.push(ColumnMat::new(spiral_length, opt.color, opt.highlight_color, opt.highlight_threshold));
            },
            Direction::Top | Direction::Bottom => {
                let mut i: u16 = 0;
                while i < width
                    invariant
                        i <= width,
                        r@.len() == i,
                        forall|j: int| 0 <= j < i ==> (#[trigger] r@[j])@ == fresh_column(height as nat, *opt),
                        forall|j: int| 0 <= j < i ==> (#[trigger] r@[j])@.wf(),
                    decreases width - i,
                {
                    r.push(ColumnMat::new(height as usize, opt.color, opt.highlight_color, opt.highlight_threshold));
                    i = i + 1;
                }
            },
        }
        assert(r@.map_values(|c: ColumnMat| c@) =~= fresh_columns(
            width as int,
            height as int,
            spiral_length as int,
            *opt,
        ));
        r
    }

    /// Takes the terminal's current size. When it differs from the last one,
    /// every column is rebuilt for the new size, their content dropped, and
    /// `true` is returned (the screen must then be cleared); else nothing
    /// changes.
    pub fn update_mat(&mut self, width: u16, height: u16) -> (resized: bool)
        requires
            old(self)@.wf(),
        ensures
            resized == (width as int != old(self)@.width || height as int != old(self)@.height),
            resized ==> final(self)@ == MatrixState::fresh(width as int, height as int, old(self)@.opt),
            !resized ==> final(self)@ == old(self)@,
            final(self)@.wf(),
    {
        if self.width != width || self.height != height {
            self.height = height;
            self.width = width;
            self.center_x = width / 2;
            self.center_y = height / 2;
            self.spiral_length = Matrix::get_spiral_length(height, width);
            self.columns = Matrix::get_columns(width, height, self.spiral_length, &self.opt);
            assert(self@.columns =~= fresh_columns(width as int, height as int, self.spiral_length as int, self.opt));
            true
        } else {
            false
        }
    }

    /// Appends `line` to the column `draw % count` (see `target_column`);
    /// with no column the line is dropped.
    pub fn add_line_at(&mut self, line: String, draw: u16)
        requires
            old(self)@.wf(),
        ensures
            final(self)@.wf(),
            old(self)@.columns.len() == 0 ==> final(self)@ == old(self)@,
            old(self)@.columns.len() > 0 ==> final(self)@ == old(self)@.with_line(
                target_column(draw, old(self)@.columns.len()),
                line@,
            ),
    {
        let n = self.columns.len();
        if n == 0 {
            return;
        }
        let i = (draw as usize) % n;
        assert(self@.columns[i as int] == self.columns@[i as int]@);
        self.columns[i].add_line(line);
        assert(self@.columns =~= old(self)@.columns.update(
            i as int,
            ColumnState { queue: old(self)@.columns[i as int].queue.push(line@), ..old(self)@.columns[i as int] },
        ));
    }

    /// Appends `line` to a column picked at random; with no column the line
    /// is dropped.
    pub fn route_line(&mut self, line: String)
        requires
            old(self)@.wf(),
        ensures
            final(self)@.wf(),
            old(self)@.columns.len() == 0 ==> final(self)@ == old(self)@,
            old(self)@.columns.len() > 0 ==> exists|i: int|
                0 <= i < old(self)@.columns.len() && final(self)@ == #[trigger] old(
                    self,
                )@.with_line(i, line@),
    {
        let draw = random_u16();
        self.add_line_at(line, draw);
    }

    /// Ticks every column once, with the configured number of spacer cells.
    pub fn tick_all(&mut self)
        requires
            old(self)@.wf(),
        ensures
            final(self)@.wf(),
            final(self)@ == (MatrixState {
                columns: Seq::new(
                    old(self)@.columns.len(),
                    |i: int| old(self)@.columns[i].tick(old(self)@.opt.spaces as nat),
                ),
                ..old(self)@
            }),
    {
        let ghost s0 = self@;
        let spaces = self.opt.spaces;
        let n = self.columns.len();
        let mut i: usize = 0;
        while i < n
            invariant
                i <= n,
                n == s0.columns.len(),
                s0.wf(),
                spaces == s0.opt.spaces,
                self.columns@.len() == n,
                self@ == (MatrixState { columns: self@.columns, ..s0 }),
                forall|j: int| 0 <= j < i ==> (#[trigger] self.columns@[j])@ == s0.columns[j].tick(spaces as nat),
                forall|j: int| i <= j < n ==> (#[trigger] self.columns@[j])@ == s0.columns[j],
            decreases n - i,
        {
            assert(s0.columns[i as int] == self.columns@[i as int]@);
            self.columns[i].tick(spaces);
            i = i + 1;
        }
        assert(self@.columns =~= Seq::new(n as nat, |i: int| s0.columns[i].tick(spaces as nat)));
        assert forall|j: int| 0 <= j < self@.columns.len() implies {
            let c = #[trigger] self@.columns[j];
            &&& c.wf()
            &&& c.ring.capacity() == match self@.opt.direction {
                Direction::SpiralRight => self@.spiral_length,
                _ => self@.height,
            }
            &&& c.color == self@.opt.color
            &&& c.highlight == self@.opt.highlight_color
            &&& c.threshold == self@.opt.highlight_threshold
        } by {
            assert(s0.columns[j].wf());
            crate::column::lemma_tick_wf(s0.columns[j], spaces as nat);
        }
        assert(self@.wf());
    }

    /// Terminal width the columns were built for.
    pub fn width(&self) -> (r: u16)
        ensures
            r as int == self@.width,
    {
        self.width
    }

    /// Terminal height the columns were built for.
    pub fn height(&self) -> (r: u16)
        ensures
            r as int == self@.height,
    {
        self.height
    }

    /// Center of the screen, where the spiral starts.
    pub fn center(&self) -> (r: (u16, u16))
        ensures
            r.0 as int == self@.center_x,
            r.1 as int == self@.center_y,
    {
        (self.center_x, self.center_y)
    }

    /// Length of the spiral's ray.
    pub fn spiral_length(&self) -> (r: usize)
        ensures
            r as int == self@.spiral_length,
    {
        self.spiral_length
    }

    /// The settings.
    pub fn opt(&self) -> (r: Args)
        ensures
            r == self@.opt,
    {
        self.opt
    }

    /// Number of columns.
    pub fn column_count(&self) -> (r: usize)
        ensures
            r as int == self@.columns.len(),
    {
        self.columns.len()
    }

    /// Column `i`.
    pub fn column(&self, i: usize) -> (r: &ColumnMat)
        requires
            i < self@.columns.len(),
        ensures
            r@ == self@.columns[i as int],
    {
        &self.columns[i]
    }

    /// Draws a frame of the directional modes: `height` rows, top to bottom,
    /// each made of the next cell of every column, left to right (see
    /// `frame_text`). Each column is read `height` times.
    pub fn directional_exec(&mut self) -> (r: String)
        requires
            old(self)@.wf(),
        ensures
            r@ == frame_text(
                old(self)@.columns,
                old(self)@.opt.direction,
                old(self)@.height as nat,
                old(self)@.height as nat,
            ),
            final(self)@ == (MatrixState {
                columns: Seq::new(
                    old(self)@.columns.len(),
                    |c: int| read_on(old(self)@.columns[c], old(self)@.opt.direction, old(self)@.height as nat),
                ),
                ..old(self)@
            }),
            final(self)@.wf(),
    {
        let ghost s0 = self@;
        let ghost cols = s0.columns;
        let dir = self.opt.direction;
        let height = self.height;
        let ghost hn = height as nat;
        let n = self.columns.len();
        let reset = Color::Default.to_ansi();
        let mut out = String::new();
        let mut h: u16 = 0;
        while h < height
            invariant
                h <= height,
                s0.wf(),
                height as int == s0.height,
                hn == height as nat,
                dir == s0.opt.direction,
                n == cols.len(),
                cols == s0.columns,
                reset@ == ansi_of(Color::Default),
                self.columns@.len() == n,
                self@ == (MatrixState { columns: self@.columns, ..s0 }),
                forall|j: int| 0 <= j < n ==> (#[trigger] self.columns@[j])@ == read_on(cols[j], dir, h as nat),
                out@ == frame_text(cols, dir, hn, h as nat),
            decreases height - h,
        {
            let mut line = String::new();
            let mut c: usize = 0;
            while c < n
                invariant
                    h < height,
                    c <= n,
                    s0.wf(),
                    height as int == s0.height,
                    hn == height as nat,
                    dir == s0.opt.direction,
                    n == cols.len(),
                    cols == s0.columns,
                    reset@ == ansi_of(Color::Default),
                    self.columns@.len() == n,
                    self@ == (MatrixState { columns: self@.columns, ..s0 }),
                    forall|j: int| 0 <= j < c ==> (#[trigger] self.columns@[j])@ == read_on(cols[j], dir, (h + 1) as nat),
                    forall|j: int| c <= j < n ==> (#[trigger] self.columns@[j])@ == read_on(cols[j], dir, h as nat),
                    line@ == cells_text(row_cells(cols, dir, hn, h as int).take(c as int)),
                    out@ == frame_text(cols, dir, hn, h as nat),
                decreases n - c,
            {
                proof {
                    assert(cols[c as int].wf());
                    lemma_advanced_wf(cols[c as int].ring, dir, h as nat);
                    lemma_reads_advanced(cols[c as int].ring, dir, hn, h as nat);
                    assert(row_cells(cols, dir, hn, h as int).take(c + 1).drop_last()
                        =~= row_cells(cols, dir, hn, h as int).take(c as int));
                }
                let cell = self.columns[c].get_next(&dir);
                let code = cell.1.to_ansi();
                line.append(code.as_str());
                line.push(cell.0);
                line.append(reset.as_str());
                c = c + 1;
                assert(line@ =~= cells_text(row_cells(cols, dir, hn, h as int).take(c as int)));
            }
            assert(row_cells(cols, dir, hn, h as int).take(n as int) =~= row_cells(cols, dir, hn, h as int));
            line.append(reset.as_str());
            line.push('\n');
            out.append(line.as_str());
            h = h + 1;
            assert(out@ =~= frame_text(cols, dir, hn, h as nat));
        }
        assert(self@.columns =~= Seq::new(n as nat, |c: int| read_on(cols[c], dir, hn)));
        assert forall|j: int| 0 <= j < n implies (#[trigger] self@.columns[j]).wf()
            && self@.columns[j].ring.capacity() == cols[j].ring.capacity() by {
            assert(cols[j].wf());
            lemma_advanced_wf(cols[j].ring, dir, hn);
        }
        out
    }

    /// Draws a frame of the spiral mode, one offset per ray position
    /// `1 .. spiral_length`. The `k`-th offset places the `k`-th
    /// cell read from the ray at the center shifted by that offset; cells
    /// that land off screen are skipped, though the ray advanced past them
    /// all the same (see `spiral_plan`).
    pub fn spiral_exec(&mut self, offsets: &Vec<(i32, i32)>) -> (r: Vec<(u16, u16, Cell)>)
        requires
            old(self)@.wf(),
            old(self)@.opt.direction == Direction::SpiralRight,
            offsets@.len() == if old(self)@.spiral_length == 0 {
                0
            } else {
                old(self)@.spiral_length - 1
            },
        ensures
            r@ == spiral_plan(
                old(self)@.columns[0].ring.reads(Direction::SpiralRight, offsets@.len()),
                offsets@,
                old(self)@.center_x,
                old(self)@.center_y,
                old(self)@.width,
                old(self)@.height,
            ),
            final(self)@ == (MatrixState {
                columns: seq![read_on(old(self)@.columns[0], Direction::SpiralRight, offsets@.len())],
                ..old(self)@
            }),
            final(self)@.wf(),
    {
        let ghost s0 = self@;
        let ghost ray = s0.columns[0];
        let ghost cells = ray.ring.reads(Direction::SpiralRight, offsets@.len());
        let cx = self.center_x as i64;
        let cy = self.center_y as i64;
        let w = self.width as i64;
        let ht = self.height as i64;
        let mut out: Vec<(u16, u16, Cell)> = Vec::new();
        let mut k: usize = 0;
        while k < offsets.len()
            invariant
                k <= offsets@.len(),
                s0.wf(),
                s0.opt.direction == Direction::SpiralRight,
                ray == s0.columns[0],
                cells == ray.ring.reads(Direction::SpiralRight, offsets@.len()),
                cx == s0.center_x,
                cy == s0.center_y,
                w == s0.width,
                ht == s0.height,
                self.columns@.len() == 1,
                self@ == (MatrixState { columns: self@.columns, ..s0 }),
                self.columns@[0]@ == read_on(ray, Direction::SpiralRight, k as nat),
                out@ == spiral_plan(cells, offsets@.take(k as int), s0.center_x, s0.center_y, s0.width, s0.height),
            decreases offsets@.len() - k,
        {
            proof {
                assert(ray.wf());
                lemma_advanced_wf(ray.ring, Direction::SpiralRight, k as nat);
                lemma_reads_advanced(ray.ring, Direction::SpiralRight, offsets@.len(), k as nat);
                assert(offsets@.take(k + 1).drop_last() =~= offsets@.take(k as int));
            }
            let cell = self.columns[0].get_next(&Direction::SpiralRight);
            let (dx, dy) = offsets[k];
            let x = cx + dx as i64;
            let y = cy + dy as i64;
            if 0 <= x && x < w && 0 <= y && y < ht {
                out.push((x as u16, y as u16, cell));
            }
            k = k + 1;
        }
        assert(offsets@.take(offsets@.len() as int) =~= offsets@);
        assert(self@.columns =~= seq![read_on(ray, Direction::SpiralRight, offsets@.len())]);
        proof {
            assert(ray.wf());
            lemma_advanced_wf(ray.ring, Direction::SpiralRight, offsets@.len());
        }
        out
    }
}

} // verus!
