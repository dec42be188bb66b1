use vstd::prelude::*;
use std::collections::VecDeque;
use crate::color::Color;
use crate::ring::{blank, lemma_push_all_wf, Cell, CircularCharQueue, Direction, RingState};

verus! {

/// Abstract state of a column: the lines waiting to be shown, the position
/// in the first of them, the spacer cells still owed after the last line,
/// the visible cells, and the colors it draws with.
pub struct ColumnState {
    pub queue: Seq<Seq<char>>,
    pub index: int,
    pub gap: int,
    pub ring: RingState,
    pub color: Color,
    pub highlight: Color,
    pub threshold: int,
}

/// `n` blank cells.
pub open spec fn blanks(n: nat) -> Seq<Cell> {
    Seq::new(n, |i: int| blank())
}

/// Color of the character at position `i` of a line: the highlight color for
/// the first `threshold` characters, the base color after them.
pub open spec fn color_at(i: int, threshold: int, highlight: Color, base: Color) -> Color {
    if i < threshold { highlight } else { base }
}

/// The cells a whole line turns into, one per character.
pub open spec fn line_cells(line: Seq<char>, threshold: int, highlight: Color, base: Color) -> Seq<Cell> {
    Seq::new(line.len(), |i: int| (line[i], color_at(i, threshold, highlight, base)))
}

impl ColumnState {
    /// The ring buffer is well formed, the spacer count is not negative, and
    /// the position lies inside the first waiting line (it is 0 when no line
    /// waits or the first line is empty).
    pub open spec fn wf(self) -> bool {
        &&& self.ring.wf()
        &&& 0 <= self.index
        &&& 0 <= self.gap <= u16::MAX
        &&& self.threshold >= 0
        &&& if self.queue.len() == 0 {
            self.index == 0
        } else {
            self.index == 0 || self.index < self.queue[0].len()
        }
    }

    /// The column with its first waiting line dropped.
    pub open spec fn skip_line(self) -> ColumnState {
        ColumnState { queue: self.queue.drop_first(), index: 0, ..self }
    }

    /// The one cell a tick pushes: a blank while spacer cells are owed or
    /// no line waits; a blank for an empty first line when spacers are asked
    /// for (without them the empty line is skipped); else the next character
    /// of the first line, highlighted while the position is under the
    /// threshold.
    pub open spec fn tick_cell(self, spaces: nat) -> Cell
        decreases self.queue.len(),
    {
        if self.gap > 0 || self.queue.len() == 0 {
            blank()
        } else if self.queue[0].len() == 0 {
            if spaces > 0 {
                blank()
            } else {
                self.skip_line().tick_cell(spaces)
            }
        } else {
            (self.queue[0][self.index], color_at(self.index, self.threshold, self.highlight, self.color))
        }
    }

    /// Lines, position and spacer count after a tick. A line leaves the
    /// queue with the tick that shows its last character (an empty line with
    /// the tick that reaches it), and then `spaces` spacer cells are owed.
    pub open spec fn text_after_tick(self, spaces: nat) -> ColumnState
        decreases self.queue.len(),
    {
        if self.gap > 0 {
            ColumnState { gap: self.gap - 1, ..self }
        } else if self.queue.len() == 0 {
            self
        } else if self.queue[0].len() == 0 {
            if spaces > 0 {
                ColumnState { gap: spaces - 1, ..self.skip_line() }
            } else {
                self.skip_line().text_after_tick(spaces)
            }
        } else if self.index + 1 == self.queue[0].len() {
            ColumnState { gap: spaces as int, ..self.skip_line() }
        } else {
            ColumnState { index: self.index + 1, ..self }
        }
    }

    /// The state after one tick: exactly one cell, `tick_cell`, is pushed.
    pub open spec fn tick(self, spaces: nat) -> ColumnState {
        ColumnState { ring: self.ring.push(self.tick_cell(spaces)), ..self.text_after_tick(spaces) }
    }

    /// The state after `k` ticks.
    pub open spec fn ticked(self, spaces: nat, k: nat) -> ColumnState
        decreases k,
    {
        if k == 0 {
            self
        } else {
            self.ticked(spaces, (k - 1) as nat).tick(spaces)
        }
    }

    /// Every cell that `k` ticks push, in order.
    pub open spec fn emitted(self, spaces: nat, k: nat) -> Seq<Cell>
        decreases k,
    {
        if k == 0 {
            Seq::empty()
        } else {
            self.emitted(spaces, (k - 1) as nat).push(
                self.ticked(spaces, (k - 1) as nat).tick_cell(spaces),
            )
        }
    }
}

proof fn lemma_text_after_tick(s: ColumnState, spaces: nat)
    requires
        s.wf(),
        spaces <= u16::MAX,
    ensures
        s.text_after_tick(spaces).wf(),
        s.text_after_tick(spaces).ring == s.ring,
        s.text_after_tick(spaces).color == s.color,
        s.text_after_tick(spaces).highlight == s.highlight,
        s.text_after_tick(spaces).threshold == s.threshold,
    decreases s.queue.len(),
{
    if s.gap == 0 && s.queue.len() > 0 && s.queue[0].len() == 0 && spaces == 0 {
        lemma_text_after_tick(s.skip_line(), spaces);
    }
}

/// A tick keeps a column well formed and its colors and height unchanged.
pub proof fn lemma_tick_wf(s: ColumnState, spaces: nat)
    requires
        s.wf(),
        spaces <= u16::MAX,
    ensures
        s.tick(spaces).wf(),
        s.tick(spaces).ring.capacity() == s.ring.capacity(),
        s.tick(spaces).color == s.color,
        s.tick(spaces).highlight == s.highlight,
        s.tick(spaces).threshold == s.threshold,
{
    lemma_text_after_tick(s, spaces);
    lemma_push_all_wf(s.ring, seq![s.tick_cell(spaces)]);
    assert(seq![s.tick_cell(spaces)].drop_last() =~= Seq::<Cell>::empty());
    assert(s.ring.push_all(Seq::<Cell>::empty()) == s.ring);
}

/// `k` ticks leave the visible cells as they would be after pushing every
/// cell the ticks emitted, one cell per tick, and keep the column well
/// formed.
pub proof fn lemma_ticked_pushes(s: ColumnState, spaces: nat, k: nat)
    requires
        s.wf(),
        spaces <= u16::MAX,
    ensures
        s.ticked(spaces, k).wf(),
        s.emitted(spaces, k).len() == k,
        s.ticked(spaces, k).ring == s.ring.push_all(s.emitted(spaces, k)),
        s.ticked(spaces, k).ring.capacity() == s.ring.capacity(),
        s.ticked(spaces, k).color == s.color,
        s.ticked(spaces, k).highlight == s.highlight,
        s.ticked(spaces, k).threshold == s.threshold,
    decreases k,
{
    if k > 0 {
        let p = s.ticked(spaces, (k - 1) as nat);
        lemma_ticked_pushes(s, spaces, (k - 1) as nat);
        lemma_tick_wf(p, spaces);
        let e = s.emitted(spaces, k);
        assert(e.drop_last() =~= s.emitted(spaces, (k - 1) as nat));
    }
}

/// An idle column (no line waiting) ticked `k` times emits exactly `k`
/// blank cells and stays idle.
pub proof fn lemma_idle_ticks(s: ColumnState, spaces: nat, k: nat)
    requires
        s.wf(),
        spaces <= u16::MAX,
        s.queue.len() == 0,
    ensures
        s.emitted(spaces, k) == blanks(k),
        s.ticked(spaces, k).queue.len() == 0,
        s.ticked(spaces, k).ring == s.ring.push_all(blanks(k)),
    decreases k,
{
    if k > 0 {
        lemma_idle_ticks(s, spaces, (k - 1) as nat);
        assert(s.emitted(spaces, k) =~= blanks(k));
    }
    lemma_ticked_pushes(s, spaces, k);
}

proof fn lemma_line_prefix(s: ColumnState, spaces: nat, j: nat)
    requires
        s.wf(),
        spaces <= u16::MAX,
        s.queue.len() > 0,
        s.index == 0,
        s.gap == 0,
        j < s.queue[0].len(),
    ensures
        s.ticked(spaces, j) == (ColumnState { index: j as int, ..s.ticked(spaces, j) }),
        s.ticked(spaces, j).queue == s.queue,
        s.ticked(spaces, j).index == j,
        s.ticked(spaces, j).gap == 0,
        s.emitted(spaces, j) == line_cells(s.queue[0], s.threshold, s.highlight, s.color).take(
            j as int,
        ),
    decreases j,
{
    lemma_ticked_pushes(s, spaces, j);
    if j > 0 {
        lemma_line_prefix(s, spaces, (j - 1) as nat);
        assert(s.emitted(spaces, j) =~= line_cells(
            s.queue[0],
            s.threshold,
            s.highlight,
            s.color,
        ).take(j as int));
    }
}

proof fn lemma_gap_ticks(s: ColumnState, spaces: nat, k: nat)
    requires
        s.wf(),
        spaces <= u16::MAX,
        k <= s.gap,
    ensures
        s.ticked(spaces, k) == (ColumnState { gap: s.gap - k, ring: s.ticked(spaces, k).ring, ..s }),
        s.emitted(spaces, k) == blanks(k),
    decreases k,
{
    if k > 0 {
        lemma_gap_ticks(s, spaces, (k - 1) as nat);
        assert(s.emitted(spaces, k) =~= blanks(k));
    }
}

proof fn lemma_emitted_split(s: ColumnState, spaces: nat, a: nat, b: nat)
    ensures
        s.ticked(spaces, a + b) == s.ticked(spaces, a).ticked(spaces, b),
        s.emitted(spaces, a + b) == s.emitted(spaces, a) + s.ticked(spaces, a).emitted(spaces, b),
    decreases b,
{
    if b > 0 {
        lemma_emitted_split(s, spaces, a, (b - 1) as nat);
        assert(s.emitted(spaces, a + b) =~= s.emitted(spaces, a) + s.ticked(spaces, a).emitted(
            spaces,
            b,
        ));
    } else {
        assert(s.emitted(spaces, a) + Seq::<Cell>::empty() =~= s.emitted(spaces, a));
    }
}

/// Draining a line: from the start of the first waiting line, of length
/// `L >= 1`, with no spacer owed, the first `L` ticks emit its characters,
/// the first `threshold` of them in the highlight color and the rest in the
/// base color, and the `L`-th tick removes the line; the next `spaces` ticks
/// emit one blank cell each, after which no spacer is owed.
pub proof fn lemma_line_drain(s: ColumnState, spaces: nat)
    requires
        s.wf(),
        spaces <= u16::MAX,
        s.queue.len() > 0,
        s.queue[0].len() >= 1,
        s.index == 0,
        s.gap == 0,
    ensures
        ({
            let n = s.queue[0].len();
            let cells = line_cells(s.queue[0], s.threshold, s.highlight, s.color);
            &&& s.emitted(spaces, n) == cells
            &&& s.ticked(spaces, n).queue == s.queue.drop_first()
            &&& s.ticked(spaces, n).index == 0
            &&& s.ticked(spaces, n).gap == spaces
            &&& s.emitted(spaces, n + spaces) == cells + blanks(spaces)
            &&& s.ticked(spaces, n + spaces).queue == s.queue.drop_first()
            &&& s.ticked(spaces, n + spaces).gap == 0
        }),
{
    let n = s.queue[0].len();
    let cells = line_cells(s.queue[0], s.threshold, s.highlight, s.color);
    lemma_line_prefix(s, spaces, (n - 1) as nat);
    lemma_ticked_pushes(s, spaces, (n - 1) as nat);
    assert(s.emitted(spaces, n) =~= cells);
    let t = s.ticked(spaces, n);
    lemma_ticked_pushes(s, spaces, n);
    lemma_gap_ticks(t, spaces, spaces);
    lemma_emitted_split(s, spaces, n, spaces);
}

/// One screen column (or the spiral's ray): its visible cells and the lines
/// waiting to be drained into them, one cell per tick.
#[derive(Clone)]
pub struct ColumnMat {
    invisible_cache: VecDeque<String>,
    visible_line: CircularCharQueue,
    index: usize,
    gap_left: u16,
    color: Color,
    highlight: Color,
    highlight_threshold: usize,
}

impl View for ColumnMat {
    type V = ColumnState;

    closed spec fn view(&self) -> ColumnState {
        ColumnState {
            queue: self.invisible_cache@.map_values(|s: String| s@),
            index: self.index as int,
            gap: self.gap_left as int,
            ring: self.visible_line@,
            color: self.color,
            highlight: self.highlight,
            threshold: self.highlight_threshold as int,
        }
    }
}

impl ColumnMat {
    /// An idle column of `height` blank cells.
    pub fn new(height: usize, color: Color, highlight: Color, highlight_threshold: usize) -> (r: Self)
        ensures
            r@ == (ColumnState {
                queue: Seq::empty(),
                index: 0,
                gap: 0,
                ring: RingState::blanks(height as nat),
                color,
                highlight,
                threshold: highlight_threshold as int,
            }),
            r@.wf(),
    {
        let r = ColumnMat {
            invisible_cache: VecDeque::new(),
            visible_line: CircularCharQueue::new(height),
            index: 0,
            gap_left: 0,
            color,
            highlight,
            highlight_threshold,
        };
        assert(r@.queue =~= Seq::empty());
        r
    }

    /// Number of cells the column shows.
    pub fn height(&self) -> (r: usize)
        ensures
            r as int == self@.ring.capacity(),
    {
        self.visible_line.capacity()
    }

    /// Number of lines waiting to be drained.
    pub fn pending(&self) -> (r: usize)
        ensures
            r as int == self@.queue.len(),
    {
        self.invisible_cache.len()
    }

    /// Appends a line to those waiting.
    pub fn add_line(&mut self, addon: String)
        requires
            old(self)@.wf(),
        ensures
            final(self)@ == (ColumnState { queue: old(self)@.queue.push(addon@), ..old(self)@ }),
            final(self)@.wf(),
    {
        self.invisible_cache.push_back(addon);
        assert(self@.queue =~= old(self)@.queue.push(addon@));
    }

    /// Advances the column by one tick, pushing exactly one cell (see
    /// `ColumnState::tick`); `spaces` blank cells separate two lines.
    pub fn tick(&mut self, spaces: u16)
        requires
            old(self)@.wf(),
        ensures
            final(self)@ == old(self)@.tick(spaces as nat),
            final(self)@.ring == old(self)@.ring.push(old(self)@.tick_cell(spaces as nat)),
            final(self)@.wf(),
    {
        let ghost s0 = self@;
        proof { lemma_tick_wf(s0, spaces as nat); }
        if self.gap_left > 0 {
            self.visible_line.push_back(' ', Color::Default);
            self.gap_left = self.gap_left - 1;
            return;
        }
        if spaces == 0 {
            while self.invisible_cache.len() > 0 && self.invisible_cache[0].as_str().unicode_len() == 0
                invariant
                    spaces == 0,
                    self@.wf(),
                    self@.gap == 0,
                    self@.ring == s0.ring,
                    self@.tick(0) == s0.tick(0),
                    self@.tick_cell(0) == s0.tick_cell(0),
                decreases self.invisible_cache@.len(),
            {
                let ghost before = self@;
                self.invisible_cache.pop_front();
                assert(self@.queue =~= before.queue.drop_first());
                assert(self@ == before.skip_line());
            }
        }
        if self.invisible_cache.len() == 0 {
            self.visible_line.push_back(' ', Color::Default);
            return;
        }
        let len = self.invisible_cache[0].as_str().unicode_len();
        if len == 0 {
            let ghost before = self@;
            self.invisible_cache.pop_front();
            self.index = 0;
            self.gap_left = spaces - 1;
            self.visible_line.push_back(' ', Color::Default);
            assert(self@.queue =~= before.queue.drop_first());
            return;
        }
        let a = self.invisible_cache[0].as_str().get_char(self.index);
        let c = if self.index < self.highlight_threshold {
            self.highlight
        } else {
            self.color
        };
        self.visible_line.push_back(a, c);
        if self.index + 1 == len {
            let ghost before = self@;
            self.invisible_cache.pop_front();
            self.index = 0;
            self.gap_left = spaces;
            assert(self@.queue =~= before.queue.drop_first());
        } else {
            self.index = self.index + 1;
        }
    }

    /// Reads the next visible cell for `dir` (see `CircularCharQueue::get_next`).
    pub fn get_next(&mut self, dir: &Direction) -> (r: Cell)
        requires
            old(self)@.wf(),
        ensures
            r == old(self)@.ring.peek(),
            final(self)@ == (ColumnState { ring: old(self)@.ring.advance(*dir), ..old(self)@ }),
            final(self)@.wf(),
    {
        self.visible_line.get_next(dir)
    }
}

} // verus!
