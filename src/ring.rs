use vstd::prelude::*;
use crate::color::Color;

verus! {

/// One character on screen, with the color it is drawn in.
pub type Cell = (char, Color);

/// The cell that stands for empty space.
pub open spec fn blank() -> Cell {
    (' ', Color::Default)
}

/// How the content of the screen moves, and so in which order a buffer is
/// read back.
#[derive(Debug, Clone, Copy, PartialEq, Eq, Structural)]
pub enum Direction {
    /// Text rises toward the top edge.
    Top,
    /// Text falls toward the bottom edge.
    Bottom,
    /// Text winds outward along a spiral from the center.
    SpiralRight,
}

/// The slot `i` steps below `f`, wrapping at the bottom of `n` slots.
pub open spec fn slot_below(f: int, i: int, n: int) -> int {
    if f - i >= 0 { f - i } else { f - i + n }
}

/// The slot `i` steps above `f`, wrapping at the top of `n` slots.
pub open spec fn slot_above(f: int, i: int, n: int) -> int {
    if f + i < n { f + i } else { f + i - n }
}

/// Abstract state of a ring buffer: its cells, the read cursor (`front`)
/// and the write cursor (`back`).
pub struct RingState {
    pub cells: Seq<Cell>,
    pub front: int,
    pub back: int,
}

impl RingState {
    pub open spec fn capacity(self) -> int {
        self.cells.len() as int
    }

    /// Both cursors point at a cell; a buffer without cells keeps them at 0.
    pub open spec fn wf(self) -> bool {
        if self.capacity() == 0 {
            self.front == 0 && self.back == 0
        } else {
            0 <= self.front < self.capacity() && 0 <= self.back < self.capacity()
        }
    }

    /// A buffer of `n` blank cells.
    pub open spec fn blanks(n: nat) -> RingState {
        RingState { cells: Seq::new(n, |i: int| blank()), front: 0, back: 0 }
    }

    /// The state after a push of `c`: the cell under the write cursor is
    /// overwritten, the write cursor moves one slot down (wrapping) and the
    /// read cursor joins it.
    pub open spec fn push(self, c: Cell) -> RingState {
        if self.capacity() == 0 {
            self
        } else {
            let b = slot_below(self.back, 1, self.capacity());
            RingState { cells: self.cells.update(self.back, c), front: b, back: b }
        }
    }

    /// The state after pushing every cell of `s`, first to last.
    pub open spec fn push_all(self, s: Seq<Cell>) -> RingState
        decreases s.len(),
    {
        if s.len() == 0 {
            self
        } else {
            self.push_all(s.drop_last()).push(s.last())
        }
    }

    /// The cells the buffer holds, oldest first: the slot under the write
    /// cursor, then the slots below it, wrapping.
    pub open spec fn history(self) -> Seq<Cell> {
        Seq::new(self.cells.len(), |i: int| self.cells[slot_below(self.back, i, self.capacity())])
    }

    /// The cell under the read cursor.
    pub open spec fn peek(self) -> Cell {
        if self.capacity() == 0 {
            blank()
        } else {
            self.cells[self.front]
        }
    }

    /// The state after the read cursor moves one step for `dir`: down for
    /// `Top` and `SpiralRight`, up for `Bottom`, wrapping at the ends.
    pub open spec fn advance(self, dir: Direction) -> RingState {
        if self.capacity() == 0 {
            self
        } else {
            let f = match dir {
                Direction::Bottom => slot_above(self.front, 1, self.capacity()),
                _ => slot_below(self.front, 1, self.capacity()),
            };
            RingState { front: f, ..self }
        }
    }

    /// The state after `n` reads in direction `dir`.
    pub open spec fn advanced(self, dir: Direction, n: nat) -> RingState
        decreases n,
    {
        if n == 0 {
            self
        } else {
            self.advanced(dir, (n - 1) as nat).advance(dir)
        }
    }

    /// The cells that `n` reads in direction `dir` return, in order.
    pub open spec fn reads(self, dir: Direction, n: nat) -> Seq<Cell>
        decreases n,
    {
        if n == 0 {
            Seq::empty()
        } else {
            seq![self.peek()] + self.advance(dir).reads(dir, (n - 1) as nat)
        }
    }
}

/// Reading `n <= capacity` cells visits the slots below the read cursor
/// (`Top`, `SpiralRight`) or above it (`Bottom`), one after another.
pub proof fn lemma_reads_slots(q: RingState, dir: Direction, n: nat)
    requires
        q.wf(),
        q.capacity() > 0,
        n <= q.capacity(),
    ensures
        q.reads(dir, n).len() == n,
        forall|i: int| 0 <= i < n ==> #[trigger] q.reads(dir, n)[i] == q.cells[
            match dir {
                Direction::Bottom => slot_above(q.front, i, q.capacity()),
                _ => slot_below(q.front, i, q.capacity()),
            }],
    decreases n,
{
    if n > 0 {
        let q2 = q.advance(dir);
        lemma_reads_slots(q2, dir, (n - 1) as nat);
        assert forall|i: int| 0 <= i < n implies #[trigger] q.reads(dir, n)[i] == q.cells[
            match dir {
                Direction::Bottom => slot_above(q.front, i, q.capacity()),
                _ => slot_below(q.front, i, q.capacity()),
            }] by {
            if i > 0 {
                assert(q.reads(dir, n)[i] == q2.reads(dir, (n - 1) as nat)[i - 1]);
            }
        }
    }
}

/// After a push the read cursor sits on the write cursor, and the cells read
/// downward from it end with the pushed cell; when the cursors already
/// coincided, those cells are the earlier ones shifted by one.
proof fn lemma_push_shifts(q: RingState, c: Cell)
    requires
        q.wf(),
        q.capacity() > 0,
    ensures
        q.push(c).wf(),
        q.push(c).capacity() == q.capacity(),
        q.push(c).front == q.push(c).back,
        q.push(c).reads(Direction::Top, q.capacity() as nat).last() == c,
        q.front == q.back ==> q.push(c).reads(Direction::Top, q.capacity() as nat) =~= q.reads(
            Direction::Top,
            q.capacity() as nat,
        ).drop_first().push(c),
{
    let n = q.capacity() as nat;
    let r = q.push(c);
    lemma_reads_slots(q, Direction::Top, n);
    lemma_reads_slots(r, Direction::Top, n);
    assert(r.reads(Direction::Top, n)[n - 1] == c);
}

/// A push overwrites exactly the oldest cell held: the cells held, oldest
/// first, lose their first and gain the pushed one at the end, and the
/// capacity stays the same.
pub proof fn lemma_push_drops_oldest(q: RingState, c: Cell)
    requires
        q.wf(),
        q.capacity() > 0,
    ensures
        q.push(c).capacity() == q.capacity(),
        q.push(c).history() == q.history().drop_first().push(c),
{
    let n = q.capacity();
    let r = q.push(c);
    assert forall|i: int| 0 <= i < n implies #[trigger] r.history()[i] == q.history().drop_first().push(c)[i] by {
        if i < n - 1 {
            assert(slot_below(r.back, i, n) == slot_below(q.back, i + 1, n));
        } else {
            assert(slot_below(r.back, i, n) == q.back);
        }
    }
    assert(r.history() =~= q.history().drop_first().push(c));
}

/// Reading a buffer whose cursors coincide downward (`Top`, `SpiralRight`)
/// returns the cells it holds, oldest first.
pub proof fn lemma_reads_history(q: RingState, dir: Direction)
    requires
        q.wf(),
        q.capacity() > 0,
        q.front == q.back,
        dir != Direction::Bottom,
    ensures
        q.reads(dir, q.capacity() as nat) == q.history(),
{
    lemma_reads_slots(q, dir, q.capacity() as nat);
    assert(q.reads(dir, q.capacity() as nat) =~= q.history());
}

/// After `m >= 1` pushes the cursors coincide, and the last `min(m, N)` cells
/// read downward from the read cursor are the last pushed ones, in push order.
proof fn lemma_push_all_window(q: RingState, s: Seq<Cell>)
    requires
        q.wf(),
        q.capacity() > 0,
        s.len() >= 1,
    ensures
        q.push_all(s).wf(),
        q.push_all(s).capacity() == q.capacity(),
        q.push_all(s).front == q.push_all(s).back,
        q.push_all(s).reads(Direction::Top, q.capacity() as nat).len() == q.capacity(),
        forall|i: int|
            0 <= i < s.len() && i < q.capacity() ==> #[trigger] q.push_all(s).reads(
                Direction::Top,
                q.capacity() as nat,
            )[q.capacity() - 1 - i] == s[s.len() - 1 - i],
    decreases s.len(),
{
    let n = q.capacity() as nat;
    let m = s.len();
    let p = s.drop_last();
    if m == 1 {
        assert(p.len() == 0);
        assert(q.push_all(p) == q);
        lemma_push_shifts(q, s.last());
        lemma_reads_slots(q.push(s.last()), Direction::Top, n);
    } else {
        lemma_push_all_window(q, p);
        let r1 = q.push_all(p);
        lemma_push_shifts(r1, s.last());
        lemma_reads_slots(r1, Direction::Top, n);
        lemma_reads_slots(r1.push(s.last()), Direction::Top, n);
        assert forall|i: int| 0 <= i < m && i < n implies #[trigger] q.push_all(s).reads(
            Direction::Top,
            n,
        )[n - 1 - i] == s[m - 1 - i] by {
            if i > 0 {
                assert(q.push_all(s).reads(Direction::Top, n)[n - 1 - i] == r1.reads(
                    Direction::Top,
                    n,
                )[n - 1 - (i - 1)]);
                assert(p[p.len() - 1 - (i - 1)] == s[m - 1 - i]);
            }
        }
    }
}

/// Wrap-around: after `N + k` pushes into a buffer of capacity `N`, reading
/// `N` cells downward (`Top` or `SpiralRight`) returns the last `N` pushed
/// cells in push order; toward `Bottom` the same holds for `N <= 2`.
pub proof fn lemma_wraparound_in_push_order(q: RingState, s: Seq<Cell>, dir: Direction)
    requires
        q.wf(),
        q.capacity() > 0,
        s.len() >= q.capacity(),
        dir != Direction::Bottom || q.capacity() <= 2,
    ensures
        q.push_all(s).reads(dir, q.capacity() as nat) == s.subrange(
            s.len() - q.capacity(),
            s.len() as int,
        ),
{
    let n = q.capacity() as nat;
    let k = s.len() - n;
    let r = q.push_all(s);
    lemma_push_all_window(q, s);
    lemma_reads_slots(r, Direction::Top, n);
    lemma_reads_slots(r, dir, n);
    assert forall|j: int| 0 <= j < n implies #[trigger] r.reads(dir, n)[j] == s[k + j] by {
        assert(r.reads(Direction::Top, n)[n - 1 - (n - 1 - j)] == s[s.len() - 1 - (n - 1 - j)]);
    }
    assert(r.reads(dir, n) =~= s.subrange(k, s.len() as int));
}

/// Wrap-around toward `Bottom`: after `N + k` pushes into a buffer of
/// capacity `N`, reading `N` cells upward returns the oldest cell still held,
/// then the others from the newest back.
pub proof fn lemma_wraparound_toward_bottom(q: RingState, s: Seq<Cell>)
    requires
        q.wf(),
        q.capacity() > 0,
        s.len() >= q.capacity(),
    ensures
        ({
            let n = q.capacity();
            let k = s.len() - n;
            let out = q.push_all(s).reads(Direction::Bottom, n as nat);
            &&& out.len() == n
            &&& out[0] == s[k]
            &&& forall|j: int| 0 < j < n ==> #[trigger] out[j] == s[n + k - j]
        }),
{
    let n = q.capacity() as nat;
    let k = s.len() - n;
    let r = q.push_all(s);
    lemma_push_all_window(q, s);
    lemma_reads_slots(r, Direction::Top, n);
    lemma_reads_slots(r, Direction::Bottom, n);
    assert(r.reads(Direction::Top, n)[n - 1 - (n - 1)] == s[s.len() - 1 - (n - 1)]);
    assert forall|j: int| 0 < j < n implies #[trigger] r.reads(Direction::Bottom, n)[j] == s[n
        + k - j] by {
        assert(r.reads(Direction::Top, n)[n - 1 - (j - 1)] == s[s.len() - 1 - (j - 1)]);
    }
}

/// The `i`-th of `n` reads returns the cell under the read cursor after `i`
/// reads; reading keeps the buffer well formed.
pub proof fn lemma_reads_advanced(q: RingState, dir: Direction, n: nat, i: nat)
    requires
        q.wf(),
        i < n,
    ensures
        q.reads(dir, n)[i as int] == q.advanced(dir, i).peek(),
        q.advanced(dir, i).wf(),
        q.advanced(dir, i).cells == q.cells,
    decreases i,
{
    lemma_advanced_wf(q, dir, i);
    lemma_reads_len(q, dir, n);
    if i > 0 {
        lemma_reads_advanced(q.advance(dir), dir, (n - 1) as nat, (i - 1) as nat);
        lemma_advanced_first(q, dir, (i - 1) as nat);
        assert(q.reads(dir, n)[i as int] == q.advance(dir).reads(dir, (n - 1) as nat)[i - 1]);
    }
}

/// Reading keeps a buffer well formed and its cells unchanged.
pub proof fn lemma_advanced_wf(q: RingState, dir: Direction, n: nat)
    requires
        q.wf(),
    ensures
        q.advanced(dir, n).wf(),
        q.advanced(dir, n).cells == q.cells,
    decreases n,
{
    if n > 0 {
        lemma_advanced_wf(q, dir, (n - 1) as nat);
    }
}

proof fn lemma_advanced_first(q: RingState, dir: Direction, n: nat)
    ensures
        q.advance(dir).advanced(dir, n) == q.advanced(dir, n + 1),
    decreases n,
{
    if n > 0 {
        lemma_advanced_first(q, dir, (n - 1) as nat);
        assert(q.advanced(dir, n + 1) == q.advanced(dir, n).advance(dir));
    } else {
        assert(q.advanced(dir, 1) == q.advanced(dir, 0).advance(dir));
    }
}

proof fn lemma_reads_len(q: RingState, dir: Direction, n: nat)
    ensures
        q.reads(dir, n).len() == n,
    decreases n,
{
    if n > 0 {
        lemma_reads_len(q.advance(dir), dir, (n - 1) as nat);
    }
}

/// Pushes keep a buffer well formed and its capacity fixed.
pub proof fn lemma_push_all_wf(q: RingState, s: Seq<Cell>)
    requires
        q.wf(),
    ensures
        q.push_all(s).wf(),
        q.push_all(s).capacity() == q.capacity(),
    decreases s.len(),
{
    if s.len() > 0 {
        lemma_push_all_wf(q, s.drop_last());
    }
}

/// A fixed-capacity circular store of cells, written at one cursor and read
/// back at another.
#[derive(Clone)]
pub struct CircularCharQueue {
    data: Vec<Cell>,
    front_index: usize,
    back_index: usize,
}

impl View for CircularCharQueue {
    type V = RingState;

    closed spec fn view(&self) -> RingState {
        RingState {
            cells: self.data@,
            front: self.front_index as int,
            back: self.back_index as int,
        }
    }
}

impl CircularCharQueue {
    /// A buffer of `size` blank cells, both cursors at slot 0.
    pub fn new(size: usize) -> (r: CircularCharQueue)
        ensures
            r@ == RingState::blanks(size as nat),
            r@.wf(),
    {
        let mut data: Vec<Cell> = Vec::with_capacity(size);
        let mut i: usize = 0;
        while i < size
            invariant
                i <= size,
                data@ == Seq::new(i as nat, |j: int| blank()),
            decreases size - i,
        {
            data.push((' ', Color::Default));
            i = i + 1;
            assert(data@ =~= Seq::new(i as nat, |j: int| blank()));
        }
        let r = CircularCharQueue { data, front_index: 0, back_index: 0 };
        assert(r@ =~= RingState::blanks(size as nat));
        r
    }

    /// Number of cells the buffer holds.
    pub fn capacity(&self) -> (r: usize)
        ensures
            r as int == self@.capacity(),
    {
        self.data.len()
    }

    /// Writes `(n, c)` under the write cursor, moves the write cursor one
    /// slot down and puts the read cursor on it.
    pub fn push_back(&mut self, n: char, c: Color)
        requires
            old(self)@.wf(),
        ensures
            final(self)@ == old(self)@.push((n, c)),
            final(self)@.wf(),
            old(self)@.capacity() > 0 ==> final(self)@.history() == old(self)@.history().drop_first().push(
                (n, c),
            ),
    {
        if self.data.len() == 0 {
            return;
        }
        proof { lemma_push_drops_oldest(self@, (n, c)); }
        self.data.set(self.back_index, (n, c));
        self.back_index = if self.back_index == 0 {
            self.data.len() - 1
        } else {
            self.back_index - 1
        };
        self.front_index = self.back_index;
        assert(self@.cells =~= old(self)@.push((n, c)).cells);
    }

    /// Pushes `n` blank cells.
    pub fn push_blanks(&mut self, n: u16)
        requires
            old(self)@.wf(),
        ensures
            final(self)@ == old(self)@.push_all(Seq::new(n as nat, |i: int| blank())),
            final(self)@.wf(),
    {
        let ghost q0 = self@;
        let mut i: u16 = 0;
        while i < n
            invariant
                i <= n,
                q0.wf(),
                self@ == q0.push_all(Seq::new(i as nat, |j: int| blank())),
                self@.wf(),
            decreases n - i,
        {
            proof {
                assert(Seq::new((i + 1) as nat, |j: int| blank()).drop_last() =~= Seq::new(
                    i as nat,
                    |j: int| blank(),
                ));
            }
            self.push_back(' ', Color::Default);
            i = i + 1;
        }
    }

    /// Returns the cell under the read cursor and moves the read cursor one
    /// step for `direction`.
    pub fn get_next(&mut self, direction: &Direction) -> (r: Cell)
        requires
            old(self)@.wf(),
        ensures
            r == old(self)@.peek(),
            final(self)@ == old(self)@.advance(*direction),
            final(self)@.wf(),
    {
        if self.data.len() == 0 {
            return (' ', Color::Default);
        }
        let cc = self.data[self.front_index];
        self.front_index = match direction {
            Direction::Top | Direction::SpiralRight => {
                if self.front_index == 0 {
                    self.data.len() - 1
                } else {
                    self.front_index - 1
                }
            },
            Direction::Bottom => {
                if self.front_index == self.data.len() - 1 {
                    0
                } else {
                    self.front_index + 1
                }
            },
        };
        cc
    }
}

} // verus!
