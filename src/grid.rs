//! The occupancy grid: which cells hold settled blocks.
use vstd::prelude::*;

use crate::piece::{is_any_template, Piece, PieceColor, Tetromino, Tile};
use crate::{COLUMNS, HEIGHT, ROWS};

verus! {

/// Position of cell `(x, y)` in the row-major cell sequence.
pub open spec fn idx(x: int, y: int) -> int {
    y * 10 + x
}

/// Every cell of row `y` is occupied.
pub open spec fn row_full(g: Seq<Option<PieceColor>>, y: int) -> bool {
    forall|x: int| 0 <= x < 10 ==> (#[trigger] g[idx(x, y)]) is Some
}

/// How many of the rows below `n` are full.
pub open spec fn full_count(g: Seq<Option<PieceColor>>, n: int) -> nat
    decreases n,
{
    if n <= 0 {
        0
    } else {
        full_count(g, n - 1) + if row_full(g, n - 1) {
            1nat
        } else {
            0nat
        }
    }
}

/// The rows below `n` that are not full, bottom first, flattened.
pub open spec fn kept(g: Seq<Option<PieceColor>>, n: int) -> Seq<Option<PieceColor>>
    decreases n,
{
    if n <= 0 {
        Seq::empty()
    } else if row_full(g, n - 1) {
        kept(g, n - 1)
    } else {
        kept(g, n - 1) + g.subrange(idx(0, n - 1), idx(0, n))
    }
}

/// `n` empty rows.
pub open spec fn empty_rows(n: int) -> Seq<Option<PieceColor>> {
    Seq::new((10 * n) as nat, |i: int| None)
}

/// The grid after removing every full visible row: the rows that stay keep
/// their order and move down over the removed ones, the buffer rows follow
/// them, and as many empty rows as were removed are added at the top.
pub open spec fn cleared(g: Seq<Option<PieceColor>>) -> Seq<Option<PieceColor>> {
    kept(g, 20) + g.subrange(200, 240) + empty_rows(full_count(g, 20) as int)
}

/// Cell `(x, y)` lies within the columns and not below row 0.
pub open spec fn in_bounds_spec(x: int, y: int) -> bool {
    0 <= x < 10 && 0 <= y
}

/// A block may stand at `(x, y)`: it is in bounds and not a settled visible cell.
pub open spec fn fits(g: Seq<Option<PieceColor>>, x: int, y: int) -> bool {
    in_bounds_spec(x, y) && !(y < 20 && g[idx(x, y)] is Some)
}

/// Every tile may stand where it is.
pub open spec fn all_fit(g: Seq<Option<PieceColor>>, ts: Seq<Tile>) -> bool {
    forall|i: int| 0 <= i < ts.len() ==> fits(g, #[trigger] ts[i].x as int, ts[i].y as int)
}

/// Every tile may stand one row lower.
pub open spec fn all_fit_below(g: Seq<Option<PieceColor>>, ts: Seq<Tile>) -> bool {
    forall|i: int| 0 <= i < ts.len() ==> fits(g, #[trigger] ts[i].x as int, ts[i].y - 1)
}

/// Some tile lies on cell `i`.
pub open spec fn covered(ts: Seq<Tile>, i: int) -> bool {
    exists|j: int| 0 <= j < ts.len() && idx(ts[j].x as int, ts[j].y as int) == i
}

/// The cells `g` with every tile's cell settled in colour `c`.
pub open spec fn locked(g: Seq<Option<PieceColor>>, ts: Seq<Tile>, c: PieceColor) -> Seq<Option<PieceColor>> {
    Seq::new(g.len(), |i: int| if covered(ts, i) { Some(c) } else { g[i] })
}

/// Every tile lies inside the grid's full height.
pub open spec fn inside_grid(ts: Seq<Tile>) -> bool {
    forall|j: int|
        0 <= j < ts.len() ==> 0 <= #[trigger] ts[j].x < 10 && 0 <= ts[j].y < 24
}

/// Some cell of the buffer rows is occupied.
pub open spec fn loss_spec(g: Seq<Option<PieceColor>>) -> bool {
    exists|i: int| 200 <= i < 240 && g[i] is Some
}

/// The settled cells, each with its colour: `HEIGHT` rows of `COLUMNS`
/// cells, row 0 first; `None` is a free cell.
pub struct FullGrid {
    pub cells: Vec<Option<PieceColor>>,
}

impl FullGrid {
    pub open spec fn wf(&self) -> bool {
        self.cells@.len() == 240
    }

    pub fn empty() -> (r: FullGrid)
        ensures
            r.wf(),
            forall|i: int| 0 <= i < 240 ==> (#[trigger] r.cells@[i]) is None,
            full_count(r.cells@, 20) == 0,
            !loss_spec(r.cells@),
    {
        let r = FullGrid { cells: vec![None; COLUMNS * HEIGHT] };
        proof {
            assert forall|y: int| 0 <= y < 20 implies !row_full(r.cells@, y) by {
                assert(r.cells@[idx(0, y)] is None);
            }
            lemma_no_full_rows(r.cells@, 20);
        }
        r
    }

    /// Whether cell `(x, y)` is occupied, buffer rows included.
    pub fn get(&self, x: usize, y: usize) -> (r: bool)
        requires
            self.wf(),
            x < 10,
            y < 24,
        ensures
            r == self.cells@[idx(x as int, y as int)] is Some,
    {
        self.cells[y * COLUMNS + x].is_some()
    }

    /// The colour settled at cell `(x, y)`, if any.
    pub fn color_at(&self, x: usize, y: usize) -> (r: Option<PieceColor>)
        requires
            self.wf(),
            x < 10,
            y < 24,
        ensures
            r == self.cells@[idx(x as int, y as int)],
    {
        self.cells[y * COLUMNS + x]
    }

    /// Whether every cell of row `y` is occupied.
    pub fn row_is_full(&self, y: usize) -> (r: bool)
        requires
            self.wf(),
            y < 24,
        ensures
            r == row_full(self.cells@, y as int),
    {
        let mut x: usize = 0;
        while x < COLUMNS
            invariant
                self.wf(),
                y < 24,
                x <= 10,
                forall|k: int| 0 <= k < x ==> (#[trigger] self.cells@[idx(k, y as int)]) is Some,
            decreases 10 - x,
        {
            if self.cells[y * COLUMNS + x].is_none() {
                assert(self.cells@[idx(x as int, y as int)] is None);
                return false;
            }
            x += 1;
        }
        true
    }

    /// Removes every full visible row, as `cleared` describes, and returns how
    /// many rows were removed.
    pub fn clear_full_rows(&mut self) -> (r: u8)
        requires
            old(self).wf(),
        ensures
            final(self).wf(),
            final(self).cells@ == cleared(old(self).cells@),
            r as int == full_count(old(self).cells@, 20),
    {
        let ghost g = self.cells@;
        let mut out: Vec<Option<PieceColor>> = Vec::new();
        let mut count: u8 = 0;
        let mut y: usize = 0;
        while y < ROWS
            invariant
                self.cells@ == g,
                g.len() == 240,
                y <= 20,
                count as int == full_count(g, y as int),
                count <= y,
                out@ == kept(g, y as int),
                out@.len() == 10 * (y - count),
            decreases 20 - y,
        {
            if self.row_is_full(y) {
                count += 1;
            } else {
                let mut x: usize = 0;
                while x < COLUMNS
                    invariant
                        self.cells@ == g,
                        g.len() == 240,
                        y < 20,
                        x <= 10,
                        out@ == kept(g, y as int) + g.subrange(idx(0, y as int), idx(x as int, y as int)),
                    decreases 10 - x,
                {
                    out.push(self.cells[y * COLUMNS + x]);
                    proof {
                        assert(g.subrange(idx(0, y as int), idx(x + 1, y as int)) =~= g.subrange(
                            idx(0, y as int),
                            idx(x as int, y as int),
                        ).push(g[idx(x as int, y as int)]));
                    }
                    x += 1;
                }
            }
            y += 1;
        }
        let mut i: usize = ROWS * COLUMNS;
        while i < HEIGHT * COLUMNS
            invariant
                self.cells@ == g,
                g.len() == 240,
                200 <= i <= 240,
                count as int == full_count(g, 20),
                count <= 20,
                out@ == kept(g, 20) + g.subrange(200, i as int),
            decreases 240 - i,
        {
            out.push(self.cells[i]);
            proof {
                assert(g.subrange(200, i + 1) =~= g.subrange(200, i as int).push(g[i as int]));
            }
            i += 1;
        }
        let ghost prefix = out@;
        let mut j: usize = 0;
        while j < COLUMNS * (count as usize)
            invariant
                count <= 20,
                j <= 10 * count,
                prefix == kept(g, 20) + g.subrange(200, 240),
                out@ == prefix + Seq::new(j as nat, |k: int| None),
            decreases 10 * count - j,
        {
            out.push(None);
            proof {
                assert(Seq::new((j + 1) as nat, |k: int| None::<PieceColor>) =~= Seq::new(j as nat, |k: int| None).push(None));
            }
            j += 1;
        }
        self.cells = out;
        count
    }

    /// Settles each tile's cell in colour `color`.
    pub fn lock(&mut self, tiles: &Vec<Tile>, color: PieceColor)
        requires
            old(self).wf(),
            inside_grid(tiles@),
        ensures
            final(self).wf(),
            final(self).cells@ == locked(old(self).cells@, tiles@, color),
    {
        let ghost g = self.cells@;
        let mut k: usize = 0;
        while k < tiles.len()
            invariant
                self.wf(),
                g.len() == 240,
                inside_grid(tiles@),
                k <= tiles@.len(),
                forall|i: int|
                    0 <= i < 240 ==> #[trigger] self.cells@[i] == (if covered(tiles@.take(k as int), i) {
                        Some(color)
                    } else {
                        g[i]
                    }),
            decreases tiles@.len() - k,
        {
            let t = tiles[k];
            let ghost at = idx(t.x as int, t.y as int);
            let ghost before = self.cells@;
            self.cells.set((t.y as usize) * COLUMNS + (t.x as usize), Some(color));
            proof {
                assert forall|i: int| 0 <= i < 240 implies #[trigger] self.cells@[i] == (if covered(tiles@.take(k + 1), i) {
                    Some(color)
                } else {
                    g[i]
                }) by {
                    let ts = tiles@.take(k + 1);
                    if covered(tiles@.take(k as int), i) {
                        let j = choose|j: int|
                            0 <= j < tiles@.take(k as int).len() && idx(
                                tiles@.take(k as int)[j].x as int,
                                tiles@.take(k as int)[j].y as int,
                            ) == i;
                        assert(ts[j] == tiles@[j]);
                    }
                    if i == at {
                        assert(ts[k as int] == t);
                    }
                    if covered(ts, i) && i != at {
                        let j = choose|j: int|
                            0 <= j < ts.len() && idx(ts[j].x as int, ts[j].y as int) == i;
                        assert(tiles@.take(k as int)[j] == ts[j]);
                    }
                }
            }
            k += 1;
        }
        assert(tiles@.take(tiles@.len() as int) =~= tiles@);
        assert(self.cells@ =~= locked(g, tiles@, color));
    }

    /// Whether some cell of the buffer rows above the visible field is occupied.
    pub fn is_loss(&self) -> (r: bool)
        requires
            self.wf(),
        ensures
            r == loss_spec(self.cells@),
    {
        let mut i: usize = ROWS * COLUMNS;
        while i < HEIGHT * COLUMNS
            invariant
                self.wf(),
                200 <= i <= 240,
                forall|k: int| 200 <= k < i ==> (#[trigger] self.cells@[k]) is None,
            decreases 240 - i,
        {
            if self.cells[i].is_some() {
                return true;
            }
            i += 1;
        }
        false
    }
}

/// Whether `(x, y)` lies within the columns and not below row 0. Rows above
/// the field are in bounds: a piece may move there, and loses only when it
/// settles there.
pub fn in_bounds(x: i8, y: i8) -> (r: bool)
    ensures
        r == in_bounds_spec(x as int, y as int),
{
    0 <= x && x < COLUMNS as i8 && 0 <= y
}

/// Whether `(x, y)` is a settled cell of the visible field; cells of the
/// buffer rows read as free.
pub fn is_full(x: i8, y: i8, full_grid: &FullGrid) -> (r: bool)
    requires
        full_grid.wf(),
        y >= 20 || (0 <= y && 0 <= x < 10),
    ensures
        r == (y < 20 && full_grid.cells@[idx(x as int, y as int)] is Some),
{
    y < ROWS as i8 && full_grid.cells[(y as usize) * COLUMNS + (x as usize)].is_some()
}

/// Whether every tile is in bounds and on a free cell.
pub fn can_fit(segments: &Vec<Tile>, full_grid: &FullGrid) -> (r: bool)
    requires
        full_grid.wf(),
    ensures
        r == all_fit(full_grid.cells@, segments@),
{
    let mut k: usize = 0;
    while k < segments.len()
        invariant
            full_grid.wf(),
            k <= segments@.len(),
            all_fit(full_grid.cells@, segments@.take(k as int)),
        decreases segments@.len() - k,
    {
        let t = segments[k];
        if !(in_bounds(t.x, t.y) && !is_full(t.x, t.y, full_grid)) {
            assert(!fits(full_grid.cells@, segments@[k as int].x as int, segments@[k as int].y as int));
            return false;
        }
        proof {
            assert forall|i: int| 0 <= i < k + 1 implies fits(
                full_grid.cells@,
                #[trigger] segments@.take(k + 1)[i].x as int,
                segments@.take(k + 1)[i].y as int,
            ) by {
                if i < k {
                    assert(segments@.take(k as int)[i] == segments@.take(k + 1)[i]);
                }
            }
        }
        k += 1;
    }
    assert(segments@.take(segments@.len() as int) =~= segments@);
    true
}

/// Whether every tile could move down one row.
pub fn can_fall(segments: &Vec<Tile>, full_grid: &FullGrid) -> (r: bool)
    requires
        full_grid.wf(),
    ensures
        r == all_fit_below(full_grid.cells@, segments@),
{
    let mut lowered: Vec<Tile> = Vec::new();
    let mut k: usize = 0;
    while k < segments.len()
        invariant
            k <= segments@.len(),
            lowered@.len() == k,
            forall|i: int| 0 <= i < k ==> 0 < #[trigger] segments@[i].y,
            forall|i: int|
                0 <= i < k ==> #[trigger] lowered@[i] == (Tile { x: segments@[i].x, y: (segments@[i].y - 1) as i8 }),
        decreases segments@.len() - k,
    {
        let t = segments[k];
        if t.y <= 0 {
            assert(!fits(full_grid.cells@, segments@[k as int].x as int, segments@[k as int].y - 1));
            return false;
        }
        lowered.push(Tile { x: t.x, y: t.y - 1 });
        k += 1;
    }
    let r = can_fit(&lowered, full_grid);
    proof {
        if r {
            assert forall|i: int| 0 <= i < segments@.len() implies fits(
                full_grid.cells@,
                #[trigger] segments@[i].x as int,
                segments@[i].y - 1,
            ) by {
                assert(fits(full_grid.cells@, lowered@[i].x as int, lowered@[i].y as int));
            }
        } else {
            let i = choose|i: int|
                0 <= i < lowered@.len() && !fits(full_grid.cells@, #[trigger] lowered@[i].x as int, lowered@[i].y as int);
            assert(!fits(full_grid.cells@, segments@[i].x as int, segments@[i].y - 1));
        }
    }
    r
}

} // verus!

verus! {

proof fn lemma_kept_rows(g: Seq<Option<PieceColor>>, n: int)
    requires
        g.len() == 240,
        0 <= n <= 20,
    ensures
        full_count(g, n) <= n,
        kept(g, n).len() == 10 * (n - full_count(g, n)),
        forall|r: int| 0 <= r < n - full_count(g, n) ==> !row_full(kept(g, n), r),
    decreases n,
{
    if n > 0 {
        lemma_kept_rows(g, n - 1);
        let a = kept(g, n - 1);
        let m = n - 1 - full_count(g, n - 1);
        if !row_full(g, n - 1) {
            let b = g.subrange(idx(0, n - 1), idx(0, n));
            let h = a + b;
            assert(kept(g, n) == h);
            assert forall|r: int| 0 <= r < m + 1 implies !row_full(h, r) by {
                if r < m {
                    assert(!row_full(a, r));
                    let x = choose|x: int| 0 <= x < 10 && (#[trigger] a[idx(x, r)]) is None;
                    assert(h[idx(x, r)] == a[idx(x, r)]);
                } else {
                    let x = choose|x: int| 0 <= x < 10 && (#[trigger] g[idx(x, n - 1)]) is None;
                    assert(h[idx(x, r)] == b[x]);
                }
            }
        }
    }
}

/// The full rows below `n`.
pub open spec fn full_rows(h: Seq<Option<PieceColor>>, n: int) -> Set<int> {
    Set::new(|y: int| 0 <= y < n && row_full(h, y))
}

proof fn lemma_full_rows_len(h: Seq<Option<PieceColor>>, n: int)
    requires
        n >= 0,
    ensures
        full_rows(h, n).finite(),
        full_rows(h, n).len() == full_count(h, n),
    decreases n,
{
    broadcast use vstd::set::group_set_axioms;

    if n == 0 {
        assert(full_rows(h, 0) =~= Set::empty());
    } else {
        lemma_full_rows_len(h, n - 1);
        if row_full(h, n - 1) {
            assert(full_rows(h, n) =~= full_rows(h, n - 1).insert(n - 1));
        } else {
            assert(full_rows(h, n) =~= full_rows(h, n - 1));
        }
    }
}

proof fn lemma_at_most_four<A>(s: Set<A>, a: A, b: A, c: A, d: A)
    requires
        forall|v: A| #[trigger] s.contains(v) ==> v == a || v == b || v == c || v == d,
    ensures
        s.finite(),
        s.len() <= 4,
{
    broadcast use vstd::set::group_set_axioms;

    let t = Set::empty().insert(a).insert(b).insert(c).insert(d);
    assert(s.subset_of(t));
    vstd::set_lib::lemma_len_subset(s, t);
}

/// Locking four tiles into a grid with no full visible row and an empty
/// buffer leaves at most four full visible rows and no full buffer row.
pub proof fn lemma_lock_fills_few_rows(g: Seq<Option<PieceColor>>, ts: Seq<Tile>, c: PieceColor)
    requires
        g.len() == 240,
        full_count(g, 20) == 0,
        !loss_spec(g),
        ts.len() == 4,
        inside_grid(ts),
    ensures
        full_count(locked(g, ts, c), 20) <= 4,
        forall|j: int| 20 <= j < 24 ==> !#[trigger] row_full(locked(g, ts, c), j),
{
    broadcast use vstd::set::group_set_axioms;

    let h = locked(g, ts, c);
    lemma_full_rows_len(g, 20);
    lemma_full_rows_len(h, 20);
    let s = full_rows(h, 20);
    assert forall|y: int| #[trigger] s.contains(y) implies y == ts[0].y || y == ts[1].y || y == ts[2].y
        || y == ts[3].y by {
        if full_rows(g, 20).contains(y) {
            assert(full_rows(g, 20).remove(y).len() + 1 == full_rows(g, 20).len());
        }
        let x = choose|x: int| 0 <= x < 10 && (#[trigger] g[idx(x, y)]) is None;
        assert(h[idx(x, y)] is Some);
        let j = choose|j: int| 0 <= j < ts.len() && idx(ts[j].x as int, ts[j].y as int) == idx(x, y);
        assert(0 <= ts[j].x < 10);
    }
    lemma_at_most_four(s, ts[0].y as int, ts[1].y as int, ts[2].y as int, ts[3].y as int);
    assert forall|j: int| 20 <= j < 24 implies !#[trigger] row_full(h, j) by {
        if row_full(h, j) {
            let xs = Set::new(|x: int| 0 <= x < 10);
            assert forall|x: int| #[trigger] xs.contains(x) implies x == ts[0].x || x == ts[1].x || x
                == ts[2].x || x == ts[3].x by {
                assert(h[idx(x, j)] is Some);
                assert(g[idx(x, j)] is None);
                let k = choose|k: int| 0 <= k < ts.len() && idx(ts[k].x as int, ts[k].y as int) == idx(x, j);
                assert(0 <= ts[k].x < 10);
            }
            lemma_at_most_four(xs, ts[0].x as int, ts[1].x as int, ts[2].x as int, ts[3].x as int);
            vstd::set_lib::lemma_int_range(0, 10);
            assert(xs =~= vstd::set_lib::set_int_range(0, 10));
        }
    }
}

proof fn lemma_no_full_rows(h: Seq<Option<PieceColor>>, n: int)
    requires
        forall|y: int| 0 <= y < n ==> !row_full(h, y),
    ensures
        full_count(h, n) == 0,
    decreases n,
{
    if n > 0 {
        lemma_no_full_rows(h, n - 1);
    }
}

/// After a clear, a second clear finds no full row, provided that no full
/// buffer row is moved down into the visible field by the first one (such a
/// row is not examined by the first clear).
pub proof fn lemma_clear_twice(grid: FullGrid)
    requires
        grid.wf(),
        forall|j: int|
            20 <= j < 24 && #[trigger] row_full(grid.cells@, j) ==> j - full_count(grid.cells@, 20) >= 20,
    ensures
        full_count(cleared(grid.cells@), 20) == 0,
{
    let g = grid.cells@;
    let k = full_count(g, 20) as int;
    lemma_kept_rows(g, 20);
    let a = kept(g, 20);
    let m = 20 - k;
    let b = g.subrange(200, 240);
    let h = cleared(g);
    assert(h == a + b + empty_rows(k));
    assert forall|y: int| 0 <= y < 20 implies !row_full(h, y) by {
        if y < m {
            assert(!row_full(a, y));
            let x = choose|x: int| 0 <= x < 10 && (#[trigger] a[idx(x, y)]) is None;
            assert(h[idx(x, y)] == a[idx(x, y)]);
        } else if y < m + 4 {
            let j = y + k;
            assert(!row_full(g, j));
            let x = choose|x: int| 0 <= x < 10 && (#[trigger] g[idx(x, j)]) is None;
            assert(h[idx(x, y)] == b[idx(x, y - m)]);
        } else {
            assert(h[idx(0, y)] is None);
        }
    }
    lemma_no_full_rows(h, 20);
}

} // verus!

verus! {

/// A piece spawned from any template fits on any grid: its cells lie in the
/// columns and above the visible field.
pub proof fn lemma_spawn_fits(t: Tetromino, p: Piece, grid: FullGrid)
    requires
        is_any_template(t),
        p.spawned_from(t),
        p.wf(),
        grid.wf(),
    ensures
        all_fit(grid.cells@, p.tiles@),
{
    assert forall|i: int| 0 <= i < p.tiles@.len() implies fits(
        grid.cells@,
        #[trigger] p.tiles@[i].x as int,
        p.tiles@[i].y as int,
    ) by {
        crate::piece::lemma_template_bounds(t);
        assert(p.segments@[i] == t.shape@[i]);
    }
}

} // verus!
