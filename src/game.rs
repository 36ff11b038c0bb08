//! The tick engine and the Playing / GameOver state machine: gravity, lock
//! and respawn, player moves, row clearing with scoring, and loss detection.
use vstd::prelude::*;

use rand::rngs::SmallRng;

use crate::grid::{
    all_fit_below, can_fall, can_fit, cleared, fits, full_count, lemma_clear_twice,
    lemma_lock_fills_few_rows, locked, loss_spec, FullGrid,
};
use crate::piece::{
    is_any_template, moved, offset, pivot, shift, small, turned, update_segment, FallingSegment,
    Piece, PieceColor, Tetromino, Tile,
};

verus! {

/// Points gathered in the current game.
pub struct Score(pub u32);

/// Whether a game is running or over.
#[derive(Clone, Copy, PartialEq, Eq, Structural, Debug)]
pub enum GameState {
    GameOver,
    Playing,
}

/// Points for clearing `lines` rows in one pass.
pub open spec fn score_for(lines: int) -> int {
    if lines == 1 {
        100
    } else if lines == 2 {
        300
    } else if lines == 3 {
        500
    } else {
        800
    }
}

/// Points for clearing `lines` rows in one pass: 100, 300, 500 or 800.
pub fn lines_to_score(lines: u8) -> (r: u32)
    requires
        1 <= lines <= 4,
    ensures
        r as int == score_for(lines as int),
{
    match lines {
        1 => 100,
        2 => 300,
        3 => 500,
        _ => 800,
    }
}

/// Default gravity period: a fifth of a second, in nanoseconds.
pub const DEFAULT_PERIOD_NS: u64 = 200_000_000;

/// Soft drop divides the gravity period by this factor.
pub const SOFT_DROP_FACTOR: u64 = 3;

/// The gravity timer. The soft-drop state is kept as a flag beside the base
/// period, so that releasing the key restores the period exactly.
pub struct FallTimer {
    pub base_ns: u64,
    pub soft_drop: bool,
    pub elapsed_ns: u64,
}

impl FallTimer {
    pub open spec fn period(&self) -> int {
        if self.soft_drop {
            self.base_ns as int / 3
        } else {
            self.base_ns as int
        }
    }

    pub open spec fn wf(&self) -> bool {
        &&& self.base_ns >= 3
        &&& self.elapsed_ns < self.base_ns
    }

    /// The timer with the soft-drop key held or released.
    pub open spec fn with_soft_drop(self, held: bool) -> FallTimer {
        FallTimer { soft_drop: held, ..self }
    }

    /// A timer at the default period with nothing elapsed.
    pub fn new() -> (r: FallTimer)
        ensures
            r.wf(),
            r.period() == DEFAULT_PERIOD_NS,
            r.base_ns == DEFAULT_PERIOD_NS,
            !r.soft_drop,
            r.elapsed_ns == 0,
    {
        FallTimer { base_ns: DEFAULT_PERIOD_NS, soft_drop: false, elapsed_ns: 0 }
    }

    /// The current gravity period in nanoseconds.
    pub fn period_ns(&self) -> (r: u64)
        requires
            self.base_ns >= 3,
        ensures
            r as int == self.period(),
            r > 0,
    {
        if self.soft_drop {
            self.base_ns / SOFT_DROP_FACTOR
        } else {
            self.base_ns
        }
    }

    /// Holds (`true`) or releases (`false`) the soft drop.
    pub fn set_soft_drop(&mut self, held: bool)
        requires
            old(self).wf(),
        ensures
            *final(self) == old(self).with_soft_drop(held),
            final(self).wf(),
    {
        self.soft_drop = held;
    }

    /// Advances the timer by `delta_ns` and returns how many whole periods
    /// ended; what is left over stays for the next tick.
    pub fn tick(&mut self, delta_ns: u64) -> (r: u128)
        requires
            old(self).wf(),
        ensures
            final(self).base_ns == old(self).base_ns,
            final(self).soft_drop == old(self).soft_drop,
            r as int == (old(self).elapsed_ns + delta_ns) / old(self).period(),
            final(self).elapsed_ns as int == (old(self).elapsed_ns + delta_ns) % old(self).period(),
            final(self).wf(),
    {
        let p = self.period_ns();
        let total: u128 = self.elapsed_ns as u128 + delta_ns as u128;
        let times: u128 = total / (p as u128);
        let rest: u128 = total % (p as u128);
        self.elapsed_ns = rest as u64;
        times
    }
}

/// Holding then releasing the soft drop restores the gravity period exactly.
pub proof fn lemma_soft_drop_round_trip(timer: FallTimer)
    requires
        !timer.soft_drop,
    ensures
        timer.with_soft_drop(true).with_soft_drop(false).period() == timer.period(),
        timer.with_soft_drop(true).period() == timer.period() / 3,
{
}

/// `score` with `points` added, held at `u32::MAX`.
pub open spec fn added(score: u32, points: int) -> u32 {
    if score + points > u32::MAX {
        u32::MAX
    } else {
        (score + points) as u32
    }
}

/// Every cell lands where the requested move and rotations take it.
pub open spec fn move_fits(g: Seq<Option<PieceColor>>, p: Piece, left: bool, right: bool, z: bool, x: bool) -> bool {
    forall|i: int|
        0 <= i < 4 ==> fits(
            g,
            #[trigger] moved(p.tiles@[i], p.segments@[i], left, right, z, x).0,
            moved(p.tiles@[i], p.segments@[i], left, right, z, x).1,
        )
}

/// One gravity step from `a` to `b`. If every cell fits one row lower,
/// the piece moves down a row and nothing else changes. Otherwise the piece
/// settles where it is, full rows are cleared and scored, the game ends
/// exactly when a settled cell lies above the field, and a new piece is
/// spawned from one of the templates. The timer is not touched.
pub open spec fn gravity_rel(a: Game, b: Game) -> bool {
    &&& b.timer == a.timer
    &&& (all_fit_below(a.grid.cells@, a.piece.tiles@) ==> {
            &&& b.grid == a.grid
            &&& b.score == a.score
            &&& b.state == a.state
            &&& b.piece.segments == a.piece.segments
            &&& b.piece.color == a.piece.color
            &&& b.piece.tiles@.len() == 4
            &&& forall|i: int|
                0 <= i < 4 ==> #[trigger] b.piece.tiles@[i].x == a.piece.tiles@[i].x
                    && b.piece.tiles@[i].y == a.piece.tiles@[i].y - 1
        })
    &&& (!all_fit_below(a.grid.cells@, a.piece.tiles@) ==> {
            let h = locked(a.grid.cells@, a.piece.tiles@, a.piece.color);
            let k = full_count(h, 20);
            &&& b.grid.cells@ == cleared(h)
            &&& b.score.0 == if k == 0 {
                a.score.0
            } else {
                added(a.score.0, score_for(k as int))
            }
            &&& b.state == if loss_spec(cleared(h)) {
                GameState::GameOver
            } else {
                GameState::Playing
            }
            &&& exists|t: Tetromino| is_any_template(t) && b.piece.spawned_from(t)
        })
}

/// Each game in `s` but the last is playing and moves to the next by one
/// gravity step.
pub open spec fn gravity_chain(s: Seq<Game>) -> bool {
    forall|i: int| 0 <= i < s.len() - 1 ==> (#[trigger] s[i]).state == GameState::Playing && gravity_rel(s[i], s[i + 1])
}

/// The whole state of one game, owned by the tick engine.
pub struct Game {
    pub grid: FullGrid,
    pub piece: Piece,
    pub score: Score,
    pub state: GameState,
    pub timer: FallTimer,
}

impl Game {
    /// While playing, no visible row is full and the buffer rows are empty.
    pub open spec fn wf(&self) -> bool {
        &&& self.grid.wf()
        &&& self.piece.wf()
        &&& self.timer.wf()
        &&& self.state == GameState::Playing ==> full_count(self.grid.cells@, 20) == 0 && !loss_spec(
            self.grid.cells@,
        )
    }

    /// The state at the start of a game: empty grid, no points, default
    /// gravity, playing, and a piece spawned from one of the templates.
    pub open spec fn fresh(&self) -> bool {
        &&& forall|i: int| 0 <= i < 240 ==> (#[trigger] self.grid.cells@[i]) is None
        &&& self.score.0 == 0
        &&& self.state == GameState::Playing
        &&& self.timer.period() == DEFAULT_PERIOD_NS
        &&& !self.timer.soft_drop
        &&& self.timer.elapsed_ns == 0
        &&& exists|t: Tetromino| is_any_template(t) && self.piece.spawned_from(t)
    }

    /// Starts a game.
    pub fn new(rng: &mut SmallRng) -> (r: Game)
        ensures
            r.wf(),
            r.fresh(),
    {
        let t = Tetromino::random(rng);
        let piece = Piece::spawn(t);
        Game { grid: FullGrid::empty(), piece, score: Score(0), state: GameState::Playing, timer: FallTimer::new() }
    }

    /// Resets grid, score and timer, enters Playing and spawns a new piece.
    pub fn start_game(&mut self, rng: &mut SmallRng)
        ensures
            final(self).wf(),
            final(self).fresh(),
    {
        *self = Game::new(rng);
    }

    /// In GameOver, any key starts a new game; otherwise nothing changes.
    pub fn check_restart(&mut self, any_key: bool, rng: &mut SmallRng)
        requires
            old(self).wf(),
        ensures
            final(self).wf(),
            old(self).state == GameState::GameOver && any_key ==> final(self).fresh(),
            !(old(self).state == GameState::GameOver && any_key) ==> *final(self) == *old(self),
    {
        if any_key && self.state == GameState::GameOver {
            self.start_game(rng);
        }
    }

    /// Removes the full visible rows and adds their points to the score.
    pub fn clear_rows(&mut self) -> (r: u8)
        requires
            old(self).grid.wf(),
            full_count(old(self).grid.cells@, 20) <= 4,
        ensures
            final(self).grid.wf(),
            final(self).grid.cells@ == cleared(old(self).grid.cells@),
            r as int == full_count(old(self).grid.cells@, 20),
            final(self).score.0 == if r == 0 {
                old(self).score.0
            } else {
                added(old(self).score.0, score_for(r as int))
            },
            final(self).piece == old(self).piece,
            final(self).state == old(self).state,
            final(self).timer == old(self).timer,
    {
        let cleared = self.grid.clear_full_rows();
        if cleared != 0 {
            self.score.0 = self.score.0.saturating_add(lines_to_score(cleared));
        }
        cleared
    }

    /// Ends the game when a settled cell lies above the visible field.
    pub fn check_loss(&mut self)
        requires
            old(self).grid.wf(),
        ensures
            final(self).state == if loss_spec(old(self).grid.cells@) {
                GameState::GameOver
            } else {
                old(self).state
            },
            final(self).grid == old(self).grid,
            final(self).piece == old(self).piece,
            final(self).score == old(self).score,
            final(self).timer == old(self).timer,
    {
        if self.grid.is_loss() {
            self.state = GameState::GameOver;
        }
    }

    /// One gravity step. The piece moves down a row if it fits there;
    /// otherwise it settles into the grid, full rows are cleared and scored,
    /// the game ends if a settled cell lies above the field, and a new piece
    /// is spawned.
    pub fn gravity_step(&mut self, rng: &mut SmallRng)
        requires
            old(self).wf(),
            old(self).state == GameState::Playing,
        ensures
            final(self).wf(),
            final(self).timer == old(self).timer,
            gravity_rel(*old(self), *final(self)),
    {
        if can_fall(&self.piece.tiles, &self.grid) {
            let mut lowered: Vec<Tile> = Vec::new();
            let mut i: usize = 0;
            while i < 4
                invariant
                    self.piece.wf(),
                    all_fit_below(self.grid.cells@, self.piece.tiles@),
                    i <= 4,
                    lowered@.len() == i,
                    forall|j: int|
                        0 <= j < i ==> #[trigger] lowered@[j].x == self.piece.tiles@[j].x && lowered@[j].y
                            == self.piece.tiles@[j].y - 1,
                decreases 4 - i,
            {
                let t = self.piece.tiles[i];
                assert(fits(self.grid.cells@, self.piece.tiles@[i as int].x as int, self.piece.tiles@[i as int].y - 1));
                lowered.push(Tile { x: t.x, y: t.y - 1 });
                i += 1;
            }
            let ghost before = self.piece;
            self.piece.tiles = lowered;
            proof {
                assert forall|j: int| 0 <= j < 4 implies pivot(self.piece.tiles@[j], self.piece.segments@[j]) == (
                pivot(before.tiles@[0], before.segments@[0]).0, pivot(before.tiles@[0], before.segments@[0]).1 - 1) by {
                    assert(fits(self.grid.cells@, before.tiles@[j].x as int, before.tiles@[j].y - 1));
                }
            }
        } else {
            let ghost g = self.grid.cells@;
            let ghost ts = self.piece.tiles@;
            proof {
                assert forall|j: int| 0 <= j < ts.len() implies 0 <= #[trigger] ts[j].x < 10 && 0 <= ts[j].y < 24 by {
                    assert(pivot(ts[j], self.piece.segments@[j]) == pivot(ts[0], self.piece.segments@[0]));
                }
            }
            self.grid.lock(&self.piece.tiles, self.piece.color);
            proof {
                lemma_lock_fills_few_rows(g, ts, self.piece.color);
                lemma_clear_twice(self.grid);
            }
            let t = Tetromino::random(rng);
            self.piece = Piece::spawn(t);
            self.clear_rows();
            self.check_loss();
        }
    }

    /// Runs gravity for `delta_ns` nanoseconds of play: one gravity step for
    /// each whole period that ends, one after another, stopping early only
    /// when the game ends. Returns the number of periods that ended. Nothing
    /// happens in GameOver.
    pub fn fall(&mut self, delta_ns: u64, rng: &mut SmallRng) -> (r: u128)
        requires
            old(self).wf(),
        ensures
            final(self).wf(),
            old(self).state == GameState::GameOver ==> *final(self) == *old(self) && r == 0,
            old(self).state == GameState::Playing ==> {
                &&& r as int == (old(self).timer.elapsed_ns + delta_ns) / old(self).timer.period()
                &&& final(self).timer.base_ns == old(self).timer.base_ns
                &&& final(self).timer.soft_drop == old(self).timer.soft_drop
                &&& final(self).timer.elapsed_ns as int == (old(self).timer.elapsed_ns + delta_ns)
                    % old(self).timer.period()
                &&& exists|s: Seq<Game>|
                    {
                        &&& s.len() >= 1
                        &&& s.len() - 1 <= r
                        &&& s[0] == (Game { timer: final(self).timer, ..*old(self) })
                        &&& s.last() == *final(self)
                        &&& gravity_chain(s)
                        &&& s.len() - 1 < r ==> final(self).state == GameState::GameOver
                    }
            },
    {
        if self.state == GameState::GameOver {
            return 0;
        }
        let times = self.timer.tick(delta_ns);
        let ghost start = *self;
        let ghost mut steps: Seq<Game> = seq![start];
        let mut n: u128 = 0;
        while n < times && self.state == GameState::Playing
            invariant
                self.wf(),
                self.timer == start.timer,
                n <= times,
                steps.len() == n + 1,
                steps[0] == start,
                steps.last() == *self,
                gravity_chain(steps),
            decreases times - n,
        {
            let ghost prev = *self;
            self.gravity_step(rng);
            proof {
                let next = steps.push(*self);
                assert forall|i: int| 0 <= i < next.len() - 1 implies (#[trigger] next[i]).state
                    == GameState::Playing && gravity_rel(next[i], next[i + 1]) by {
                    if i < steps.len() - 1 {
                        assert(next[i] == steps[i]);
                        assert(next[i + 1] == steps[i + 1]);
                        assert(gravity_rel(steps[i], steps[i + 1]));
                    } else {
                        assert(next[i] == prev);
                        assert(next[i + 1] == *self);
                    }
                }
                steps = next;
            }
            n += 1;
        }
        proof {
            assert(start == (Game { timer: self.timer, ..*old(self) }));
        }
        times
    }

    /// Applies one frame of input. Soft drop pressed divides the gravity
    /// period by three and released restores it. The moves (left, right) and
    /// rotations (`z` counterclockwise, `x` clockwise) are applied to all four
    /// cells together only if every resulting cell fits; otherwise the piece
    /// stays as it was. Nothing happens in GameOver.
    pub fn handle_input(
        &mut self,
        left: bool,
        right: bool,
        z: bool,
        x: bool,
        down_pressed: bool,
        down_released: bool,
    )
        requires
            old(self).wf(),
        ensures
            final(self).wf(),
            old(self).state == GameState::GameOver ==> *final(self) == *old(self),
            old(self).state == GameState::Playing ==> {
                let t1 = if down_pressed {
                    old(self).timer.with_soft_drop(true)
                } else {
                    old(self).timer
                };
                let p = old(self).piece;
                &&& final(self).timer == if down_released {
                    t1.with_soft_drop(false)
                } else {
                    t1
                }
                &&& final(self).grid == old(self).grid
                &&& final(self).score == old(self).score
                &&& final(self).state == old(self).state
                &&& final(self).piece.color == p.color
                &&& if (left || right || z || x) && move_fits(old(self).grid.cells@, p, left, right, z, x) {
                    &&& final(self).piece.tiles@.len() == 4
                    &&& final(self).piece.segments@.len() == 4
                    &&& forall|i: int|
                        0 <= i < 4 ==> {
                            &&& (#[trigger] final(self).piece.tiles@[i].x as int, final(self).piece.tiles@[i].y as int)
                                == moved(p.tiles@[i], p.segments@[i], left, right, z, x)
                            &&& offset(final(self).piece.segments@[i]) == turned(offset(p.segments@[i]), z, x)
                        }
                } else {
                    final(self).piece == p
                }
            },
    {
        if self.state == GameState::GameOver {
            return;
        }
        if down_pressed {
            self.timer.set_soft_drop(true);
        }
        if down_released {
            self.timer.set_soft_drop(false);
        }
        if !left && !right && !z && !x {
            return;
        }
        let ghost p = self.piece;
        let mut new_tiles: Vec<Tile> = Vec::new();
        let mut new_segments: Vec<FallingSegment> = Vec::new();
        let mut i: usize = 0;
        while i < 4
            invariant
                self.piece == p,
                p.wf(),
                i <= 4,
                new_tiles@.len() == i,
                new_segments@.len() == i,
                forall|j: int|
                    0 <= j < i ==> (#[trigger] new_tiles@[j].x as int, new_tiles@[j].y as int) == moved(
                        p.tiles@[j],
                        p.segments@[j],
                        left,
                        right,
                        z,
                        x,
                    ) && offset(new_segments@[j]) == turned(offset(p.segments@[j]), z, x)
                        && pivot(new_tiles@[j], new_segments@[j]) == (pivot(p.tiles@[0], p.segments@[0]).0 + shift(left, right), pivot(p.tiles@[0], p.segments@[0]).1),
            decreases 4 - i,
        {
            let mut tile = self.piece.tiles[i];
            let mut segment = self.piece.segments[i];
            assert(pivot(p.tiles@[i as int], p.segments@[i as int]) == pivot(p.tiles@[0], p.segments@[0]));
            assert(small(p.segments@[i as int]));
            update_segment(&mut tile, &mut segment, left, right, z, x);
            new_tiles.push(tile);
            new_segments.push(segment);
            i += 1;
        }
        if can_fit(&new_tiles, &self.grid) {
            proof {
                assert forall|j: int| 0 <= j < 4 implies fits(
                    self.grid.cells@,
                    #[trigger] moved(p.tiles@[j], p.segments@[j], left, right, z, x).0,
                    moved(p.tiles@[j], p.segments@[j], left, right, z, x).1,
                ) by {
                    assert(fits(self.grid.cells@, new_tiles@[j].x as int, new_tiles@[j].y as int));
                }
                assert forall|j: int| 0 <= j < 4 implies small(#[trigger] new_segments@[j]) by {
                    assert(small(p.segments@[j]));
                    assert(fits(self.grid.cells@, new_tiles@[j].x as int, new_tiles@[j].y as int));
                }
            }
            let ghost nt = new_tiles@;
            let ghost ns = new_segments@;
            self.piece.tiles = new_tiles;
            self.piece.segments = new_segments;
            assert(move_fits(self.grid.cells@, p, left, right, z, x));
            assert forall|i: int| 0 <= i < 4 implies {
                &&& (#[trigger] self.piece.tiles@[i].x as int, self.piece.tiles@[i].y as int) == moved(
                    p.tiles@[i],
                    p.segments@[i],
                    left,
                    right,
                    z,
                    x,
                )
                &&& offset(self.piece.segments@[i]) == turned(offset(p.segments@[i]), z, x)
            } by {
                assert(nt[i].x == self.piece.tiles@[i].x);
                assert(ns[i] == self.piece.segments@[i]);
            }
            assert forall|j: int| 0 <= j < 4 implies small(#[trigger] self.piece.segments@[j]) && 0
                <= self.piece.tiles@[j].x < 10 && 0 <= self.piece.tiles@[j].y && pivot(
                self.piece.tiles@[j],
                self.piece.segments@[j],
            ) == pivot(self.piece.tiles@[0], self.piece.segments@[0]) by {
                assert(ns[j] == self.piece.segments@[j]);
                assert(nt[j] == self.piece.tiles@[j]);
                assert(nt[0] == self.piece.tiles@[0]);
                assert(ns[0] == self.piece.segments@[0]);
                assert(small(ns[j]));
                assert(fits(self.grid.cells@, nt[j].x as int, nt[j].y as int));
                assert(pivot(nt[j], ns[j]) == (pivot(p.tiles@[0], p.segments@[0]).0 + shift(left, right), pivot(p.tiles@[0], p.segments@[0]).1));
                assert(pivot(nt[0], ns[0]) == (pivot(p.tiles@[0], p.segments@[0]).0 + shift(left, right), pivot(p.tiles@[0], p.segments@[0]).1));
            }
            assert(self.piece.wf());
        } else {
            proof {
                let j = choose|j: int|
                    0 <= j < new_tiles@.len() && !fits(self.grid.cells@, #[trigger] new_tiles@[j].x as int, new_tiles@[j].y as int);
                assert(!fits(
                    self.grid.cells@,
                    moved(p.tiles@[j], p.segments@[j], left, right, z, x).0,
                    moved(p.tiles@[j], p.segments@[j], left, right, z, x).1,
                ));
            }
        }
    }
}

} // verus!
