//! Falling pieces: cells, pivot-relative offsets, rotation and the catalog of
//! the seven tetrominoes.
use vstd::prelude::*;

use rand::rngs::SmallRng;
use rand::seq::SliceRandom;

verus! {

/// The absolute position of one cell of the falling piece.
#[derive(Clone, Copy, PartialEq, Eq, Structural, Debug)]
pub struct Tile {
    pub x: i8,
    pub y: i8,
}

/// The offset of one cell of the falling piece from the piece's pivot.
#[derive(Clone, Copy, PartialEq, Eq, Structural, Debug)]
pub struct FallingSegment {
    pub x_offset: i8,
    pub y_offset: i8,
}

/// The offset of a segment as a pair of integers.
pub open spec fn offset(s: FallingSegment) -> (int, int) {
    (s.x_offset as int, s.y_offset as int)
}

/// A quarter turn clockwise about the pivot: `(ox, oy)` becomes `(oy, -ox)`.
pub open spec fn cw(p: (int, int)) -> (int, int) {
    (p.1, -p.0)
}

/// A quarter turn counterclockwise about the pivot: `(ox, oy)` becomes `(-oy, ox)`.
pub open spec fn ccw(p: (int, int)) -> (int, int) {
    (-p.1, p.0)
}

/// The value lies in the range of `i8`.
pub open spec fn in_i8(v: int) -> bool {
    i8::MIN <= v <= i8::MAX
}

impl FallingSegment {
    pub fn rotate_clockwise(self) -> (r: FallingSegment)
        requires
            self.x_offset != i8::MIN,
        ensures
            offset(r) == cw(offset(self)),
    {
        FallingSegment { x_offset: self.y_offset, y_offset: -self.x_offset }
    }

    pub fn rotate_counterclockwise(self) -> (r: FallingSegment)
        requires
            self.y_offset != i8::MIN,
        ensures
            offset(r) == ccw(offset(self)),
    {
        FallingSegment { x_offset: -self.y_offset, y_offset: self.x_offset }
    }
}

/// Rotating clockwise four times gives back the original offset.
pub proof fn lemma_rotate_four_times(p: (int, int))
    ensures
        cw(cw(cw(cw(p)))) == p,
        ccw(cw(p)) == p,
        cw(ccw(p)) == p,
{
}

/// The pivot of a cell: its position less its offset.
pub open spec fn pivot(tile: Tile, segment: FallingSegment) -> (int, int) {
    (tile.x - segment.x_offset, tile.y - segment.y_offset)
}

/// The horizontal step of a move: left is -1, right is +1, both cancel.
pub open spec fn shift(left: bool, right: bool) -> int {
    (if right { 1int } else { 0int }) - (if left { 1int } else { 0int })
}

/// The offset after the requested rotations: counterclockwise first, then
/// clockwise.
pub open spec fn turned(p: (int, int), z: bool, x: bool) -> (int, int) {
    let p1 = if z { ccw(p) } else { p };
    if x { cw(p1) } else { p1 }
}

/// The cell position after moving the pivot by `shift` and turning the offset.
pub open spec fn moved(tile: Tile, segment: FallingSegment, left: bool, right: bool, z: bool, x: bool) -> (int, int) {
    let p = pivot(tile, segment);
    let o = turned(offset(segment), z, x);
    (p.0 + shift(left, right) + o.0, p.1 + o.1)
}

/// Every intermediate and final value of `update_segment` fits in `i8`.
pub open spec fn update_defined(tile: Tile, segment: FallingSegment, left: bool, right: bool, z: bool, x: bool) -> bool {
    let p = pivot(tile, segment);
    let o1 = if z { ccw(offset(segment)) } else { offset(segment) };
    let o2 = turned(offset(segment), z, x);
    let m = moved(tile, segment, left, right, z, x);
    &&& in_i8(p.0) && in_i8(p.1)
    &&& in_i8(p.0 - (if left { 1int } else { 0int }))
    &&& in_i8(p.0 + shift(left, right))
    &&& in_i8(o1.0) && in_i8(o1.1) && in_i8(o2.0) && in_i8(o2.1)
    &&& in_i8(m.0) && in_i8(m.1)
}

/// Moves one cell of the falling piece: its pivot goes one column left and/or
/// right, its offset turns counterclockwise (`z`) and/or clockwise (`x`), and
/// the cell lands at pivot plus the new offset.
pub fn update_segment(tile: &mut Tile, segment: &mut FallingSegment, left: bool, right: bool, z: bool, x: bool)
    requires
        update_defined(*old(tile), *old(segment), left, right, z, x),
    ensures
        offset(*final(segment)) == turned(offset(*old(segment)), z, x),
        (final(tile).x as int, final(tile).y as int) == moved(*old(tile), *old(segment), left, right, z, x),
        pivot(*final(tile), *final(segment)).1 == pivot(*old(tile), *old(segment)).1,
        pivot(*final(tile), *final(segment)).0 == pivot(*old(tile), *old(segment)).0 + shift(left, right),
{
    let mut focal_point_x = tile.x - segment.x_offset;
    let focal_point_y = tile.y - segment.y_offset;
    if left {
        focal_point_x -= 1;
    }
    if right {
        focal_point_x += 1;
    }
    if z {
        *segment = segment.rotate_counterclockwise();
    }
    if x {
        *segment = segment.rotate_clockwise();
    }
    *tile = Tile { x: focal_point_x + segment.x_offset, y: focal_point_y + segment.y_offset };
}

/// The seven tetromino shapes.
#[derive(Clone, Copy, PartialEq, Eq, Structural, Debug)]
pub enum Kind {
    I,
    T,
    J,
    L,
    S,
    Z,
    O,
}

/// Display colour of a piece.
#[derive(Clone, Copy, PartialEq, Eq, Structural, Debug)]
pub enum PieceColor {
    Teal,
    Purple,
    Orange,
    Blue,
    Red,
    Green,
    Yellow,
}

/// A template: four pivot-relative offsets and a colour.
#[derive(Clone, Copy, PartialEq, Eq, Debug)]
pub struct Tetromino {
    pub shape: [FallingSegment; 4],
    pub color: PieceColor,
}

/// The colour of each shape.
pub open spec fn color_of(k: Kind) -> PieceColor {
    match k {
        Kind::I => PieceColor::Teal,
        Kind::T => PieceColor::Purple,
        Kind::J => PieceColor::Orange,
        Kind::L => PieceColor::Blue,
        Kind::S => PieceColor::Green,
        Kind::Z => PieceColor::Red,
        Kind::O => PieceColor::Yellow,
    }
}

/// The `i`-th offset of each shape; the first is the pivot itself.
pub open spec fn template_offset(k: Kind, i: int) -> (int, int) {
    if i == 0 {
        (0, 0)
    } else {
        match k {
            Kind::I => if i == 1 { (-1, 0) } else if i == 2 { (1, 0) } else { (2, 0) },
            Kind::T => if i == 1 { (-1, 0) } else if i == 2 { (1, 0) } else { (0, 1) },
            Kind::J => if i == 1 { (-1, 0) } else if i == 2 { (1, 0) } else { (1, 1) },
            Kind::L => if i == 1 { (-1, 0) } else if i == 2 { (-1, 1) } else { (1, 0) },
            Kind::Z => if i == 1 { (0, 1) } else if i == 2 { (-1, 1) } else { (1, 0) },
            Kind::S => if i == 1 { (0, 1) } else if i == 2 { (-1, 0) } else { (1, 1) },
            Kind::O => if i == 1 { (0, 1) } else if i == 2 { (-1, 0) } else { (-1, 1) },
        }
    }
}

/// `t` is the template of shape `k`.
pub open spec fn is_template(t: Tetromino, k: Kind) -> bool {
    &&& t.color == color_of(k)
    &&& forall|i: int| 0 <= i < 4 ==> #[trigger] offset(t.shape@[i]) == template_offset(k, i)
}

/// `t` is one of the seven templates.
pub open spec fn is_any_template(t: Tetromino) -> bool {
    exists|k: Kind| is_template(t, k)
}

/// Template offsets lie in columns -1 to 2 and rows 0 to 1 of the pivot.
pub proof fn lemma_template_bounds(t: Tetromino)
    requires
        is_any_template(t),
    ensures
        forall|i: int|
            0 <= i < 4 ==> -1 <= #[trigger] t.shape@[i].x_offset <= 2 && 0 <= t.shape@[i].y_offset <= 1,
{
    let k = choose|k: Kind| is_template(t, k);
    assert forall|i: int| 0 <= i < 4 implies -1 <= #[trigger] t.shape@[i].x_offset <= 2 && 0
        <= t.shape@[i].y_offset <= 1 by {
        assert(offset(t.shape@[i]) == template_offset(k, i));
    }
}

fn seg(x_offset: i8, y_offset: i8) -> (r: FallingSegment)
    ensures
        r == (FallingSegment { x_offset, y_offset }),
{
    FallingSegment { x_offset, y_offset }
}

impl Tetromino {
    /// The template of shape `kind`.
    pub fn template(kind: Kind) -> (r: Tetromino)
        ensures
            is_template(r, kind),
    {
        let (shape, color) = match kind {
            Kind::I => ([seg(0, 0), seg(-1, 0), seg(1, 0), seg(2, 0)], PieceColor::Teal),
            Kind::T => ([seg(0, 0), seg(-1, 0), seg(1, 0), seg(0, 1)], PieceColor::Purple),
            Kind::J => ([seg(0, 0), seg(-1, 0), seg(1, 0), seg(1, 1)], PieceColor::Orange),
            Kind::L => ([seg(0, 0), seg(-1, 0), seg(-1, 1), seg(1, 0)], PieceColor::Blue),
            Kind::Z => ([seg(0, 0), seg(0, 1), seg(-1, 1), seg(1, 0)], PieceColor::Red),
            Kind::S => ([seg(0, 0), seg(0, 1), seg(-1, 0), seg(1, 1)], PieceColor::Green),
            Kind::O => ([seg(0, 0), seg(0, 1), seg(-1, 0), seg(-1, 1)], PieceColor::Yellow),
        };
        let r = Tetromino { shape, color };
        assert(forall|i: int| 0 <= i < 4 ==> #[trigger] offset(r.shape@[i]) == template_offset(kind, i));
        r
    }

    /// A template chosen by `rng` from the catalog, each of the seven with
    /// the same chance.
    pub fn random(rng: &mut SmallRng) -> (r: Tetromino)
        ensures
            exists|i: int| 0 <= i < 7 && is_template(r, kind_at(i)),
            is_any_template(r),
    {
        let all = catalog();
        match choose_template(&all, rng) {
            Some(t) => {
                let ghost i = choose|i: int| 0 <= i < all@.len() && all@[i] == t;
                assert(is_template(all@[i], kind_at(i)));
                t
            },
            None => all[0],
        }
    }
}

/// The shape at position `i` of the catalog.
pub open spec fn kind_at(i: int) -> Kind {
    if i == 0 {
        Kind::I
    } else if i == 1 {
        Kind::T
    } else if i == 2 {
        Kind::L
    } else if i == 3 {
        Kind::J
    } else if i == 4 {
        Kind::S
    } else if i == 5 {
        Kind::Z
    } else {
        Kind::O
    }
}

/// The seven templates, in the order I, T, L, J, S, Z, O.
pub fn catalog() -> (r: Vec<Tetromino>)
    ensures
        r@.len() == 7,
        forall|i: int| 0 <= i < 7 ==> is_template(#[trigger] r@[i], kind_at(i)),
{
    let mut all: Vec<Tetromino> = Vec::new();
    all.push(Tetromino::template(Kind::I));
    all.push(Tetromino::template(Kind::T));
    all.push(Tetromino::template(Kind::L));
    all.push(Tetromino::template(Kind::J));
    all.push(Tetromino::template(Kind::S));
    all.push(Tetromino::template(Kind::Z));
    all.push(Tetromino::template(Kind::O));
    assert forall|i: int| 0 <= i < 7 implies is_template(#[trigger] all@[i], kind_at(i)) by {
        assert(is_template(all@[0], Kind::I));
        assert(is_template(all@[1], Kind::T));
        assert(is_template(all@[2], Kind::L));
        assert(is_template(all@[3], Kind::J));
        assert(is_template(all@[4], Kind::S));
        assert(is_template(all@[5], Kind::Z));
        assert(is_template(all@[6], Kind::O));
    }
    all
}

/// Column of the pivot of a newly spawned piece.
pub const SPAWN_X: i8 = 6;

/// Row of the pivot of a newly spawned piece: the first row above the field.
pub const SPAWN_Y: i8 = 20;

/// The falling piece: four cells, each with its position and its offset from
/// the shared pivot.
pub struct Piece {
    pub tiles: Vec<Tile>,
    pub segments: Vec<FallingSegment>,
    pub color: PieceColor,
}

/// Offsets stay within two cells of the pivot.
pub open spec fn small(s: FallingSegment) -> bool {
    -2 <= s.x_offset <= 2 && -2 <= s.y_offset <= 2
}

impl Piece {
    /// Four cells sharing one pivot, which never rises above the spawn row;
    /// each cell within the columns, not below row 0, near its pivot.
    pub open spec fn wf(&self) -> bool {
        &&& self.tiles@.len() == 4
        &&& self.segments@.len() == 4
        &&& pivot(self.tiles@[0], self.segments@[0]).1 <= 20
        &&& forall|i: int|
            0 <= i < 4 ==> small(#[trigger] self.segments@[i]) && 0 <= self.tiles@[i].x < 10 && 0
                <= self.tiles@[i].y && pivot(self.tiles@[i], self.segments@[i]) == pivot(
                self.tiles@[0],
                self.segments@[0],
            )
    }

    /// The piece is template `t` with its pivot at the spawn point.
    pub open spec fn spawned_from(&self, t: Tetromino) -> bool {
        &&& self.tiles@.len() == 4
        &&& self.segments@.len() == 4
        &&& self.color == t.color
        &&& forall|i: int|
            0 <= i < 4 ==> {
                &&& #[trigger] self.segments@[i] == t.shape@[i]
                &&& self.tiles@[i].x == 6 + t.shape@[i].x_offset
                &&& self.tiles@[i].y == 20 + t.shape@[i].y_offset
            }
    }

    /// Places template `t` with its pivot at the spawn point.
    pub fn spawn(t: Tetromino) -> (r: Piece)
        requires
            is_any_template(t),
        ensures
            r.wf(),
            r.spawned_from(t),
    {
        proof {
            lemma_template_bounds(t);
        }
        let mut tiles: Vec<Tile> = Vec::new();
        let mut segments: Vec<FallingSegment> = Vec::new();
        let mut i: usize = 0;
        while i < 4
            invariant
                forall|j: int|
                    0 <= j < 4 ==> -1 <= #[trigger] t.shape@[j].x_offset <= 2 && 0 <= t.shape@[j].y_offset <= 1,
                i <= 4,
                tiles@.len() == i,
                segments@.len() == i,
                forall|j: int|
                    0 <= j < i ==> {
                        &&& #[trigger] segments@[j] == t.shape@[j]
                        &&& tiles@[j].x == 6 + t.shape@[j].x_offset
                        &&& tiles@[j].y == 20 + t.shape@[j].y_offset
                    },
            decreases 4 - i,
        {
            let segment = t.shape[i];
            assert(segment == t.shape@[i as int]);
            assert(-1 <= t.shape@[i as int].x_offset <= 2 && 0 <= t.shape@[i as int].y_offset <= 1);
            tiles.push(Tile { x: SPAWN_X + segment.x_offset, y: SPAWN_Y + segment.y_offset });
            segments.push(segment);
            i += 1;
        }
        let r = Piece { tiles, segments, color: t.color };
        assert(r.tiles@.len() == 4);
        assert(r.segments@.len() == 4);
        assert(r.spawned_from(t));
        assert(pivot(r.tiles@[0], r.segments@[0]) == (6int, 20int));
        assert forall|j: int| 0 <= j < 4 implies small(#[trigger] r.segments@[j]) && 0 <= r.tiles@[j].x < 10
            && 0 <= r.tiles@[j].y && pivot(r.tiles@[j], r.segments@[j]) == (6int, 20int) by {
            assert(r.segments@[j] == t.shape@[j]);
        }
        assert(r.wf());
        r
    }
}

/// Relies on rand's `SliceRandom::choose` for slices: `None` on an empty
/// slice, otherwise one of the slice's elements.
#[verifier::external_body]
fn choose_template(templates: &Vec<Tetromino>, rng: &mut SmallRng) -> (r: Option<Tetromino>)
    ensures
        r is None <==> templates@.len() == 0,
        r matches Some(t) ==> templates@.contains(t),
{
    templates.as_slice().choose(rng).copied()
}

/// rand's `SmallRng`, the random source for new pieces, carried through
/// opaque.
#[verifier::external_type_specification]
#[verifier::external_body]
pub struct ExSmallRng(SmallRng);

} // verus!
