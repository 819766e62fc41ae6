//! Mathematical model of the playfield: coordinates, piece kinds, the
//! shape table, and the predicates the contracts are stated over.
use vstd::prelude::*;

verus! {

/// Number of visible rows of the playfield.
pub const HEIGHT: u16 = 16;
/// Number of columns of the playfield.
pub const WIDTH: u16 = 14;

/// Largest visible row index.
pub const MAX_HEIGTH: i32 = 15;
/// Largest column index.
pub const MAX_WIDTH: i32 = 13;

/// A grid coordinate on the playfield. Visible cells have
/// `x` in `[0, WIDTH - 1]` and `y` in `[0, HEIGHT - 1]`; the row `y == -1`
/// is the sentinel row used only for overflow (game-over) detection.
#[derive(PartialEq, Eq, Structural, Copy, Clone, Debug)]
pub struct Point {
    pub x: i32,
    pub y: i32,
}

/// The movement intent applied on the next tick. Rotation is a separate,
/// independent request and is not part of this enumeration.
#[derive(PartialEq, Eq, Structural, Copy, Clone, Debug)]
pub enum Direction {
    Stop,
    Down,
    Left,
    Right,
}

/// The seven piece kinds.
#[derive(PartialEq, Eq, Structural, Copy, Clone, Debug)]
pub enum Block {
    L,
    J,
    I,
    O,
    S,
    Z,
    T,
}

/// The four cells occupied by `kind` in layout `idx` (one of the four
/// precomputed rotation layouts) when anchored at `(px, py)`.
///
/// The offsets are authored per layout rather than derived from a rotation
/// matrix, so each of the four logical rotation states is listed even for
/// the kinds whose geometry repeats.
pub open spec fn shape_at(kind: Block, idx: int, px: int, py: int) -> Seq<(int, int)> {
    match kind {
        Block::L => {
            if idx == 0 {
                seq![(px, py - 1), (px, py), (px, py + 1), (px + 1, py + 1)]
            } else if idx == 1 {
                seq![(px - 1, py), (px, py), (px + 1, py), (px + 1, py - 1)]
            } else if idx == 2 {
                seq![(px - 1, py - 1), (px, py - 1), (px, py), (px, py + 1)]
            } else {
                seq![(px - 1, py + 1), (px - 1, py), (px, py), (px + 1, py)]
            }
        },
        Block::J => {
            if idx == 0 {
                seq![(px, py - 1), (px, py), (px, py + 1), (px - 1, py + 1)]
            } else if idx == 1 {
                seq![(px - 1, py), (px, py), (px + 1, py), (px + 1, py + 1)]
            } else if idx == 2 {
                seq![(px + 1, py - 1), (px, py - 1), (px, py), (px, py + 1)]
            } else {
                seq![(px - 1, py - 1), (px - 1, py), (px, py), (px + 1, py)]
            }
        },
        Block::I => {
            if idx == 0 || idx == 2 {
                seq![(px - 1, py), (px, py), (px + 1, py), (px + 2, py)]
            } else {
                seq![(px, py + 2), (px, py + 1), (px, py), (px, py - 1)]
            }
        },
        Block::O => {
            seq![(px, py), (px + 1, py), (px + 1, py + 1), (px, py + 1)]
        },
        Block::S => {
            if idx == 0 || idx == 2 {
                seq![(px - 1, py), (px, py), (px, py - 1), (px + 1, py - 1)]
            } else {
                seq![(px - 1, py - 1), (px - 1, py), (px, py), (px, py + 1)]
            }
        },
        Block::Z => {
            if idx == 0 || idx == 2 {
                seq![(px - 1, py - 1), (px, py - 1), (px, py), (px + 1, py)]
            } else {
                seq![(px + 1, py - 1), (px + 1, py), (px, py), (px, py + 1)]
            }
        },
        Block::T => {
            if idx == 0 {
                seq![(px, py - 1), (px, py), (px - 1, py), (px + 1, py)]
            } else if idx == 1 {
                seq![(px - 1, py), (px, py), (px, py - 1), (px, py + 1)]
            } else if idx == 2 {
                seq![(px - 1, py), (px, py), (px + 1, py), (px, py + 1)]
            } else {
                seq![(px, py - 1), (px, py), (px, py + 1), (px + 1, py)]
            }
        },
    }
}

/// Which of the four layouts a rotation counter selects: counter value
/// `1` picks layout 0, `2` picks 1, `3` picks 2 and `0` picks 3.
pub open spec fn layout_index(dir: int) -> int {
    if dir % 4 == 0 {
        3
    } else {
        dir % 4 - 1
    }
}

/// The executable cell list `v` holds exactly the modelled cells `s`.
pub open spec fn cells_match(v: Seq<Point>, s: Seq<(int, int)>) -> bool {
    v.len() == s.len() && forall|i: int|
        0 <= i < s.len() ==> v[i].x as int == s[i].0 && v[i].y as int == s[i].1
}

/// The pile holds a cell at coordinate `(x, y)`.
pub open spec fn pile_has(pile: Seq<Point>, x: int, y: int) -> bool {
    exists|i: int| 0 <= i < pile.len() && pile[i].x as int == x && pile[i].y as int == y
}

/// Row `y` is complete: the pile holds a cell at every column of that row.
pub open spec fn row_complete(pile: Seq<Point>, y: int) -> bool {
    forall|x: int| 0 <= x < WIDTH as int ==> pile_has(pile, x, y)
}

/// No two pile entries name the same coordinate.
pub open spec fn pile_unique(pile: Seq<Point>) -> bool {
    forall|i: int, j: int|
        0 <= i < j < pile.len() ==> !(pile[i].x == pile[j].x && pile[i].y == pile[j].y)
}

/// Some pile cell sits on the sentinel row `y == -1`: the run is over.
pub open spec fn overflow_reached(pile: Seq<Point>) -> bool {
    exists|x: int| 0 <= x < WIDTH as int && #[trigger] pile_has(pile, x, -1)
}

/// Every cell is inside the walls and no lower than the floor.
pub open spec fn cells_in_bounds(v: Seq<Point>) -> bool {
    forall|i: int|
        0 <= i < v.len() ==> 0 <= v[i].x && v[i].x <= MAX_WIDTH && v[i].y <= MAX_HEIGTH
}

/// Some cell of `v` coincides with a pile cell.
pub open spec fn seq_hits_pile(v: Seq<Point>, pile: Seq<Point>) -> bool {
    exists|i: int| 0 <= i < v.len() && pile_has(pile, v[i].x as int, v[i].y as int)
}

/// The piece has landed: some cell touches the floor, or rests directly
/// on a pile cell.
pub open spec fn landed_pts(v: Seq<Point>, pile: Seq<Point>) -> bool {
    exists|i: int|
        0 <= i < v.len() && (v[i].y == MAX_HEIGTH || pile_has(
            pile,
            v[i].x as int,
            v[i].y as int + 1,
        ))
}

/// The four cells are pairwise distinct coordinates.
pub open spec fn pts_distinct(v: Seq<Point>) -> bool {
    forall|i: int, j: int|
        0 <= i < j < v.len() ==> !(v[i].x == v[j].x && v[i].y == v[j].y)
}

/// Some modelled cell coincides with a pile cell.
pub open spec fn cells_hit_pile(s: Seq<(int, int)>, pile: Seq<Point>) -> bool {
    exists|i: int| 0 <= i < s.len() && #[trigger] pile_has(pile, s[i].0, s[i].1)
}

/// An executable cell list and its model agree on pile contact.
pub proof fn lemma_hits_agree(v: Seq<Point>, s: Seq<(int, int)>, pile: Seq<Point>)
    requires
        cells_match(v, s),
    ensures
        seq_hits_pile(v, pile) == cells_hit_pile(s, pile),
{
    if seq_hits_pile(v, pile) {
        let i = choose|i: int|
            0 <= i < v.len() && pile_has(pile, (#[trigger] v[i]).x as int, v[i].y as int);
        assert(pile_has(pile, s[i].0, s[i].1));
    }
    if cells_hit_pile(s, pile) {
        let i = choose|i: int| 0 <= i < s.len() && #[trigger] pile_has(pile, s[i].0, s[i].1);
        assert(pile_has(pile, v[i].x as int, v[i].y as int));
    }
}

/// The move-into-pile rollback at the model level: one step back opposite
/// the intent exactly when the derived cells at `(x, y)` intersect the
/// pile.
pub open spec fn crash_step(
    kind: Block,
    idx: int,
    d: Direction,
    pile: Seq<Point>,
    x: int,
    y: int,
) -> (int, int) {
    let hit = cells_hit_pile(shape_at(kind, idx, x, y), pile);
    match d {
        Direction::Stop => (x, y),
        Direction::Down => if hit {
            (x, y - 1)
        } else {
            (x, y)
        },
        Direction::Left => if hit {
            (x + 1, y)
        } else {
            (x, y)
        },
        Direction::Right => if hit {
            (x - 1, y)
        } else {
            (x, y)
        },
    }
}

/// The anchor row where the spin-into-pile correction ends: searching
/// upward from `y` row by row while the derived cells intersect the pile,
/// for at most `fuel` rounds.
pub open spec fn spin_step(
    kind: Block,
    idx: int,
    pile: Seq<Point>,
    x: int,
    y: int,
    fuel: nat,
) -> int
    decreases fuel,
{
    if fuel == 0 {
        y
    } else if cells_hit_pile(shape_at(kind, idx, x, y), pile) {
        spin_step(kind, idx, pile, x, y - 1, (fuel - 1) as nat)
    } else {
        y
    }
}

/// The kind each index of the uniform choice selects.
pub open spec fn kind_of_index(i: int) -> Block {
    if i == 0 {
        Block::L
    } else if i == 1 {
        Block::J
    } else if i == 2 {
        Block::I
    } else if i == 3 {
        Block::O
    } else if i == 4 {
        Block::S
    } else if i == 5 {
        Block::Z
    } else {
        Block::T
    }
}

/// Smallest x offset of any cell of `kind` in layout `idx`, relative to the anchor.
pub open spec fn rel_x_min(kind: Block, idx: int) -> int {
    match kind {
        Block::L => if idx == 0 { 0 } else { -1 },
        Block::J => if idx == 2 { 0 } else { -1 },
        Block::I => if idx == 0 || idx == 2 { -1 } else { 0 },
        Block::O => 0,
        Block::S => -1,
        Block::Z => if idx == 0 || idx == 2 { -1 } else { 0 },
        Block::T => if idx == 3 { 0 } else { -1 },
    }
}

/// Largest x offset of any cell of `kind` in layout `idx`, relative to the anchor.
pub open spec fn rel_x_max(kind: Block, idx: int) -> int {
    match kind {
        Block::L => if idx == 2 { 0 } else { 1 },
        Block::J => if idx == 0 { 0 } else { 1 },
        Block::I => if idx == 0 || idx == 2 { 2 } else { 0 },
        Block::O => 1,
        Block::S => if idx == 0 || idx == 2 { 1 } else { 0 },
        Block::Z => 1,
        Block::T => if idx == 1 { 0 } else { 1 },
    }
}

/// Smallest y offset of any cell of `kind` in layout `idx`, relative to the anchor.
pub open spec fn rel_y_min(kind: Block, idx: int) -> int {
    match kind {
        Block::L => if idx == 3 { 0 } else { -1 },
        Block::J => if idx == 1 { 0 } else { -1 },
        Block::I => if idx == 0 || idx == 2 { 0 } else { -1 },
        Block::O => 0,
        Block::S => -1,
        Block::Z => -1,
        Block::T => if idx == 2 { 0 } else { -1 },
    }
}

/// Largest y offset of any cell of `kind` in layout `idx`, relative to the anchor.
pub open spec fn rel_y_max(kind: Block, idx: int) -> int {
    match kind {
        Block::L => if idx == 1 { 0 } else { 1 },
        Block::J => if idx == 3 { 0 } else { 1 },
        Block::I => if idx == 0 || idx == 2 { 0 } else { 2 },
        Block::O => 1,
        Block::S => if idx == 0 || idx == 2 { 0 } else { 1 },
        Block::Z => if idx == 0 || idx == 2 { 0 } else { 1 },
        Block::T => if idx == 0 { 0 } else { 1 },
    }
}

/// The anchored bounding box of `kind` in layout `idx` lies inside the walls
/// and above the floor.
pub open spec fn box_in_bounds(kind: Block, idx: int, px: int, py: int) -> bool {
    &&& px + rel_x_min(kind, idx) >= 0
    &&& px + rel_x_max(kind, idx) <= MAX_WIDTH as int
    &&& py + rel_y_max(kind, idx) <= MAX_HEIGTH as int
}

/// Every layout's four cells stay inside the anchored bounding box given by
/// the relative extent tables, and each of the three extents that the
/// corrective passes reason about is attained by some cell.
pub proof fn lemma_shape_extent(kind: Block, idx: int, px: int, py: int)
    requires
        0 <= idx < 4,
    ensures
        shape_at(kind, idx, px, py).len() == 4,
        forall|i: int|
            0 <= i < 4 ==> px + rel_x_min(kind, idx) <= #[trigger] shape_at(kind, idx, px, py)[i].0
                <= px + rel_x_max(kind, idx),
        forall|i: int|
            0 <= i < 4 ==> py + rel_y_min(kind, idx) <= #[trigger] shape_at(kind, idx, px, py)[i].1
                <= py + rel_y_max(kind, idx),
        exists|i: int| 0 <= i < 4 && (#[trigger] shape_at(kind, idx, px, py)[i]).0 == px + rel_x_min(kind, idx),
        exists|i: int| 0 <= i < 4 && (#[trigger] shape_at(kind, idx, px, py)[i]).0 == px + rel_x_max(kind, idx),
        exists|i: int| 0 <= i < 4 && (#[trigger] shape_at(kind, idx, px, py)[i]).1 == py + rel_y_max(kind, idx),
{
    let s = shape_at(kind, idx, px, py);
    assert(s.len() == 4);
    // Mentioning each indexed cell lets the solver expand the layout's
    // literal coordinates and read every bound and witness off them.
    assert(s[0] == s[0] && s[1] == s[1] && s[2] == s[2] && s[3] == s[3]);
}

/// The escape-prevention decision, mirrored at the level of the anchored
/// bounding box: where the at-most-one correction (left wall first, then
/// right wall, then floor) puts the anchor.
pub open spec fn escape_box(kind: Block, idx: int, px: int, py: int) -> (int, int) {
    if px + rel_x_min(kind, idx) < 0 {
        (px + 1, py)
    } else if px + rel_x_max(kind, idx) > MAX_WIDTH as int {
        (px - 1, py)
    } else if py + rel_y_max(kind, idx) > MAX_HEIGTH as int {
        (px, py - 1)
    } else {
        (px, py)
    }
}

/// The bounds-restoring argument for one tick, carried out on bounding
/// boxes. A tick starts with the cells of layout `r1` inside the
/// playfield at `(x0, y0)`; the movement resolver steps to `(x1, y1)`
/// under its wall guards; the move-into-pile rollback yields `(x4, y4)`;
/// the spin correction only raises the anchor, to `(x5, y5)`. Whatever
/// layout `r2` the tick's shape table lookup selects, at most one wall or
/// floor is then exceeded, by at most one cell, and the single
/// escape-prevention correction puts the whole box back inside.
///
/// The crux is a property of the shape table: a layout change never grows
/// the box toward the floor and toward a wall at once. The two excluded
/// inputs are kind I's long axis flipped flush against the right wall or
/// the floor: its far end then lands two cells out, one more than the
/// tick's single correction recovers (the next tick's correction does).
pub proof fn lemma_tick_box_bounds(
    kind: Block,
    r1: int,
    r2: int,
    d: Direction,
    x0: int,
    y0: int,
    x1: int,
    y1: int,
    x4: int,
    y4: int,
    x5: int,
    y5: int,
)
    requires
        0 <= r1 < 4,
        0 <= r2 < 4,
        box_in_bounds(kind, r1, x0, y0),
        match d {
            Direction::Stop => x1 == x0 && y1 == y0,
            Direction::Down => x1 == x0 && ((y1 == y0 + 1 && y0 + rel_y_max(kind, r1)
                <= MAX_HEIGTH as int - 1) || (y1 == y0 && y0 + rel_y_max(kind, r1)
                >= MAX_HEIGTH as int)),
            Direction::Left => y1 == y0 && ((x1 == x0 - 1 && x0 + rel_x_min(kind, r1) >= 1) || (x1
                == x0 && x0 + rel_x_min(kind, r1) <= 0)),
            Direction::Right => y1 == y0 && ((x1 == x0 + 1 && x0 + rel_x_max(kind, r1)
                <= MAX_WIDTH as int - 1) || (x1 == x0 && x0 + rel_x_max(kind, r1)
                >= MAX_WIDTH as int)),
        },
        match d {
            Direction::Stop => x4 == x1 && y4 == y1,
            Direction::Down => x4 == x1 && (y4 == y1 || y4 == y1 - 1),
            Direction::Left => y4 == y1 && (x4 == x1 || x4 == x1 + 1),
            Direction::Right => y4 == y1 && (x4 == x1 || x4 == x1 - 1),
        },
        x5 == x4,
        y4 - HEIGHT as int <= y5 <= y4,
        !(kind is I && (r2 == 0 || r2 == 2) && x5 == MAX_WIDTH as int),
        !(kind is I && (r2 == 1 || r2 == 3) && y5 == MAX_HEIGTH as int),
    ensures
        box_in_bounds(kind, r2, escape_box(kind, r2, x5, y5).0, escape_box(kind, r2, x5, y5).1),
{
}

/// The bounds-restoring argument for a tick that starts from the central
/// spawn window (as the tick after a respawn does, when the cached cells
/// still belong to the piece just locked and tie the guards to no
/// layout): from an anchor at least two columns from either wall and two
/// rows above the floor, one step of movement, the rollback opposite to
/// it, the upward spin correction and the single escape-prevention
/// correction cannot put any layout's box outside the playfield.
pub proof fn lemma_tick_box_bounds_central(
    kind: Block,
    r2: int,
    x0: int,
    y0: int,
    x4: int,
    y4: int,
    x5: int,
    y5: int,
)
    requires
        0 <= r2 < 4,
        2 <= x0 <= MAX_WIDTH as int - 2,
        y0 <= MAX_HEIGTH as int - 2,
        x0 - 1 <= x4 <= x0 + 1,
        y4 <= y0 + 1,
        x5 == x4,
        y5 <= y4,
    ensures
        box_in_bounds(kind, r2, escape_box(kind, r2, x5, y5).0, escape_box(kind, r2, x5, y5).1),
{
}

/// The left-wall argument for one tick without a rotation change: if the
/// cells of the active layout start at or right of the left wall, a Left
/// intent, its rollback, the spin correction and the escape-prevention
/// correction leave them at or right of it.
pub proof fn lemma_tick_left_wall(kind: Block, r: int, x0: int, x1: int, x4: int, x5: int, y5: int)
    requires
        0 <= r < 4,
        x0 + rel_x_min(kind, r) >= 0,
        (x1 == x0 - 1 && x0 + rel_x_min(kind, r) >= 1) || (x1 == x0 && x0 + rel_x_min(kind, r)
            <= 0),
        x4 == x1 || x4 == x1 + 1,
        x5 == x4,
    ensures
        escape_box(kind, r, x5, y5).0 + rel_x_min(kind, r) >= 0,
{
}

} // verus!
