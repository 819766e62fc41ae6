//! The game state machine: the playfield, the active piece, and the
//! per-tick resolve / correct / score cycle.
use vstd::prelude::*;

use crate::model::{
    cells_hit_pile, cells_in_bounds, cells_match, crash_step, escape_box, kind_of_index,
    landed_pts, layout_index, lemma_hits_agree, lemma_shape_extent, lemma_tick_box_bounds,
    lemma_tick_box_bounds_central, lemma_tick_left_wall, overflow_reached, pile_has, rel_x_max,
    rel_x_min, rel_y_max, row_complete, seq_hits_pile, shape_at, spin_step, Block, Direction,
    Point, HEIGHT, MAX_HEIGTH, MAX_WIDTH, WIDTH,
};
use crate::rows::{lemma_row_removed_len, lemma_sweep_count_nonneg, row_removed, sweep};

verus! {

/// The whole state of one run: the active piece (anchor, rotation counter,
/// kind, and its cached derived cells), the pending movement intent, the
/// settled pile and the score.
pub struct Game {
    pub position: Point,
    pub block_dir: i32,
    pub block_spec: Block,
    pub block_arr_list: Vec<Vec<Point>>,
    pub block_arr: Vec<Point>,
    pub direction: Direction,
    pub score: u16,
    pub pile: Vec<Point>,
}

impl Game {
    /// The four cells the active piece occupies, derived from anchor,
    /// rotation counter and kind.
    pub open spec fn derived(self) -> Seq<(int, int)> {
        shape_at(
            self.block_spec,
            layout_index(self.block_dir as int),
            self.position.x as int,
            self.position.y as int,
        )
    }

    /// The cached cell list is the derived one: it has been recomputed
    /// since anchor, rotation counter and kind last changed.
    pub open spec fn synced(self) -> bool {
        cells_match(self.block_arr@, self.derived())
    }

    /// The cached cell list is layout `r` of the current kind at the
    /// current anchor.
    pub open spec fn arr_is_layout(self, r: int) -> bool {
        cells_match(
            self.block_arr@,
            shape_at(self.block_spec, r, self.position.x as int, self.position.y as int),
        )
    }

    /// The cached cell list is some layout of the current kind at the
    /// current anchor: the state every tick leaves behind, which rotation
    /// requests (they touch only the counter) preserve.
    pub open spec fn start_ok(self) -> bool {
        exists|r: int| 0 <= r < 4 && #[trigger] self.arr_is_layout(r)
    }

    /// The cached table of the four layouts matches the current anchor
    /// and kind.
    pub open spec fn list_synced(self) -> bool {
        self.block_arr_list@.len() == 4 && forall|r: int|
            0 <= r < 4 ==> cells_match(
                (#[trigger] self.block_arr_list@[r])@,
                shape_at(self.block_spec, r, self.position.x as int, self.position.y as int),
            )
    }

    /// The anchor is at least `m` away from the i32 limits: room for `m`
    /// single-cell steps of anchor arithmetic without overflow.
    pub open spec fn pos_within(self, m: int) -> bool {
        &&& i32::MIN + m < self.position.x < i32::MAX - m
        &&& i32::MIN + m < self.position.y < i32::MAX - m
    }

    /// Everything except the anchor position is as in `other`.
    pub open spec fn same_but_position(self, other: Game) -> bool {
        &&& self.block_dir == other.block_dir
        &&& self.block_spec == other.block_spec
        &&& self.block_arr@ == other.block_arr@
        &&& self.block_arr_list@ == other.block_arr_list@
        &&& self.direction == other.direction
        &&& self.score == other.score
        &&& self.pile@ == other.pile@
    }

    /// Everything except anchor and cached cell lists is as in `other`:
    /// what a corrective pass (which moves the anchor and recomputes the
    /// cells) leaves untouched.
    pub open spec fn same_piece_config(self, other: Game) -> bool {
        &&& self.block_dir == other.block_dir
        &&& self.block_spec == other.block_spec
        &&& self.direction == other.direction
        &&& self.score == other.score
        &&& self.pile@ == other.pile@
    }

    /// Where the movement resolver puts the anchor: one step in the intent
    /// direction, unless some current cell already touches the wall being
    /// moved toward (a look-ahead guard on the current footprint).
    pub open spec fn move_target(self) -> (int, int) {
        let x = self.position.x as int;
        let y = self.position.y as int;
        match self.direction {
            Direction::Stop => (x, y),
            Direction::Down => if forall|i: int|
                0 <= i < self.block_arr@.len() ==> (#[trigger] self.block_arr@[i]).y
                    < MAX_HEIGTH {
                (x, y + 1)
            } else {
                (x, y)
            },
            Direction::Left => if forall|i: int|
                0 <= i < self.block_arr@.len() ==> (#[trigger] self.block_arr@[i]).x > 0 {
                (x - 1, y)
            } else {
                (x, y)
            },
            Direction::Right => if forall|i: int|
                0 <= i < self.block_arr@.len() ==> (#[trigger] self.block_arr@[i]).x < MAX_WIDTH {
                (x + 1, y)
            } else {
                (x, y)
            },
        }
    }

    /// Where the move-into-pile correction puts the anchor: one step back
    /// opposite to the intent, exactly when some current cell overlaps the
    /// pile.
    pub open spec fn crash_target(self) -> (int, int) {
        let x = self.position.x as int;
        let y = self.position.y as int;
        let hit = seq_hits_pile(self.block_arr@, self.pile@);
        match self.direction {
            Direction::Stop => (x, y),
            Direction::Down => if hit {
                (x, y - 1)
            } else {
                (x, y)
            },
            Direction::Left => if hit {
                (x + 1, y)
            } else {
                (x, y)
            },
            Direction::Right => if hit {
                (x - 1, y)
            } else {
                (x, y)
            },
        }
    }

    /// Where the escape-prevention correction puts the anchor: at most one
    /// single-cell correction, checked in the order left wall, right wall,
    /// floor.
    pub open spec fn escape_target(self) -> (int, int) {
        let x = self.position.x as int;
        let y = self.position.y as int;
        if exists|i: int| 0 <= i < self.block_arr@.len() && (#[trigger] self.block_arr@[i]).x < 0 {
            (x + 1, y)
        } else if exists|i: int|
            0 <= i < self.block_arr@.len() && (#[trigger] self.block_arr@[i]).x > MAX_WIDTH {
            (x - 1, y)
        } else if exists|i: int|
            0 <= i < self.block_arr@.len() && (#[trigger] self.block_arr@[i]).y > MAX_HEIGTH {
            (x, y - 1)
        } else {
            (x, y)
        }
    }

    /// What a lock event does: the active cells join the front of the pile
    /// in reverse cell-list order, the rest of the pile keeps its order
    /// behind them, and anchor, rotation counter and intent reset.
    pub open spec fn locked_rel(pre: Game, post: Game) -> bool {
        let n = pre.block_arr@.len() as int;
        &&& post.pile@.len() == pre.pile@.len() + n
        &&& forall|j: int| 0 <= j < n ==> post.pile@[j] == pre.block_arr@[n - 1 - j]
        &&& forall|j: int| n <= j < post.pile@.len() ==> post.pile@[j] == pre.pile@[j - n]
        &&& post.position.x == WIDTH as i32 / 2 && post.position.y == 0
        &&& post.block_dir == 1
        &&& post.direction is Down
        &&& post.block_spec == pre.block_spec
        &&& post.score == pre.score
        &&& post.block_arr@ == pre.block_arr@
        &&& post.block_arr_list@ == pre.block_arr_list@
    }

    /// Where the tick's pass pipeline puts the anchor: the escape
    /// correction of the spin correction of the rollback of the movement
    /// resolver's target, each pass reading the cells re-derived by its
    /// predecessor. The movement guards read the cells cached before the
    /// tick; every later pass reads layout `layout_index(pre.block_dir)`.
    pub open spec fn tick_target(pre: Game) -> (int, int) {
        let kind = pre.block_spec;
        let r = layout_index(pre.block_dir as int);
        let m = pre.move_target();
        let c = crash_step(kind, r, pre.direction, pre.pile@, m.0, m.1);
        let s = spin_step(kind, r, pre.pile@, c.0, c.1, HEIGHT as nat);
        escape_box(kind, r, c.0, s)
    }

    /// States the tick's bounds argument covers: the cached cells are some
    /// layout of the current piece and lie inside the playfield (what
    /// every tick leaves behind), or the anchor sits in the central spawn
    /// window (where a respawn or kind change leaves it). Every state a
    /// driven run reaches is one of the two.
    pub open spec fn tick_bounds_ready(g: Game) -> bool {
        ||| g.start_ok() && cells_in_bounds(g.block_arr@)
        ||| 2 <= g.position.x <= MAX_WIDTH - 2 && g.position.y <= MAX_HEIGTH - 2
    }

    /// The one family of ticks whose single escape-prevention correction
    /// cannot finish restoring the bounds: kind I's four cells lie in a
    /// line, so when an axis flip lands its long end flush against the
    /// right wall or the floor, the far cell sits two columns or rows
    /// out — one more than the tick's one correction recovers (the next
    /// tick's correction completes the job).
    pub open spec fn i_flip_overhang(pre: Game) -> bool {
        let kind = pre.block_spec;
        let r = layout_index(pre.block_dir as int);
        let m = pre.move_target();
        let c = crash_step(kind, r, pre.direction, pre.pile@, m.0, m.1);
        let s = spin_step(kind, r, pre.pile@, c.0, c.1, HEIGHT as nat);
        &&& kind is I
        &&& ((r == 0 || r == 2) && c.0 == MAX_WIDTH as int) || ((r == 1 || r == 3) && s
            == MAX_HEIGTH as int)
    }

    /// What one tick does to the state: kind, rotation counter and intent
    /// are untouched; the cell caches end re-derived; the anchor ends
    /// exactly at the composed pass target; in a terminal state the
    /// scorer does not run, otherwise pile and score are exactly what the
    /// sweep of the line clearer yields; and from any covered start the
    /// cells end inside the playfield.
    pub open spec fn tick_rel(pre: Game, post: Game) -> bool {
        &&& post.synced()
        &&& post.list_synced()
        &&& post.block_dir == pre.block_dir
        &&& post.block_spec == pre.block_spec
        &&& post.direction == pre.direction
        &&& post.position.x as int == Game::tick_target(pre).0
        &&& post.position.y as int == Game::tick_target(pre).1
        &&& overflow_reached(pre.pile@) ==> post.pile@ == pre.pile@ && post.score == pre.score
        &&& !overflow_reached(pre.pile@) ==> post.pile@ == sweep(pre.pile@, MAX_HEIGTH as int).0
            && post.score as int == pre.score as int + 1000 * sweep(
            pre.pile@,
            MAX_HEIGTH as int,
        ).1
        &&& pre.position.x as int - 2 <= post.position.x as int <= pre.position.x as int + 2
        &&& pre.position.y as int - 18 <= post.position.y as int <= pre.position.y as int + 1
        &&& (Game::tick_bounds_ready(pre) && !Game::i_flip_overhang(pre)) ==> cells_in_bounds(
            post.block_arr@,
        )
        &&& (pre.arr_is_layout(layout_index(pre.block_dir as int)) && pre.direction is Left && (
        forall|i: int| 0 <= i < pre.block_arr@.len() ==> (#[trigger] pre.block_arr@[i]).x >= 0))
            ==> (forall|i: int|
            0 <= i < post.block_arr@.len() ==> (#[trigger] post.block_arr@[i]).x >= 0)
    }
}

/// All cells are strictly above the floor row.
fn all_y_below(v: &Vec<Point>) -> (r: bool)
    ensures
        r == (forall|i: int| 0 <= i < v@.len() ==> (#[trigger] v@[i]).y < MAX_HEIGTH),
{
    let mut k: usize = 0;
    while k < v.len()
        invariant
            k <= v@.len(),
            forall|i: int| 0 <= i < k ==> (#[trigger] v@[i]).y < MAX_HEIGTH,
        decreases v@.len() - k,
    {
        if v[k].y >= MAX_HEIGTH {
            return false;
        }
        k += 1;
    }
    true
}

/// All cells are strictly right of the left wall.
fn all_x_above(v: &Vec<Point>) -> (r: bool)
    ensures
        r == (forall|i: int| 0 <= i < v@.len() ==> (#[trigger] v@[i]).x > 0),
{
    let mut k: usize = 0;
    while k < v.len()
        invariant
            k <= v@.len(),
            forall|i: int| 0 <= i < k ==> (#[trigger] v@[i]).x > 0,
        decreases v@.len() - k,
    {
        if v[k].x <= 0 {
            return false;
        }
        k += 1;
    }
    true
}

/// All cells are strictly left of the right wall.
fn all_x_below(v: &Vec<Point>) -> (r: bool)
    ensures
        r == (forall|i: int| 0 <= i < v@.len() ==> (#[trigger] v@[i]).x < MAX_WIDTH),
{
    let mut k: usize = 0;
    while k < v.len()
        invariant
            k <= v@.len(),
            forall|i: int| 0 <= i < k ==> (#[trigger] v@[i]).x < MAX_WIDTH,
        decreases v@.len() - k,
    {
        if v[k].x >= MAX_WIDTH {
            return false;
        }
        k += 1;
    }
    true
}

/// Some cell lies beyond the wall or floor named by the bound check `f`.
fn any_x_neg(v: &Vec<Point>) -> (r: bool)
    ensures
        r == (exists|i: int| 0 <= i < v@.len() && (#[trigger] v@[i]).x < 0),
{
    let mut k: usize = 0;
    while k < v.len()
        invariant
            k <= v@.len(),
            forall|i: int| 0 <= i < k ==> !((#[trigger] v@[i]).x < 0),
        decreases v@.len() - k,
    {
        if v[k].x < 0 {
            return true;
        }
        k += 1;
    }
    false
}

/// Some cell lies beyond the right wall.
fn any_x_over(v: &Vec<Point>) -> (r: bool)
    ensures
        r == (exists|i: int| 0 <= i < v@.len() && (#[trigger] v@[i]).x > MAX_WIDTH),
{
    let mut k: usize = 0;
    while k < v.len()
        invariant
            k <= v@.len(),
            forall|i: int| 0 <= i < k ==> !((#[trigger] v@[i]).x > MAX_WIDTH),
        decreases v@.len() - k,
    {
        if v[k].x > MAX_WIDTH {
            return true;
        }
        k += 1;
    }
    false
}

/// Some cell lies below the floor.
fn any_y_over(v: &Vec<Point>) -> (r: bool)
    ensures
        r == (exists|i: int| 0 <= i < v@.len() && (#[trigger] v@[i]).y > MAX_HEIGTH),
{
    let mut k: usize = 0;
    while k < v.len()
        invariant
            k <= v@.len(),
            forall|i: int| 0 <= i < k ==> !((#[trigger] v@[i]).y > MAX_HEIGTH),
        decreases v@.len() - k,
    {
        if v[k].y > MAX_HEIGTH {
            return true;
        }
        k += 1;
    }
    false
}

/// Membership test on the pile, by coordinate equality.
fn contains_point(pile: &Vec<Point>, x: i32, y: i32) -> (r: bool)
    ensures
        r == pile_has(pile@, x as int, y as int),
{
    let mut k: usize = 0;
    while k < pile.len()
        invariant
            k <= pile@.len(),
            forall|i: int| 0 <= i < k ==> !((#[trigger] pile@[i]).x == x && pile@[i].y == y),
        decreases pile@.len() - k,
    {
        if pile[k].x == x && pile[k].y == y {
            return true;
        }
        k += 1;
    }
    false
}

/// Some cell of `v` coincides with a pile cell.
fn hits_pile_exec(v: &Vec<Point>, pile: &Vec<Point>) -> (r: bool)
    ensures
        r == seq_hits_pile(v@, pile@),
{
    let mut k: usize = 0;
    while k < v.len()
        invariant
            k <= v@.len(),
            forall|i: int|
                0 <= i < k ==> !pile_has(pile@, (#[trigger] v@[i]).x as int, v@[i].y as int),
        decreases v@.len() - k,
    {
        if contains_point(pile, v[k].x, v[k].y) {
            return true;
        }
        k += 1;
    }
    false
}

/// A four-cell list.
fn pt_vec(a: Point, b: Point, c: Point, d: Point) -> (r: Vec<Point>)
    ensures
        r@.len() == 4,
        r@[0] == a,
        r@[1] == b,
        r@[2] == c,
        r@[3] == d,
{
    let mut v: Vec<Point> = Vec::new();
    v.push(a);
    v.push(b);
    v.push(c);
    v.push(d);
    v
}

/// A four-layout table.
fn four_layouts(l0: Vec<Point>, l1: Vec<Point>, l2: Vec<Point>, l3: Vec<Point>) -> (r: Vec<
    Vec<Point>,
>)
    ensures
        r@.len() == 4,
        r@[0]@ == l0@,
        r@[1]@ == l1@,
        r@[2]@ == l2@,
        r@[3]@ == l3@,
{
    let mut v: Vec<Vec<Point>> = Vec::new();
    v.push(l0);
    v.push(l1);
    v.push(l2);
    v.push(l3);
    v
}

/// An element-for-element copy.
fn copy_points(v: &Vec<Point>) -> (r: Vec<Point>)
    ensures
        r@ == v@,
{
    let mut out: Vec<Point> = Vec::new();
    let mut k: usize = 0;
    while k < v.len()
        invariant
            k <= v@.len(),
            out@ == v@.take(k as int),
        decreases v@.len() - k,
    {
        out.push(v[k]);
        proof {
            assert(out@ =~= v@.take(k as int + 1));
        }
        k += 1;
    }
    proof {
        assert(out@ =~= v@);
    }
    out
}

impl Game {
    /// A fresh run: anchor at the spawn point, rotation counter at its
    /// initial value, kind J, empty pile, no score, intent Down. The
    /// cached cell lists start empty and are derived on the first tick.
    pub fn new() -> (g: Game)
        ensures
            g.position.x == WIDTH as i32 / 2 && g.position.y == 0,
            g.block_dir == 1,
            g.block_spec is J,
            g.block_arr_list@.len() == 0,
            g.block_arr@.len() == 0,
            g.direction is Down,
            g.score == 0,
            g.pile@.len() == 0,
    {
        Game {
            position: Point { x: WIDTH as i32 / 2, y: 0 },
            block_dir: 1,
            block_spec: Block::J,
            block_arr_list: Vec::new(),
            block_arr: Vec::new(),
            direction: Direction::Down,
            score: 0,
            pile: Vec::new(),
        }
    }

    /// Rebuild the four-layout table from the current anchor and kind.
    /// Must run again after every anchor or kind change; the table is
    /// derived state, never edited in place.
    pub fn matching_pos_to_block(&mut self)
        requires
            old(self).pos_within(2),
        ensures
            final(self).list_synced(),
            final(self).position == old(self).position,
            final(self).block_dir == old(self).block_dir,
            final(self).block_spec == old(self).block_spec,
            final(self).block_arr@ == old(self).block_arr@,
            final(self).direction == old(self).direction,
            final(self).score == old(self).score,
            final(self).pile@ == old(self).pile@,
    {
        let x = self.position.x;
        let y = self.position.y;

        let block = match self.block_spec {
            Block::L => four_layouts(
                pt_vec(
                    Point { x, y: y - 1 },
                    Point { x, y },
                    Point { x, y: y + 1 },
                    Point { x: x + 1, y: y + 1 },
                ),
                pt_vec(
                    Point { x: x - 1, y },
                    Point { x, y },
                    Point { x: x + 1, y },
                    Point { x: x + 1, y: y - 1 },
                ),
                pt_vec(
                    Point { x: x - 1, y: y - 1 },
                    Point { x, y: y - 1 },
                    Point { x, y },
                    Point { x, y: y + 1 },
                ),
                pt_vec(
                    Point { x: x - 1, y: y + 1 },
                    Point { x: x - 1, y },
                    Point { x, y },
                    Point { x: x + 1, y },
                ),
            ),
            Block::J => four_layouts(
                pt_vec(
                    Point { x, y: y - 1 },
                    Point { x, y },
                    Point { x, y: y + 1 },
                    Point { x: x - 1, y: y + 1 },
                ),
                pt_vec(
                    Point { x: x - 1, y },
                    Point { x, y },
                    Point { x: x + 1, y },
                    Point { x: x + 1, y: y + 1 },
                ),
                pt_vec(
                    Point { x: x + 1, y: y - 1 },
                    Point { x, y: y - 1 },
                    Point { x, y },
                    Point { x, y: y + 1 },
                ),
                pt_vec(
                    Point { x: x - 1, y: y - 1 },
                    Point { x: x - 1, y },
                    Point { x, y },
                    Point { x: x + 1, y },
                ),
            ),
            Block::I => four_layouts(
                pt_vec(
                    Point { x: x - 1, y },
                    Point { x, y },
                    Point { x: x + 1, y },
                    Point { x: x + 2, y },
                ),
                pt_vec(
                    Point { x, y: y + 2 },
                    Point { x, y: y + 1 },
                    Point { x, y },
                    Point { x, y: y - 1 },
                ),
                pt_vec(
                    Point { x: x - 1, y },
                    Point { x, y },
                    Point { x: x + 1, y },
                    Point { x: x + 2, y },
                ),
                pt_vec(
                    Point { x, y: y + 2 },
                    Point { x, y: y + 1 },
                    Point { x, y },
                    Point { x, y: y - 1 },
                ),
            ),
            Block::O => four_layouts(
                pt_vec(
                    Point { x, y },
                    Point { x: x + 1, y },
                    Point { x: x + 1, y: y + 1 },
                    Point { x, y: y + 1 },
                ),
                pt_vec(
                    Point { x, y },
                    Point { x: x + 1, y },
                    Point { x: x + 1, y: y + 1 },
                    Point { x, y: y + 1 },
                ),
                pt_vec(
                    Point { x, y },
                    Point { x: x + 1, y },
                    Point { x: x + 1, y: y + 1 },
                    Point { x, y: y + 1 },
                ),
                pt_vec(
                    Point { x, y },
                    Point { x: x + 1, y },
                    Point { x: x + 1, y: y + 1 },
                    Point { x, y: y + 1 },
                ),
            ),
            Block::S => four_layouts(
                pt_vec(
                    Point { x: x - 1, y },
                    Point { x, y },
                    Point { x, y: y - 1 },
                    Point { x: x + 1, y: y - 1 },
                ),
                pt_vec(
                    Point { x: x - 1, y: y - 1 },
                    Point { x: x - 1, y },
                    Point { x, y },
                    Point { x, y: y + 1 },
                ),
                pt_vec(
                    Point { x: x - 1, y },
                    Point { x, y },
                    Point { x, y: y - 1 },
                    Point { x: x + 1, y: y - 1 },
                ),
                pt_vec(
                    Point { x: x - 1, y: y - 1 },
                    Point { x: x - 1, y },
                    Point { x, y },
                    Point { x, y: y + 1 },
                ),
            ),
            Block::Z => four_layouts(
                pt_vec(
                    Point { x: x - 1, y: y - 1 },
                    Point { x, y: y - 1 },
                    Point { x, y },
                    Point { x: x + 1, y },
                ),
                pt_vec(
                    Point { x: x + 1, y: y - 1 },
                    Point { x: x + 1, y },
                    Point { x, y },
                    Point { x, y: y + 1 },
                ),
                pt_vec(
                    Point { x: x - 1, y: y - 1 },
                    Point { x, y: y - 1 },
                    Point { x, y },
                    Point { x: x + 1, y },
                ),
                pt_vec(
                    Point { x: x + 1, y: y - 1 },
                    Point { x: x + 1, y },
                    Point { x, y },
                    Point { x, y: y + 1 },
                ),
            ),
            Block::T => four_layouts(
                pt_vec(
                    Point { x, y: y - 1 },
                    Point { x, y },
                    Point { x: x - 1, y },
                    Point { x: x + 1, y },
                ),
                pt_vec(
                    Point { x: x - 1, y },
                    Point { x, y },
                    Point { x, y: y - 1 },
                    Point { x, y: y + 1 },
                ),
                pt_vec(
                    Point { x: x - 1, y },
                    Point { x, y },
                    Point { x: x + 1, y },
                    Point { x, y: y + 1 },
                ),
                pt_vec(
                    Point { x, y: y - 1 },
                    Point { x, y },
                    Point { x, y: y + 1 },
                    Point { x: x + 1, y },
                ),
            ),
        };

        self.block_arr_list = block;
    }

    /// Select the cached layout the rotation counter points at (counter
    /// value 1 picks the first layout, 2 the second, 3 the third, 0 the
    /// fourth) and make it the active cell list.
    pub fn block_spining(&mut self)
        requires
            0 <= old(self).block_dir,
            old(self).list_synced(),
        ensures
            final(self).synced(),
            final(self).position == old(self).position,
            final(self).block_dir == old(self).block_dir,
            final(self).block_spec == old(self).block_spec,
            final(self).block_arr_list@ == old(self).block_arr_list@,
            final(self).direction == old(self).direction,
            final(self).score == old(self).score,
            final(self).pile@ == old(self).pile@,
    {
        let idx: usize = match self.block_dir % 4 {
            1 => 0,
            2 => 1,
            3 => 2,
            _ => 3,
        };
        proof {
            assert(idx as int == layout_index(self.block_dir as int));
        }
        self.block_arr = copy_points(&self.block_arr_list[idx]);
    }

    /// The movement resolver: apply the pending intent to the anchor,
    /// unless some current cell already touches the wall being moved
    /// toward. The guard reads the current (pre-move) cells; pile
    /// collisions are the corrective passes' business.
    pub fn moving_pos(&mut self)
        requires
            old(self).pos_within(2),
        ensures
            final(self).position.x as int == old(self).move_target().0,
            final(self).position.y as int == old(self).move_target().1,
            final(self).same_but_position(*old(self)),
    {
        let current_pos = &self.position;
        let new_pos = match self.direction {
            Direction::Stop => Point { x: current_pos.x, y: current_pos.y },
            Direction::Down => {
                if all_y_below(&self.block_arr) {
                    Point { x: current_pos.x, y: current_pos.y + 1 }
                } else {
                    Point { x: current_pos.x, y: current_pos.y }
                }
            },
            Direction::Left => {
                if all_x_above(&self.block_arr) {
                    Point { x: current_pos.x - 1, y: current_pos.y }
                } else {
                    Point { x: current_pos.x, y: current_pos.y }
                }
            },
            Direction::Right => {
                if all_x_below(&self.block_arr) {
                    Point { x: current_pos.x + 1, y: current_pos.y }
                } else {
                    Point { x: current_pos.x, y: current_pos.y }
                }
            },
        };
        self.position = new_pos;
    }

    /// The move-into-pile correction: if some current cell already overlaps
    /// the pile, undo the last intent by one cell (a reactive single-step
    /// rollback, not a predictive check), then re-derive the cells.
    pub fn prevent_move_to_crashing(&mut self)
        requires
            old(self).pos_within(8),
            0 <= old(self).block_dir,
        ensures
            final(self).position.x as int == old(self).crash_target().0,
            final(self).position.y as int == old(self).crash_target().1,
            final(self).synced(),
            final(self).list_synced(),
            final(self).same_piece_config(*old(self)),
    {
        let current_pos = &self.position;
        let new_pos = match self.direction {
            Direction::Stop => Point { x: current_pos.x, y: current_pos.y },
            Direction::Down => {
                if hits_pile_exec(&self.block_arr, &self.pile) {
                    Point { x: current_pos.x, y: current_pos.y - 1 }
                } else {
                    Point { x: current_pos.x, y: current_pos.y }
                }
            },
            Direction::Left => {
                if hits_pile_exec(&self.block_arr, &self.pile) {
                    Point { x: current_pos.x + 1, y: current_pos.y }
                } else {
                    Point { x: current_pos.x, y: current_pos.y }
                }
            },
            Direction::Right => {
                if hits_pile_exec(&self.block_arr, &self.pile) {
                    Point { x: current_pos.x - 1, y: current_pos.y }
                } else {
                    Point { x: current_pos.x, y: current_pos.y }
                }
            },
        };
        self.position = new_pos;

        self.matching_pos_to_block();
        self.block_spining();
    }

    /// The spin-into-pile correction: while the derived cells overlap the
    /// pile, move the anchor up one row and re-derive, for at most `HEIGHT`
    /// rounds (the explicit bound on the search for the nearest free row;
    /// exhausting it means the caller fed a defective state).
    pub fn prevent_spin_to_crashing(&mut self)
        requires
            old(self).pos_within(32),
            0 <= old(self).block_dir,
            old(self).synced(),
        ensures
            final(self).position.x == old(self).position.x,
            old(self).position.y - HEIGHT as i32 <= final(self).position.y <= old(self).position.y,
            final(self).position.y as int == spin_step(
                old(self).block_spec,
                layout_index(old(self).block_dir as int),
                old(self).pile@,
                old(self).position.x as int,
                old(self).position.y as int,
                HEIGHT as nat,
            ),
            forall|yp: int|
                (final(self).position.y as int) < yp && yp <= old(self).position.y as int
                    ==> cells_hit_pile(
                    #[trigger] shape_at(
                        old(self).block_spec,
                        layout_index(old(self).block_dir as int),
                        old(self).position.x as int,
                        yp,
                    ),
                    old(self).pile@,
                ),
            !seq_hits_pile(final(self).block_arr@, final(self).pile@) || final(self).position.y
                == old(self).position.y - HEIGHT as i32,
            final(self).synced(),
            final(self).list_synced() || final(self).position == old(self).position,
            final(self).same_piece_config(*old(self)),
            !seq_hits_pile(old(self).block_arr@, old(self).pile@) ==> final(self).position == old(self).position && final(self).block_arr@ == old(self).block_arr@ && final(self).block_arr_list@ == old(self).block_arr_list@,
    {
        let ghost kind = old(self).block_spec;
        let ghost lidx = layout_index(old(self).block_dir as int);
        let ghost pile0 = old(self).pile@;
        let ghost x0 = old(self).position.x as int;
        let ghost y0 = old(self).position.y as int;
        let mut steps: u16 = 0;
        let mut done = false;
        while !done && steps < HEIGHT
            invariant
                old(self).pos_within(32),
                0 <= self.block_dir,
                self.synced(),
                steps <= HEIGHT,
                self.position.x == old(self).position.x,
                self.position.y as int == old(self).position.y as int - steps as int,
                done ==> !seq_hits_pile(self.block_arr@, self.pile@),
                steps > 0 ==> self.list_synced(),
                self.same_piece_config(*old(self)),
                steps == 0 ==> self.position == old(self).position && self.block_arr@ == old(self).block_arr@ && self.block_arr_list@ == old(self).block_arr_list@,
                steps == 0 || seq_hits_pile(old(self).block_arr@, old(self).pile@),
                kind == old(self).block_spec && lidx == layout_index(old(self).block_dir as int)
                    && pile0 == old(self).pile@ && x0 == old(self).position.x as int && y0 == old(
                    self,
                ).position.y as int,
                spin_step(kind, lidx, pile0, x0, y0, HEIGHT as nat) == spin_step(
                    kind,
                    lidx,
                    pile0,
                    x0,
                    self.position.y as int,
                    (HEIGHT - steps) as nat,
                ),
                forall|yp: int|
                    (self.position.y as int) < yp && yp <= y0 ==> cells_hit_pile(
                        #[trigger] shape_at(kind, lidx, x0, yp),
                        pile0,
                    ),
            decreases HEIGHT as int - steps as int + (if done {
                0int
            } else {
                1int
            }),
        {
            if hits_pile_exec(&self.block_arr, &self.pile) {
                proof {
                    lemma_hits_agree(
                        self.block_arr@,
                        shape_at(kind, lidx, x0, self.position.y as int),
                        pile0,
                    );
                }
                self.position.y = self.position.y - 1;
                self.matching_pos_to_block();
                self.block_spining();
                steps += 1;
            } else {
                proof {
                    lemma_hits_agree(
                        self.block_arr@,
                        shape_at(kind, lidx, x0, self.position.y as int),
                        pile0,
                    );
                }
                done = true;
            }
        }
    }

    /// The escape-prevention correction: apply at most one single-cell
    /// correction (left wall first, then right wall, then floor), then
    /// re-derive the cells.
    pub fn prevent_escaping(&mut self)
        requires
            old(self).pos_within(8),
            0 <= old(self).block_dir,
        ensures
            final(self).position.x as int == old(self).escape_target().0,
            final(self).position.y as int == old(self).escape_target().1,
            final(self).synced(),
            final(self).list_synced(),
            final(self).same_piece_config(*old(self)),
    {
        let current_pos = &self.position;

        if any_x_neg(&self.block_arr) {
            self.position = Point { x: current_pos.x + 1, y: current_pos.y };
        } else if any_x_over(&self.block_arr) {
            self.position = Point { x: current_pos.x - 1, y: current_pos.y };
        } else if any_y_over(&self.block_arr) {
            self.position = Point { x: current_pos.x, y: current_pos.y - 1 };
        }

        self.matching_pos_to_block();
        self.block_spining();
    }

    /// Locking and respawn: if the piece has landed (floor contact, or some
    /// cell rests directly on a pile cell), merge its cells into the pile
    /// (front-inserted, in cell-list order), reset anchor, rotation counter
    /// and intent, and report 1; otherwise change nothing and report 0.
    pub fn fix(&mut self) -> (r: i32)
        requires
            forall|i: int|
                0 <= i < old(self).block_arr@.len() ==> (#[trigger] old(self).block_arr@[i]).y
                    < i32::MAX,
        ensures
            r == 1 || r == 0,
            (r == 1) == landed_pts(old(self).block_arr@, old(self).pile@),
            r == 0 ==> *final(self) == *old(self),
            r == 1 ==> Game::locked_rel(*old(self), *final(self)),
    {
        if any_at_floor(&self.block_arr) || rests_on_pile(&self.block_arr, &self.pile) {
            let mut k: usize = 0;
            while k < self.block_arr.len()
                invariant
                    k <= self.block_arr@.len(),
                    self.block_arr@ == old(self).block_arr@,
                    self.block_arr_list@ == old(self).block_arr_list@,
                    self.position == old(self).position,
                    self.block_dir == old(self).block_dir,
                    self.block_spec == old(self).block_spec,
                    self.direction == old(self).direction,
                    self.score == old(self).score,
                    self.pile@.len() == old(self).pile@.len() + k,
                    forall|j: int|
                        0 <= j < k ==> self.pile@[j] == self.block_arr@[k - 1 - j],
                    forall|j: int|
                        k <= j < self.pile@.len() ==> self.pile@[j] == old(self).pile@[j - k],
                decreases self.block_arr@.len() - k,
            {
                let p = self.block_arr[k];
                proof {
                    self.pile@.insert_ensures(0, p);
                }
                self.pile.insert(0, p);
                k += 1;
            }
            self.position = Point { x: WIDTH as i32 / 2, y: 0 };
            self.block_dir = 1;
            self.direction = Direction::Down;
            1
        } else {
            0
        }
    }

    /// Row `y` is complete: the pile holds a cell at every column of it.
    pub fn is_line_complete(&self, y: i32) -> (r: bool)
        ensures
            r == row_complete(self.pile@, y as int),
    {
        let mut x: i32 = 0;
        while x < WIDTH as i32
            invariant
                0 <= x <= WIDTH as i32,
                forall|c: int| 0 <= c < x ==> #[trigger] pile_has(self.pile@, c, y as int),
            decreases WIDTH as int - x,
        {
            if !contains_point(&self.pile, x, y) {
                return false;
            }
            x += 1;
        }
        true
    }

    /// Clear row `y`: its cells leave the pile and every cell above it
    /// moves down one row; the surviving cells keep their relative order.
    pub fn remove_complete_line(&mut self, y: i32)
        ensures
            final(self).pile@ == row_removed(old(self).pile@, y as int),
            final(self).position == old(self).position,
            final(self).block_dir == old(self).block_dir,
            final(self).block_spec == old(self).block_spec,
            final(self).block_arr@ == old(self).block_arr@,
            final(self).block_arr_list@ == old(self).block_arr_list@,
            final(self).direction == old(self).direction,
            final(self).score == old(self).score,
    {
        let mut out: Vec<Point> = Vec::new();
        let mut k: usize = 0;
        while k < self.pile.len()
            invariant
                k <= self.pile@.len(),
                out@ == row_removed(self.pile@.take(k as int), y as int),
            decreases self.pile@.len() - k,
        {
            let p = self.pile[k];
            proof {
                assert(self.pile@.take(k as int + 1).drop_last() =~= self.pile@.take(k as int));
                assert(self.pile@.take(k as int + 1).last() == p);
            }
            if p.y != y {
                if p.y < y {
                    out.push(Point { x: p.x, y: p.y + 1 });
                } else {
                    out.push(p);
                }
            }
            k += 1;
        }
        proof {
            assert(self.pile@.take(self.pile@.len() as int) =~= self.pile@);
        }
        self.pile = out;
    }

    /// The line clearer and scorer: sweep the rows from the floor upward,
    /// clearing each complete row (re-examining the same row index after
    /// the shift) and awarding the flat 1000 points per cleared row.
    pub fn scoring(&mut self)
        requires
            old(self).score + 1000 * sweep(old(self).pile@, MAX_HEIGTH as int).1 <= u16::MAX,
        ensures
            final(self).pile@ == sweep(old(self).pile@, MAX_HEIGTH as int).0,
            final(self).score as int == old(self).score as int + 1000 * sweep(
                old(self).pile@,
                MAX_HEIGTH as int,
            ).1,
            final(self).position == old(self).position,
            final(self).block_dir == old(self).block_dir,
            final(self).block_spec == old(self).block_spec,
            final(self).block_arr@ == old(self).block_arr@,
            final(self).block_arr_list@ == old(self).block_arr_list@,
            final(self).direction == old(self).direction,
    {
        let ghost target = sweep(old(self).pile@, MAX_HEIGTH as int);
        let ghost mut counted: int = 0;
        let mut y: i32 = HEIGHT as i32 - 1;
        while y >= 0
            invariant
                -1 <= y <= MAX_HEIGTH,
                sweep(self.pile@, y as int).0 == target.0,
                counted + sweep(self.pile@, y as int).1 == target.1,
                counted >= 0,
                self.score as int == old(self).score as int + 1000 * counted,
                old(self).score + 1000 * target.1 <= u16::MAX,
                self.position == old(self).position,
                self.block_dir == old(self).block_dir,
                self.block_spec == old(self).block_spec,
                self.block_arr@ == old(self).block_arr@,
                self.block_arr_list@ == old(self).block_arr_list@,
                self.direction == old(self).direction,
            decreases self.pile@.len(), y + 1,
        {
            if self.is_line_complete(y) {
                proof {
                    assert(pile_has(self.pile@, 0, y as int));
                    let w = choose|i: int|
                        0 <= i < self.pile@.len() && self.pile@[i].x as int == 0
                            && self.pile@[i].y as int == y as int;
                    assert(self.pile@[w].y as int == y as int);
                    lemma_row_removed_len(self.pile@, y as int);
                    lemma_sweep_count_nonneg(row_removed(self.pile@, y as int), y as int);
                    counted = counted + 1;
                }
                self.remove_complete_line(y);
                self.score = self.score + 1000;
            } else {
                y -= 1;
            }
        }
    }

    /// Some pile cell has reached the sentinel row above the playfield:
    /// the run is over.
    pub fn is_game_over(&self) -> (r: bool)
        ensures
            r == overflow_reached(self.pile@),
    {
        let mut x: i32 = 0;
        while x < WIDTH as i32
            invariant
                0 <= x <= WIDTH as i32,
                forall|c: int| 0 <= c < x ==> !#[trigger] pile_has(self.pile@, c, -1),
            decreases WIDTH as int - x,
        {
            if contains_point(&self.pile, x, -1) {
                return true;
            }
            x += 1;
        }
        false
    }
}

/// Some cell touches the floor row.
fn any_at_floor(v: &Vec<Point>) -> (r: bool)
    ensures
        r == (exists|i: int| 0 <= i < v@.len() && (#[trigger] v@[i]).y == MAX_HEIGTH),
{
    let mut k: usize = 0;
    while k < v.len()
        invariant
            k <= v@.len(),
            forall|i: int| 0 <= i < k ==> (#[trigger] v@[i]).y != MAX_HEIGTH,
        decreases v@.len() - k,
    {
        if v[k].y == MAX_HEIGTH {
            return true;
        }
        k += 1;
    }
    false
}

impl Game {
    /// One full tick: resolve the pending intent, re-derive the cells,
    /// run the three corrective passes in their fixed order, then clear
    /// and score complete rows.
    #[verifier::rlimit(100)]
    pub fn advance_tick(&mut self)
        requires
            old(self).pos_within(64),
            0 <= old(self).block_dir,
            old(self).score + 1000 * sweep(old(self).pile@, MAX_HEIGTH as int).1 <= u16::MAX,
        ensures
            Game::tick_rel(*old(self), *final(self)),
    {
        self.moving_pos();
        let ghost g1 = *self;
        self.matching_pos_to_block();
        self.block_spining();
        let ghost g3 = *self;
        self.prevent_move_to_crashing();
        let ghost g4 = *self;
        self.prevent_spin_to_crashing();
        let ghost g5 = *self;
        self.prevent_escaping();
        let ghost g6 = *self;

        proof {
            lemma_tick_pipeline(*old(self), g1, g3, g4, g5, g6);
        }

        if self.is_game_over() {
            // Terminal state: the run is over and the scorer never runs,
            // matching the detector-before-scorer order of the tick.
            return;
        }
        self.scoring();
    }

    /// One tick, reported to the caller; the cycle always completes.
    pub fn run(&mut self) -> (r: Result<(), ()>)
        requires
            old(self).pos_within(64),
            0 <= old(self).block_dir,
            old(self).score + 1000 * sweep(old(self).pile@, MAX_HEIGTH as int).1 <= u16::MAX,
        ensures
            r is Ok,
            Game::tick_rel(*old(self), *final(self)),
    {
        self.advance_tick();
        Ok(())
    }

    /// Record the movement intent to apply on the next tick.
    pub fn set_intent(&mut self, intent: Direction)
        ensures
            final(self).direction == intent,
            final(self).position == old(self).position,
            final(self).block_dir == old(self).block_dir,
            final(self).block_spec == old(self).block_spec,
            final(self).block_arr@ == old(self).block_arr@,
            final(self).block_arr_list@ == old(self).block_arr_list@,
            final(self).score == old(self).score,
            final(self).pile@ == old(self).pile@,
    {
        self.direction = intent;
    }

    /// Advance the rotation counter by one; the counter is kept reduced
    /// modulo 4, which the shape table lookup is invariant under. The
    /// derived cells change only on the next lookup.
    pub fn request_rotation(&mut self)
        requires
            0 <= old(self).block_dir < i32::MAX,
        ensures
            final(self).block_dir == (old(self).block_dir + 1) % 4,
            final(self).position == old(self).position,
            final(self).block_spec == old(self).block_spec,
            final(self).block_arr@ == old(self).block_arr@,
            final(self).block_arr_list@ == old(self).block_arr_list@,
            final(self).direction == old(self).direction,
            final(self).score == old(self).score,
            final(self).pile@ == old(self).pile@,
    {
        self.block_dir = (self.block_dir + 1) % 4;
    }

    /// Attempt a lock: reports whether one occurred, so the caller knows
    /// to pick a new kind and hand it back through `set_kind`.
    pub fn request_lock(&mut self) -> (r: bool)
        requires
            forall|i: int|
                0 <= i < old(self).block_arr@.len() ==> (#[trigger] old(self).block_arr@[i]).y
                    < i32::MAX,
        ensures
            r == landed_pts(old(self).block_arr@, old(self).pile@),
            !r ==> *final(self) == *old(self),
            r ==> Game::locked_rel(*old(self), *final(self)),
    {
        self.fix() == 1
    }

    /// Make `kind` the active piece kind; the derived cells change only
    /// on the next shape table lookup.
    pub fn set_kind(&mut self, kind: Block)
        ensures
            final(self).block_spec == kind,
            final(self).position == old(self).position,
            final(self).block_dir == old(self).block_dir,
            final(self).block_arr@ == old(self).block_arr@,
            final(self).block_arr_list@ == old(self).block_arr_list@,
            final(self).direction == old(self).direction,
            final(self).score == old(self).score,
            final(self).pile@ == old(self).pile@,
    {
        self.block_spec = kind;
    }

    /// Pick a piece kind at random and make it active, as the respawn
    /// after a lock does; any of the seven kinds can come out.
    pub fn generating_random_block(&mut self)
        ensures
            exists|i: int| 0 <= i < 7 && final(self).block_spec == kind_of_index(i),
            final(self).position == old(self).position,
            final(self).block_dir == old(self).block_dir,
            final(self).block_arr@ == old(self).block_arr@,
            final(self).block_arr_list@ == old(self).block_arr_list@,
            final(self).direction == old(self).direction,
            final(self).score == old(self).score,
            final(self).pile@ == old(self).pile@,
    {
        let i = crate::rng::random_below(7);
        self.block_spec = select_kind(i);
    }

    /// A read-only view for the rendering collaborator: the pile cells,
    /// the active piece cells, and the score.
    pub fn snapshot(&self) -> (r: (Vec<Point>, Vec<Point>, u16))
        ensures
            r.0@ == self.pile@,
            r.1@ == self.block_arr@,
            r.2 == self.score,
    {
        (copy_points(&self.pile), copy_points(&self.block_arr), self.score)
    }
}

/// The pipeline argument for one tick, over the states each pass leaves
/// behind: the final anchor is the composed pass target; from any start
/// the bounds argument covers, outside the one excluded overhang family,
/// the final cells lie inside the playfield; and a Left intent never
/// pushes the cells past the left wall.
#[verifier::rlimit(100)]
proof fn lemma_tick_pipeline(g0: Game, g1: Game, g3: Game, g4: Game, g5: Game, g6: Game)
    requires
        0 <= g0.block_dir,
        g1.position.x as int == g0.move_target().0,
        g1.position.y as int == g0.move_target().1,
        g1.same_but_position(g0),
        g3.position == g1.position,
        g3.synced(),
        g3.same_piece_config(g0),
        g4.position.x as int == g3.crash_target().0,
        g4.position.y as int == g3.crash_target().1,
        g4.same_piece_config(g0),
        g5.position.x == g4.position.x,
        g4.position.y - HEIGHT as i32 <= g5.position.y <= g4.position.y,
        g5.position.y as int == spin_step(
            g4.block_spec,
            layout_index(g4.block_dir as int),
            g4.pile@,
            g4.position.x as int,
            g4.position.y as int,
            HEIGHT as nat,
        ),
        g5.synced(),
        g5.same_piece_config(g0),
        g6.position.x as int == g5.escape_target().0,
        g6.position.y as int == g5.escape_target().1,
        g6.synced(),
        g6.same_piece_config(g0),
    ensures
        g6.position.x as int == Game::tick_target(g0).0,
        g6.position.y as int == Game::tick_target(g0).1,
        (Game::tick_bounds_ready(g0) && !Game::i_flip_overhang(g0)) ==> cells_in_bounds(
            g6.block_arr@,
        ),
        (g0.arr_is_layout(layout_index(g0.block_dir as int)) && g0.direction is Left && (forall|
            i: int,
        | 0 <= i < g0.block_arr@.len() ==> (#[trigger] g0.block_arr@[i]).x >= 0)) ==> (forall|
            i: int,
        | 0 <= i < g6.block_arr@.len() ==> (#[trigger] g6.block_arr@[i]).x >= 0),
{
        let kind = g0.block_spec;
        let r2 = layout_index(g0.block_dir as int);
        let x0 = g0.position.x as int;
        let y0 = g0.position.y as int;
        let x1 = g1.position.x as int;
        let y1 = g1.position.y as int;
        let x4 = g4.position.x as int;
        let y4 = g4.position.y as int;
        let x5 = g5.position.x as int;
        let y5 = g5.position.y as int;
        let x6 = g6.position.x as int;
        let y6 = g6.position.y as int;
        assert(0 <= r2 < 4);

        // Read the escape-prevention step at the bounding-box level:
        // each of its three cell tests is equivalent to an extent test.
        let s5 = shape_at(kind, r2, x5, y5);
        lemma_shape_extent(kind, r2, x5, y5);
        assert(cells_match(g5.block_arr@, s5));
        assert((exists|i: int|
            0 <= i < g5.block_arr@.len() && (#[trigger] g5.block_arr@[i]).x < 0) <==> x5
            + rel_x_min(kind, r2) < 0) by {
            if x5 + rel_x_min(kind, r2) < 0 {
                let i = choose|i: int|
                    0 <= i < 4 && (#[trigger] s5[i]).0 == x5 + rel_x_min(kind, r2);
                assert(g5.block_arr@[i].x as int == s5[i].0);
            }
        }
        assert((exists|i: int|
            0 <= i < g5.block_arr@.len() && (#[trigger] g5.block_arr@[i]).x > MAX_WIDTH) <==> x5
            + rel_x_max(kind, r2) > MAX_WIDTH as int) by {
            if x5 + rel_x_max(kind, r2) > MAX_WIDTH as int {
                let i = choose|i: int|
                    0 <= i < 4 && (#[trigger] s5[i]).0 == x5 + rel_x_max(kind, r2);
                assert(g5.block_arr@[i].x as int == s5[i].0);
            }
        }
        assert((exists|i: int|
            0 <= i < g5.block_arr@.len() && (#[trigger] g5.block_arr@[i]).y > MAX_HEIGTH)
            <==> y5 + rel_y_max(kind, r2) > MAX_HEIGTH as int) by {
            if y5 + rel_y_max(kind, r2) > MAX_HEIGTH as int {
                let i = choose|i: int|
                    0 <= i < 4 && (#[trigger] s5[i]).1 == y5 + rel_y_max(kind, r2);
                assert(g5.block_arr@[i].y as int == s5[i].1);
            }
        }
        assert(x6 == escape_box(kind, r2, x5, y5).0 && y6 == escape_box(kind, r2, x5, y5).1);

        let s6 = shape_at(kind, r2, x6, y6);
        lemma_shape_extent(kind, r2, x6, y6);
        assert(cells_match(g6.block_arr@, s6));

        // The anchor ends exactly at the composed pass target: chain
        // the passes' own targets through the re-derived cells.
        assert(g3.position == g1.position && cells_match(
            g3.block_arr@,
            shape_at(kind, r2, x1, y1),
        ));
        lemma_hits_agree(g3.block_arr@, shape_at(kind, r2, x1, y1), g0.pile@);
        assert(x4 == crash_step(kind, r2, g0.direction, g0.pile@, x1, y1).0 && y4
            == crash_step(kind, r2, g0.direction, g0.pile@, x1, y1).1);
        assert(y5 == spin_step(kind, r2, g0.pile@, x4, y4, HEIGHT as nat));
        assert(x6 == Game::tick_target(g0).0 && y6 == Game::tick_target(g0).1);

        // Bounds are kept from any layout the tick started from,
        // outside the one excluded overhang family.
        if g0.start_ok() && cells_in_bounds(g0.block_arr@) && !Game::i_flip_overhang(g0) {
            let r1 = choose|r: int| 0 <= r < 4 && #[trigger] g0.arr_is_layout(r);
            let s0 = shape_at(kind, r1, x0, y0);
            lemma_shape_extent(kind, r1, x0, y0);
            assert(x0 + rel_x_min(kind, r1) >= 0) by {
                let i = choose|i: int|
                    0 <= i < 4 && (#[trigger] s0[i]).0 == x0 + rel_x_min(kind, r1);
                assert(g0.block_arr@[i].x as int == s0[i].0);
            }
            assert(x0 + rel_x_max(kind, r1) <= MAX_WIDTH as int) by {
                let i = choose|i: int|
                    0 <= i < 4 && (#[trigger] s0[i]).0 == x0 + rel_x_max(kind, r1);
                assert(g0.block_arr@[i].x as int == s0[i].0);
            }
            assert(y0 + rel_y_max(kind, r1) <= MAX_HEIGTH as int) by {
                let i = choose|i: int|
                    0 <= i < 4 && (#[trigger] s0[i]).1 == y0 + rel_y_max(kind, r1);
                assert(g0.block_arr@[i].y as int == s0[i].1);
            }
            match g0.direction {
                Direction::Stop => {},
                Direction::Down => {
                    if y1 == y0 + 1 {
                        let i = choose|i: int|
                            0 <= i < 4 && (#[trigger] s0[i]).1 == y0 + rel_y_max(kind, r1);
                        assert(g0.block_arr@[i].y as int == s0[i].1);
                        assert(y0 + rel_y_max(kind, r1) <= MAX_HEIGTH as int - 1);
                    } else {
                        assert(exists|i: int|
                            0 <= i < g0.block_arr@.len() && !((#[trigger] g0.block_arr@[i]).y
                                < MAX_HEIGTH));
                        let i = choose|i: int|
                            0 <= i < g0.block_arr@.len() && !((#[trigger] g0.block_arr@[i]).y
                                < MAX_HEIGTH);
                        assert(g0.block_arr@[i].y as int == s0[i].1);
                        assert(y0 + rel_y_max(kind, r1) >= MAX_HEIGTH as int);
                    }
                },
                Direction::Left => {
                    if x1 == x0 - 1 {
                        let i = choose|i: int|
                            0 <= i < 4 && (#[trigger] s0[i]).0 == x0 + rel_x_min(kind, r1);
                        assert(g0.block_arr@[i].x as int == s0[i].0);
                        assert(x0 + rel_x_min(kind, r1) >= 1);
                    } else {
                        assert(exists|i: int|
                            0 <= i < g0.block_arr@.len() && !((#[trigger] g0.block_arr@[i]).x
                                > 0));
                        let i = choose|i: int|
                            0 <= i < g0.block_arr@.len() && !((#[trigger] g0.block_arr@[i]).x
                                > 0);
                        assert(g0.block_arr@[i].x as int == s0[i].0);
                        assert(x0 + rel_x_min(kind, r1) <= 0);
                    }
                },
                Direction::Right => {
                    if x1 == x0 + 1 {
                        let i = choose|i: int|
                            0 <= i < 4 && (#[trigger] s0[i]).0 == x0 + rel_x_max(kind, r1);
                        assert(g0.block_arr@[i].x as int == s0[i].0);
                        assert(x0 + rel_x_max(kind, r1) <= MAX_WIDTH as int - 1);
                    } else {
                        assert(exists|i: int|
                            0 <= i < g0.block_arr@.len() && !((#[trigger] g0.block_arr@[i]).x
                                < MAX_WIDTH));
                        let i = choose|i: int|
                            0 <= i < g0.block_arr@.len() && !((#[trigger] g0.block_arr@[i]).x
                                < MAX_WIDTH);
                        assert(g0.block_arr@[i].x as int == s0[i].0);
                        assert(x0 + rel_x_max(kind, r1) >= MAX_WIDTH as int);
                    }
                },
            }
            assert(!(kind is I && (r2 == 0 || r2 == 2) && x5 == MAX_WIDTH as int));
            assert(!(kind is I && (r2 == 1 || r2 == 3) && y5 == MAX_HEIGTH as int));
            lemma_tick_box_bounds(
                kind,
                r1,
                r2,
                g0.direction,
                x0,
                y0,
                x1,
                y1,
                x4,
                y4,
                x5,
                y5,
            );
            assert(cells_in_bounds(g6.block_arr@)) by {
                assert(forall|i: int|
                    0 <= i < 4 ==> (#[trigger] g6.block_arr@[i]).x as int == s6[i].0
                        && g6.block_arr@[i].y as int == s6[i].1);
            }
        }

        // From the central spawn window the bounds need no layout tie:
        // every combination of one movement step, one rollback step and
        // the spin correction stays within reach of the single
        // escape-prevention correction.
        if 2 <= x0 && x0 <= MAX_WIDTH as int - 2 && y0 <= MAX_HEIGTH as int - 2 {
            assert(x0 - 1 <= x4 <= x0 + 1);
            assert(y4 <= y0 + 1);
            lemma_tick_box_bounds_central(kind, r2, x0, y0, x4, y4, x5, y5);
            assert(cells_in_bounds(g6.block_arr@)) by {
                assert(forall|i: int|
                    0 <= i < 4 ==> (#[trigger] g6.block_arr@[i]).x as int == s6[i].0
                        && g6.block_arr@[i].y as int == s6[i].1);
            }
        }

        // A Left intent never pushes the cells past the left wall.
        if g0.arr_is_layout(r2) && g0.direction is Left && (forall|i: int|
            0 <= i < g0.block_arr@.len() ==> (#[trigger] g0.block_arr@[i]).x >= 0) {
            let s0 = shape_at(kind, r2, x0, y0);
            lemma_shape_extent(kind, r2, x0, y0);
            assert(x0 + rel_x_min(kind, r2) >= 0) by {
                let i = choose|i: int|
                    0 <= i < 4 && (#[trigger] s0[i]).0 == x0 + rel_x_min(kind, r2);
                assert(g0.block_arr@[i].x as int == s0[i].0);
            }
            if x1 == x0 - 1 {
                let i = choose|i: int|
                    0 <= i < 4 && (#[trigger] s0[i]).0 == x0 + rel_x_min(kind, r2);
                assert(g0.block_arr@[i].x as int == s0[i].0);
                assert(x0 + rel_x_min(kind, r2) >= 1);
            }
            lemma_tick_left_wall(kind, r2, x0, x1, x4, x5, y5);
            assert(forall|i: int|
                0 <= i < g6.block_arr@.len() ==> (#[trigger] g6.block_arr@[i]).x >= 0) by {
                assert(forall|i: int|
                    0 <= i < 4 ==> (#[trigger] g6.block_arr@[i]).x as int == s6[i].0);
            }
        }

}

/// The kind a drawn index of the uniform choice selects.
fn select_kind(i: usize) -> (r: Block)
    ensures
        r == kind_of_index(i as int),
{
    match i {
        0 => Block::L,
        1 => Block::J,
        2 => Block::I,
        3 => Block::O,
        4 => Block::S,
        5 => Block::Z,
        _ => Block::T,
    }
}

/// Some cell, shifted down one row, coincides with a pile cell.
fn rests_on_pile(v: &Vec<Point>, pile: &Vec<Point>) -> (r: bool)
    requires
        forall|i: int| 0 <= i < v@.len() ==> (#[trigger] v@[i]).y < i32::MAX,
    ensures
        r == (exists|i: int|
            0 <= i < v@.len() && pile_has(pile@, (#[trigger] v@[i]).x as int, v@[i].y as int + 1)),
{
    let mut k: usize = 0;
    while k < v.len()
        invariant
            k <= v@.len(),
            forall|i: int| 0 <= i < v@.len() ==> (#[trigger] v@[i]).y < i32::MAX,
            forall|i: int|
                0 <= i < k ==> !pile_has(pile@, (#[trigger] v@[i]).x as int, v@[i].y as int + 1),
        decreases v@.len() - k,
    {
        if contains_point(pile, v[k].x, v[k].y + 1) {
            return true;
        }
        k += 1;
    }
    false
}

} // verus!
