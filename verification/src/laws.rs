//! Laws that relate several operations of the engine, stated over the same
//! spec functions the operations' contracts use.
use vstd::prelude::*;

use crate::game::Game;
use crate::model::{
    cells_in_bounds, layout_index, overflow_reached, pile_has, pile_unique, pts_distinct,
    row_complete, seq_hits_pile, shape_at, Block, MAX_HEIGTH,
};
use crate::rows::{lemma_single_row_clear, lemma_sweep_unique, row_removed};

verus! {

/// For every kind, the four cells of any layout are pairwise distinct
/// coordinates: each piece is a true four-cell tetromino.
pub proof fn lemma_shape_cells_distinct(kind: Block, idx: int, px: int, py: int)
    requires
        0 <= idx < 4,
    ensures
        forall|i: int, j: int|
            0 <= i < j < 4 ==> #[trigger] shape_at(kind, idx, px, py)[i] != #[trigger] shape_at(
                kind,
                idx,
                px,
                py,
            )[j],
{
}

/// A synced cell list always holds four entries, pairwise distinct
/// coordinates whatever the kind: what a lock event front-inserts into
/// the pile is exactly four distinct cells.
pub proof fn lemma_synced_cells_distinct(g: Game)
    requires
        g.synced(),
        0 <= g.block_dir,
    ensures
        g.block_arr@.len() == 4,
        pts_distinct(g.block_arr@),
{
    let r = layout_index(g.block_dir as int);
    let px = g.position.x as int;
    let py = g.position.y as int;
    let s = shape_at(g.block_spec, r, px, py);
    crate::model::lemma_shape_extent(g.block_spec, r, px, py);
    lemma_shape_cells_distinct(g.block_spec, r, px, py);
    assert forall|i: int, j: int| 0 <= i < j < g.block_arr@.len() implies !(g.block_arr@[i].x
        == g.block_arr@[j].x && g.block_arr@[i].y == g.block_arr@[j].y) by {
        assert(g.block_arr@[i].x as int == s[i].0 && g.block_arr@[i].y as int == s[i].1);
        assert(g.block_arr@[j].x as int == s[j].0 && g.block_arr@[j].y as int == s[j].1);
    }
}

/// Locking preserves pile uniqueness: when the four active cells are
/// pairwise distinct and none of them already coincides with a pile cell,
/// the pile after the lock holds no two cells with the same coordinate.
pub proof fn lemma_lock_preserves_uniqueness(pre: Game, post: Game)
    requires
        Game::locked_rel(pre, post),
        pile_unique(pre.pile@),
        pts_distinct(pre.block_arr@),
        !seq_hits_pile(pre.block_arr@, pre.pile@),
    ensures
        pile_unique(post.pile@),
{
    let n = pre.block_arr@.len() as int;
    assert forall|i: int, j: int| 0 <= i < j < post.pile@.len() implies !(post.pile@[i].x
        == post.pile@[j].x && post.pile@[i].y == post.pile@[j].y) by {
        if i < n && j >= n {
            if post.pile@[i].x == post.pile@[j].x && post.pile@[i].y == post.pile@[j].y {
                let c = pre.block_arr@[n - 1 - i];
                assert(pre.pile@[j - n] == post.pile@[j]);
                assert(pile_has(pre.pile@, c.x as int, c.y as int));
                assert(seq_hits_pile(pre.block_arr@, pre.pile@));
            }
        }
    }
}

/// A tick preserves pile uniqueness: row clears only remove cells and
/// shift distinct rows onto distinct rows.
pub proof fn lemma_tick_preserves_uniqueness(pre: Game, post: Game)
    requires
        Game::tick_rel(pre, post),
        pile_unique(pre.pile@),
    ensures
        pile_unique(post.pile@),
{
    lemma_sweep_unique(pre.pile@, MAX_HEIGTH as int);
}

/// When exactly the bottom row is complete (the sentinel row included
/// among the incomplete ones) and the run is not already terminal, one
/// tick clears that row alone: the pile becomes the bottom row's removal
/// with every cell above shifted down one, and the score grows by exactly
/// 1000. (In a terminal state the detector stops the tick before the
/// scorer, so nothing clears.)
pub proof fn lemma_single_row_clear_tick(pre: Game, post: Game)
    requires
        Game::tick_rel(pre, post),
        !overflow_reached(pre.pile@),
        row_complete(pre.pile@, MAX_HEIGTH as int),
        forall|r: int| -1 <= r < MAX_HEIGTH as int ==> !row_complete(pre.pile@, r),
    ensures
        post.pile@ == row_removed(pre.pile@, MAX_HEIGTH as int),
        post.score as int == pre.score as int + 1000,
{
    lemma_single_row_clear(pre.pile@);
}

/// A tick taken in a terminal state leaves pile and score untouched (the
/// detector runs ahead of the scorer), so the game-over report stays
/// true after every further tick.
pub proof fn lemma_game_over_persists(pre: Game, post: Game)
    requires
        Game::tick_rel(pre, post),
        overflow_reached(pre.pile@),
    ensures
        overflow_reached(post.pile@),
        post.score == pre.score,
{
}

/// The bounds invariant sustains itself: a tick taken from any state it
/// covers, outside the one excluded overhang family (kind I's long axis
/// flipped flush against the right wall or the floor, which the single
/// per-tick correction recovers only on the following tick), ends with
/// every active cell inside the playfield, in a state it covers again.
/// A fresh game and every respawn start inside the central spawn window,
/// so each tick of a driven run is covered.
pub proof fn lemma_tick_bounds_invariant(pre: Game, post: Game)
    requires
        Game::tick_rel(pre, post),
        Game::tick_bounds_ready(pre),
        !Game::i_flip_overhang(pre),
    ensures
        cells_in_bounds(post.block_arr@),
        Game::tick_bounds_ready(post),
{
    assert(post.arr_is_layout(layout_index(post.block_dir as int)));
    assert(post.start_ok());
}

/// Kind O's geometry repeats in every rotation state: the shape table
/// yields the same four cells whatever the layout index.
pub proof fn lemma_o_rotation_invariant(r1: int, r2: int, px: int, py: int)
    ensures
        shape_at(Block::O, r1, px, py) == shape_at(Block::O, r2, px, py),
{
    assert(shape_at(Block::O, r1, px, py) =~= shape_at(Block::O, r2, px, py));
}

/// For kind O the derived cells do not depend on the rotation counter:
/// two states that agree on anchor and kind O derive the same cells, so
/// rotation requests (which touch only the counter) have no visible
/// effect.
pub proof fn lemma_o_rotation_no_effect(g1: Game, g2: Game)
    requires
        g1.block_spec is O,
        g2.block_spec is O,
        g1.position == g2.position,
    ensures
        g1.derived() == g2.derived(),
{
    lemma_o_rotation_invariant(
        layout_index(g1.block_dir as int),
        layout_index(g2.block_dir as int),
        g1.position.x as int,
        g1.position.y as int,
    );
}

} // verus!
