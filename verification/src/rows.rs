//! Model of the line clearer: removing one row of the pile while shifting
//! every cell above it down, and the top-to-bottom sweep the scorer runs
//! until no complete row is left.
use vstd::prelude::*;

use crate::model::{pile_has, pile_unique, row_complete, Point, MAX_HEIGTH, WIDTH};

verus! {

/// The pile after row `y` is cleared: cells of row `y` are dropped, cells
/// above it (`y' < y`) move down one row, cells below it stay, and the
/// relative order of the surviving cells is kept.
pub open spec fn row_removed(pile: Seq<Point>, y: int) -> Seq<Point>
    decreases pile.len(),
{
    if pile.len() == 0 {
        Seq::empty()
    } else {
        let p = pile.last();
        let rest = row_removed(pile.drop_last(), y);
        if p.y as int == y {
            rest
        } else if (p.y as int) < y {
            rest.push(Point { x: p.x, y: (p.y + 1) as i32 })
        } else {
            rest.push(p)
        }
    }
}

/// Membership after a push, coordinate-wise.
proof fn lemma_has_push(s: Seq<Point>, q: Point, cx: int, cy: int)
    ensures
        pile_has(s.push(q), cx, cy) <==> (pile_has(s, cx, cy) || (q.x as int == cx
            && q.y as int == cy)),
{
    if pile_has(s.push(q), cx, cy) {
        let i = choose|i: int|
            0 <= i < s.push(q).len() && s.push(q)[i].x as int == cx && s.push(q)[i].y as int == cy;
        if i < s.len() {
            assert(s[i] == s.push(q)[i]);
            assert(pile_has(s, cx, cy));
        } else {
            assert(s.push(q)[i] == q);
        }
    }
    if pile_has(s, cx, cy) {
        let i = choose|i: int| 0 <= i < s.len() && s[i].x as int == cx && s[i].y as int == cy;
        assert(s.push(q)[i] == s[i]);
        assert(pile_has(s.push(q), cx, cy));
    }
    if q.x as int == cx && q.y as int == cy {
        assert(s.push(q)[s.len() as int] == q);
        assert(pile_has(s.push(q), cx, cy));
    }
}

/// What clearing a row does to membership: a cell sits at `(cx, cy)`
/// afterwards exactly when it survived in place (below the cleared row)
/// or moved down one row into `cy` (from above it).
pub proof fn lemma_row_removed_has(pile: Seq<Point>, y: int, cx: int, cy: int)
    requires
        y <= i32::MAX as int,
    ensures
        pile_has(row_removed(pile, y), cx, cy) <==> ((cy > y && pile_has(pile, cx, cy)) || (cy
            <= y && pile_has(pile, cx, cy - 1))),
    decreases pile.len(),
{
    if pile.len() == 0 {
        assert(!pile_has(row_removed(pile, y), cx, cy));
        assert(!pile_has(pile, cx, cy));
        assert(!pile_has(pile, cx, cy - 1));
    } else {
        let p = pile.last();
        let pre = pile.drop_last();
        lemma_row_removed_has(pre, y, cx, cy);
        let rest = row_removed(pre, y);
        if p.y as int == y {
        } else if (p.y as int) < y {
            lemma_has_push(rest, Point { x: p.x, y: (p.y + 1) as i32 }, cx, cy);
        } else {
            lemma_has_push(rest, p, cx, cy);
        }
        assert forall|gx: int, gy: int| #[trigger] pile_has(pre, gx, gy) implies pile_has(
            pile,
            gx,
            gy,
        ) by {
            let i = choose|i: int|
                0 <= i < pre.len() && pre[i].x as int == gx && pre[i].y as int == gy;
            assert(pile[i] == pre[i]);
        }
        assert forall|gx: int, gy: int| #[trigger] pile_has(pile, gx, gy) implies pile_has(
            pre,
            gx,
            gy,
        ) || (p.x as int == gx && p.y as int == gy) by {
            let i = choose|i: int|
                0 <= i < pile.len() && pile[i].x as int == gx && pile[i].y as int == gy;
            if i < pre.len() {
                assert(pre[i] == pile[i]);
            } else {
                assert(pile[i] == p);
            }
        }
    }
}

/// Clearing a row never grows the pile, and strictly shrinks it whenever
/// some cell actually sits on the cleared row.
pub proof fn lemma_row_removed_len(pile: Seq<Point>, y: int)
    ensures
        row_removed(pile, y).len() <= pile.len(),
        (exists|i: int| 0 <= i < pile.len() && pile[i].y as int == y) ==> row_removed(
            pile,
            y,
        ).len() < pile.len(),
    decreases pile.len(),
{
    if pile.len() == 0 {
    } else {
        let p = pile.last();
        let pre = pile.drop_last();
        lemma_row_removed_len(pre, y);
        if exists|i: int| 0 <= i < pile.len() && pile[i].y as int == y {
            let i = choose|i: int| 0 <= i < pile.len() && pile[i].y as int == y;
            if p.y as int != y {
                assert(pre[i] == pile[i]);
                assert(exists|j: int| 0 <= j < pre.len() && pre[j].y as int == y);
            }
        }
    }
}

/// Clearing a row keeps the pile duplicate-free: cells on distinct rows
/// stay on distinct rows, and the shift is injective.
pub proof fn lemma_row_removed_unique(pile: Seq<Point>, y: int)
    requires
        pile_unique(pile),
        y <= i32::MAX as int,
    ensures
        pile_unique(row_removed(pile, y)),
    decreases pile.len(),
{
    if pile.len() == 0 {
    } else {
        let p = pile.last();
        let pre = pile.drop_last();
        assert(pile_unique(pre)) by {
            assert(forall|i: int| 0 <= i < pre.len() ==> pre[i] == pile[i]);
        }
        lemma_row_removed_unique(pre, y);
        let rest = row_removed(pre, y);
        if p.y as int != y {
            let q = if (p.y as int) < y {
                Point { x: p.x, y: (p.y + 1) as i32 }
            } else {
                p
            };
            assert(!pile_has(rest, q.x as int, q.y as int)) by {
                lemma_row_removed_has(pre, y, q.x as int, q.y as int);
                if pile_has(pre, p.x as int, p.y as int) {
                    let i = choose|i: int|
                        0 <= i < pre.len() && pre[i].x as int == p.x as int && pre[i].y as int
                            == p.y as int;
                    assert(pile[i] == pre[i]);
                    assert(pile[pile.len() - 1] == p);
                }
            }
            assert forall|i: int, j: int| 0 <= i < j < rest.push(q).len() implies !(rest.push(q)[i].x
                == rest.push(q)[j].x && rest.push(q)[i].y == rest.push(q)[j].y) by {
                if j < rest.len() {
                    assert(rest.push(q)[i] == rest[i] && rest.push(q)[j] == rest[j]);
                } else {
                    assert(rest.push(q)[j] == q);
                    assert(rest.push(q)[i] == rest[i]);
                    if rest[i].x == q.x && rest[i].y == q.y {
                        assert(pile_has(rest, q.x as int, q.y as int));
                    }
                }
            }
        }
    }
}

/// The scorer's sweep from row `y` toward row 0: each complete row is
/// cleared (with the shift applied) and re-examined at the same index;
/// the result is the final pile and the number of rows cleared.
pub open spec fn sweep(pile: Seq<Point>, y: int) -> (Seq<Point>, int)
    decreases pile.len(), y + 1,
    via sweep_decreases
{
    if y < 0 {
        (pile, 0)
    } else if row_complete(pile, y) {
        let r = sweep(row_removed(pile, y), y);
        (r.0, r.1 + 1)
    } else {
        sweep(pile, y - 1)
    }
}

#[via_fn]
proof fn sweep_decreases(pile: Seq<Point>, y: int) {
    if y >= 0 && row_complete(pile, y) {
        assert(pile_has(pile, 0, y));
        lemma_row_removed_len(pile, y);
    }
}

/// A sweep never reports a negative number of cleared rows.
pub proof fn lemma_sweep_count_nonneg(pile: Seq<Point>, y: int)
    ensures
        sweep(pile, y).1 >= 0,
    decreases pile.len(), y + 1,
{
    if y < 0 {
    } else if row_complete(pile, y) {
        assert(pile_has(pile, 0, y));
        lemma_row_removed_len(pile, y);
        lemma_sweep_count_nonneg(row_removed(pile, y), y);
    } else {
        lemma_sweep_count_nonneg(pile, y - 1);
    }
}

/// A sweep over a pile with no complete row clears nothing and leaves the
/// pile exactly as it was.
pub proof fn lemma_sweep_no_complete(pile: Seq<Point>, y: int)
    requires
        forall|r: int| 0 <= r <= y ==> !row_complete(pile, r),
    ensures
        sweep(pile, y).0 == pile,
        sweep(pile, y).1 == 0,
    decreases y + 1,
{
    if y >= 0 {
        lemma_sweep_no_complete(pile, y - 1);
    }
}

/// A sweep keeps the pile duplicate-free.
pub proof fn lemma_sweep_unique(pile: Seq<Point>, y: int)
    requires
        pile_unique(pile),
        y <= MAX_HEIGTH as int,
    ensures
        pile_unique(sweep(pile, y).0),
    decreases pile.len(), y + 1,
{
    if y < 0 {
    } else if row_complete(pile, y) {
        assert(pile_has(pile, 0, y));
        lemma_row_removed_len(pile, y);
        lemma_row_removed_unique(pile, y);
        lemma_sweep_unique(row_removed(pile, y), y);
    } else {
        lemma_sweep_unique(pile, y - 1);
    }
}

/// The single-row case: when exactly the bottom row is complete and no
/// other row (the sentinel row included) is, one sweep clears that row
/// alone, shifts every cell above it down by one, and counts one clear.
pub proof fn lemma_single_row_clear(pile: Seq<Point>)
    requires
        row_complete(pile, MAX_HEIGTH as int),
        forall|r: int| -1 <= r < MAX_HEIGTH as int ==> !row_complete(pile, r),
    ensures
        sweep(pile, MAX_HEIGTH as int).0 == row_removed(pile, MAX_HEIGTH as int),
        sweep(pile, MAX_HEIGTH as int).1 == 1,
{
    let h = MAX_HEIGTH as int;
    let cleared = row_removed(pile, h);
    assert forall|r: int| 0 <= r <= h implies !row_complete(cleared, r) by {
        if row_complete(cleared, r) {
            assert forall|x: int| 0 <= x < WIDTH as int implies #[trigger] pile_has(
                pile,
                x,
                r - 1,
            ) by {
                lemma_row_removed_has(pile, h, x, r);
                assert(pile_has(cleared, x, r));
            }
            assert(row_complete(pile, r - 1));
        }
    }
    lemma_sweep_no_complete(cleared, h);
}

} // verus!
