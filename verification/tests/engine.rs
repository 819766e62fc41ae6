use tetris::{Block, Direction, Game, Point};

fn pt(x: i32, y: i32) -> Point {
    Point { x, y }
}

/// A fresh game: spawn anchor, initial counter, empty pile, no score.
#[test]
fn test_new_initial_state() {
    let g = Game::new();
    assert_eq!(g.position, pt(7, 0));
    assert_eq!(g.block_dir, 1);
    assert!(matches!(g.block_spec, Block::J));
    assert!(matches!(g.direction, Direction::Down));
    assert_eq!(g.score, 0);
    assert!(g.pile.is_empty());
    assert!(g.block_arr.is_empty());
}

/// Shape table: layout 0 of J anchored at the spawn point.
#[test]
fn test_shape_table_j_layout0() {
    let mut g = Game::new();
    g.matching_pos_to_block();
    g.block_spining();
    assert_eq!(g.block_arr, vec![pt(7, -1), pt(7, 0), pt(7, 1), pt(6, 1)]);
}

/// Shape table: layout 0 of I anchored at (7, 0), the end-to-end
/// scenario's starting cells: a four-cell bar.
#[test]
fn test_shape_table_i_layout0() {
    let mut g = Game::new();
    g.set_kind(Block::I);
    g.matching_pos_to_block();
    g.block_spining();
    assert_eq!(g.block_arr, vec![pt(6, 0), pt(7, 0), pt(8, 0), pt(9, 0)]);
}

/// Movement resolver: Down moves the anchor one row while no cell
/// touches the floor.
#[test]
fn test_moving_pos_down() {
    let mut g = Game::new();
    g.matching_pos_to_block();
    g.block_spining();
    g.moving_pos();
    assert_eq!(g.position, pt(7, 1));
}

/// Movement resolver: Down is refused once a cell touches the floor.
#[test]
fn test_moving_pos_down_blocked_at_floor() {
    let mut g = Game::new();
    g.position = pt(7, 14);
    g.matching_pos_to_block();
    g.block_spining();
    // J layout 0 has a cell one row below the anchor: it sits at y == 15.
    g.moving_pos();
    assert_eq!(g.position, pt(7, 14));
}

/// Movement resolver: Left and Right step by one column; Stop holds.
#[test]
fn test_moving_pos_left_right_stop() {
    let mut g = Game::new();
    g.matching_pos_to_block();
    g.block_spining();
    g.set_intent(Direction::Left);
    g.moving_pos();
    assert_eq!(g.position, pt(6, 0));
    g.set_intent(Direction::Right);
    g.moving_pos();
    assert_eq!(g.position, pt(7, 0));
    g.set_intent(Direction::Stop);
    g.moving_pos();
    assert_eq!(g.position, pt(7, 0));
}

/// Movement resolver: Left is refused once a cell touches the left wall.
#[test]
fn test_moving_pos_left_blocked_at_wall() {
    let mut g = Game::new();
    g.set_kind(Block::T);
    g.position = pt(1, 5);
    g.matching_pos_to_block();
    g.block_spining();
    // T layout 0 has a cell at x == 0 here.
    g.set_intent(Direction::Left);
    g.moving_pos();
    assert_eq!(g.position, pt(1, 5));
}

/// Wall containment: from the left wall, repeated Left ticks never push
/// any cell past it.
#[test]
fn test_wall_containment_left() {
    let mut g = Game::new();
    g.set_kind(Block::T);
    g.position = pt(0, 3);
    g.matching_pos_to_block();
    g.block_spining();
    g.set_intent(Direction::Left);
    for _ in 0..10 {
        g.advance_tick();
        let (_, cells, _) = g.snapshot();
        for c in &cells {
            assert!(c.x >= 0);
        }
    }
}

/// Bounds invariant: whatever mix of intents and rotations, after each
/// tick every active cell is inside the walls and no lower than the floor.
#[test]
fn test_bounds_invariant_under_rotation() {
    let mut g = Game::new();
    g.set_kind(Block::L);
    g.matching_pos_to_block();
    g.block_spining();
    let intents = [Direction::Down, Direction::Left, Direction::Right, Direction::Stop];
    for t in 0..40 {
        g.set_intent(intents[t % 4]);
        if t % 3 == 0 {
            g.request_rotation();
        }
        g.advance_tick();
        let (_, cells, _) = g.snapshot();
        for c in &cells {
            assert!(0 <= c.x && c.x <= 13, "cell {:?} out of walls after tick {}", c, t);
            assert!(c.y <= 15, "cell {:?} under floor after tick {}", c, t);
        }
    }
}

/// End-to-end scenario: kind I spawned at (7, 0) falls under Down intents
/// until it rests on the floor; the lock then succeeds, the pile grows by
/// four entries and the anchor respawns.
#[test]
fn test_end_to_end_i_drop_and_lock() {
    let mut g = Game::new();
    g.set_kind(Block::I);
    g.matching_pos_to_block();
    g.block_spining();
    assert_eq!(g.block_arr, vec![pt(6, 0), pt(7, 0), pt(8, 0), pt(9, 0)]);
    let mut landed = false;
    for _ in 0..20 {
        g.advance_tick();
        if g.block_arr.iter().any(|c| c.y == 15) {
            landed = true;
            break;
        }
    }
    assert!(landed);
    assert_eq!(g.position, pt(7, 15));
    assert!(g.request_lock());
    assert_eq!(g.pile.len(), 4);
    // The four locked cells are pairwise distinct coordinates.
    for i in 0..4 {
        for j in 0..i {
            assert_ne!(g.pile[i], g.pile[j]);
        }
    }
    assert_eq!(g.position, pt(7, 0));
    assert_eq!(g.block_dir, 1);
    assert!(matches!(g.direction, Direction::Down));
}

/// Kind I flipped flush against the floor: its far end lands two rows
/// out, and the escape pass applies at most one correction per tick, so
/// the first tick leaves the end one row below the floor and the next
/// tick's correction completes the recovery.
#[test]
fn test_i_flip_at_floor_recovers_next_tick() {
    let mut g = Game::new();
    g.set_kind(Block::I);
    g.set_intent(Direction::Stop);
    g.position = pt(5, 15);
    g.matching_pos_to_block();
    g.block_spining();
    // Horizontal bar on the floor row; flip it to vertical.
    g.request_rotation();
    g.advance_tick();
    let (_, cells, _) = g.snapshot();
    assert!(cells.iter().any(|c| c.y == 16));
    g.advance_tick();
    let (_, cells, _) = g.snapshot();
    for c in &cells {
        assert!(c.y <= 15);
    }
}

/// Bounds invariant right after a respawn: the first tick after a lock
/// and a kind change keeps the new piece's cells inside the playfield.
#[test]
fn test_bounds_after_respawn() {
    let mut g = Game::new();
    g.set_kind(Block::I);
    g.matching_pos_to_block();
    g.block_spining();
    for _ in 0..16 {
        g.advance_tick();
    }
    assert!(g.request_lock());
    g.set_kind(Block::Z);
    g.advance_tick();
    let (_, cells, _) = g.snapshot();
    for c in &cells {
        assert!(0 <= c.x && c.x <= 13 && c.y <= 15);
    }
}

/// Lock cell count: a failed lock changes nothing and reports so.
#[test]
fn test_request_lock_not_landed() {
    let mut g = Game::new();
    g.matching_pos_to_block();
    g.block_spining();
    assert!(!g.request_lock());
    assert!(g.pile.is_empty());
    assert_eq!(g.position, pt(7, 0));
}

/// Locking a piece resting on the pile: the landing test also fires when
/// a cell sits directly above a pile cell.
#[test]
fn test_lock_resting_on_pile() {
    let mut g = Game::new();
    g.set_kind(Block::O);
    g.position = pt(3, 12);
    g.matching_pos_to_block();
    g.block_spining();
    // O cells here: (3,12) (4,12) (4,13) (3,13); a pile cell at (3,14)
    // sits directly under one of them.
    g.pile = vec![pt(3, 14)];
    assert!(g.request_lock());
    assert_eq!(g.pile.len(), 5);
    // Front-inserted in reverse cell-list order, pile tail preserved.
    assert_eq!(g.pile, vec![pt(3, 13), pt(4, 13), pt(4, 12), pt(3, 12), pt(3, 14)]);
}

/// Pile uniqueness: locks of separated pieces never produce two pile
/// cells with the same coordinate.
#[test]
fn test_pile_uniqueness_after_locks() {
    let mut g = Game::new();
    g.set_kind(Block::O);
    for drop in 0..3 {
        g.position = pt(2 * drop, 0);
        g.set_intent(Direction::Down);
        g.matching_pos_to_block();
        g.block_spining();
        for _ in 0..20 {
            g.advance_tick();
            if g.request_lock() {
                break;
            }
        }
    }
    assert_eq!(g.pile.len(), 12);
    for i in 0..g.pile.len() {
        for j in 0..i {
            assert_ne!(g.pile[i], g.pile[j]);
        }
    }
}

/// Row completion test: exactly the filled row reports complete.
#[test]
fn test_is_line_complete() {
    let mut g = Game::new();
    g.pile = (0..14).map(|x| pt(x, 15)).collect();
    g.pile.push(pt(4, 14));
    assert!(g.is_line_complete(15));
    assert!(!g.is_line_complete(14));
    assert!(!g.is_line_complete(0));
}

/// Removing a row: its cells leave, cells above shift down, cells below
/// stay, order kept.
#[test]
fn test_remove_complete_line() {
    let mut g = Game::new();
    g.pile = vec![pt(0, 10), pt(1, 12), pt(2, 12), pt(3, 14)];
    g.remove_complete_line(12);
    assert_eq!(g.pile, vec![pt(0, 11), pt(3, 14)]);
}

/// Row-complete clears: with exactly the bottom row full, one tick
/// removes that row, shifts the cell above it down one, and scores 1000.
#[test]
fn test_single_row_clear_scores_1000() {
    let mut g = Game::new();
    g.set_intent(Direction::Stop);
    g.pile = (0..14).map(|x| pt(x, 15)).collect();
    g.pile.push(pt(3, 14));
    g.advance_tick();
    assert_eq!(g.score, 1000);
    assert_eq!(g.pile, vec![pt(3, 15)]);
}

/// Two full rows in one tick score twice the flat award, with no bonus.
#[test]
fn test_double_row_clear_scores_2000() {
    let mut g = Game::new();
    g.set_intent(Direction::Stop);
    let mut pile: Vec<Point> = (0..14).map(|x| pt(x, 15)).collect();
    pile.extend((0..14).map(|x| pt(x, 14)));
    g.pile = pile;
    g.advance_tick();
    assert_eq!(g.score, 2000);
    assert!(g.pile.is_empty());
}

/// The scorer re-examines the same row after a shift: a full row landing
/// on the cleared row's index is cleared in the same tick.
#[test]
fn test_shifted_row_recheck() {
    let mut g = Game::new();
    g.set_intent(Direction::Stop);
    let mut pile: Vec<Point> = (0..14).map(|x| pt(x, 15)).collect();
    pile.extend((0..14).map(|x| pt(x, 13)).collect::<Vec<_>>());
    pile.push(pt(5, 14));
    g.pile = pile;
    g.advance_tick();
    // Row 15 clears and everything shifts down one: the full row 13
    // arrives at 14 and the lone (5,14) cell at (5,15). The sweep finds
    // row 15 incomplete, then clears the re-completed row 14; the lone
    // cell lies below that row and stays put, so two rows score in one
    // tick.
    assert_eq!(g.score, 2000);
    assert_eq!(g.pile, vec![pt(5, 15)]);
}

/// Game-over trigger: a pile cell on the sentinel row makes the report
/// true after the next tick.
#[test]
fn test_game_over_trigger() {
    let mut g = Game::new();
    g.set_intent(Direction::Stop);
    assert!(!g.is_game_over());
    g.pile = vec![pt(9, -1)];
    g.advance_tick();
    assert!(g.is_game_over());
}

/// Rotation idempotence on the symmetric kind: four rotation requests in
/// a row leave the derived cells identical after each one.
#[test]
fn test_o_rotation_idempotent() {
    let mut g = Game::new();
    g.set_kind(Block::O);
    g.set_intent(Direction::Stop);
    g.position = pt(5, 5);
    g.matching_pos_to_block();
    g.block_spining();
    let cells0 = g.block_arr.clone();
    for _ in 0..4 {
        g.request_rotation();
        g.matching_pos_to_block();
        g.block_spining();
        assert_eq!(g.block_arr, cells0);
    }
}

/// The rotation counter advances modulo 4.
#[test]
fn test_request_rotation_counter() {
    let mut g = Game::new();
    assert_eq!(g.block_dir, 1);
    g.request_rotation();
    assert_eq!(g.block_dir, 2);
    g.request_rotation();
    assert_eq!(g.block_dir, 3);
    g.request_rotation();
    assert_eq!(g.block_dir, 0);
    g.request_rotation();
    assert_eq!(g.block_dir, 1);
}

/// Rotation changes the derived cells of an asymmetric kind.
#[test]
fn test_rotation_changes_t_cells() {
    let mut g = Game::new();
    g.set_kind(Block::T);
    g.position = pt(5, 5);
    g.matching_pos_to_block();
    g.block_spining();
    assert_eq!(g.block_arr, vec![pt(5, 4), pt(5, 5), pt(4, 5), pt(6, 5)]);
    g.request_rotation();
    g.matching_pos_to_block();
    g.block_spining();
    assert_eq!(g.block_arr, vec![pt(4, 5), pt(5, 5), pt(5, 4), pt(5, 6)]);
}

/// Spin correction: a piece overlapping the pile is pushed up until no
/// cell overlaps.
#[test]
fn test_spin_correction_escapes_pile() {
    let mut g = Game::new();
    g.set_kind(Block::O);
    g.set_intent(Direction::Stop);
    g.position = pt(5, 10);
    g.matching_pos_to_block();
    g.block_spining();
    g.pile = vec![pt(5, 10), pt(5, 9)];
    g.advance_tick();
    let (pile, cells, _) = g.snapshot();
    for c in &cells {
        assert!(!pile.contains(c), "cell {:?} still overlaps the pile", c);
    }
    // The nudge is minimal: rows 10, 9 and 8 all collide, row 7 is the
    // first free one, and the anchor stops exactly there.
    assert_eq!(g.position, pt(5, 7));
}

/// A tick taken in a terminal state freezes pile and score: the detector
/// runs ahead of the scorer, so even a complete row does not clear and
/// the sentinel cell stays where it is.
#[test]
fn test_game_over_freezes_scoring() {
    let mut g = Game::new();
    g.set_intent(Direction::Stop);
    let mut pile: Vec<Point> = (0..14).map(|x| pt(x, 15)).collect();
    pile.push(pt(3, -1));
    g.pile = pile.clone();
    g.advance_tick();
    assert!(g.is_game_over());
    assert_eq!(g.score, 0);
    assert_eq!(g.pile, pile);
}

/// Move-into-pile correction: a Down step into the pile is rolled back.
#[test]
fn test_down_into_pile_rolled_back() {
    let mut g = Game::new();
    g.set_kind(Block::O);
    g.set_intent(Direction::Down);
    g.position = pt(5, 12);
    g.matching_pos_to_block();
    g.block_spining();
    // O cells at (5,12)..(6,13); the row below the piece is pile.
    g.pile = vec![pt(5, 14), pt(6, 14)];
    g.advance_tick();
    // The move to y == 13 would put cells onto (5,14)/(6,14): undone.
    assert_eq!(g.position, pt(5, 12));
}

/// The run entry point reports completion and performs the same tick.
#[test]
fn test_run_reports_ok() {
    let mut g = Game::new();
    assert!(g.run().is_ok());
    assert_eq!(g.position, pt(7, 1));
}

/// The random respawn touches only the kind, and over many draws more
/// than one kind comes out.
#[test]
fn test_generating_random_block() {
    let mut g = Game::new();
    g.score = 123;
    let mut seen = [false; 7];
    for _ in 0..1000 {
        g.generating_random_block();
        let idx = match g.block_spec {
            Block::L => 0,
            Block::J => 1,
            Block::I => 2,
            Block::O => 3,
            Block::S => 4,
            Block::Z => 5,
            Block::T => 6,
        };
        seen[idx] = true;
    }
    assert_eq!(g.score, 123);
    assert!(seen.iter().filter(|s| **s).count() >= 2);
}

/// The snapshot mirrors pile, active cells and score.
#[test]
fn test_snapshot() {
    let mut g = Game::new();
    g.pile = vec![pt(1, 15)];
    g.score = 3000;
    g.matching_pos_to_block();
    g.block_spining();
    let (pile, cells, score) = g.snapshot();
    assert_eq!(pile, g.pile);
    assert_eq!(cells, g.block_arr);
    assert_eq!(score, 3000);
}
