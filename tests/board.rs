use bees::board::{neighbors, Board, Move};
use bees::location::{expand_id, gen_id};
use bees::tile::{PassiveTiles, Tile, TilesTypes, Turn};

fn mv(from: &str, to: &str, color: Turn) -> Move {
    Move { from: expand_id(from.to_string()), to: expand_id(to.to_string()), color }
}

fn cells(slots: Vec<Option<bees::location::SquareLoc>>) -> Vec<Option<(usize, usize)>> {
    slots.into_iter().map(|o| o.map(|l| (l.row, l.col))).collect()
}

#[test]
fn new_board_is_empty() {
    let b = Board::new();
    for row in 0..8 {
        for col in 0..8 {
            assert_eq!(b.tile_at(row, col), None);
        }
    }
    assert_eq!(b.turn(), Turn::Nil);
    assert_eq!(b.queue_len(), 0);
}

#[test]
fn fresh_board_snapshot() {
    assert_eq!(Board::new().to_fen(), "8/8/8/8/8/8/8/8");
}

#[test]
fn snapshot_run_lengths_and_tokens() {
    let mut b = Board::new();
    b.add_tile("g".to_string(), "a1".to_string());
    b.add_tile("G".to_string(), "b2".to_string());
    b.add_tile("t".to_string(), "b3".to_string());
    b.add_tile("M".to_string(), "c8".to_string());
    b.add_tile("r".to_string(), "h4".to_string());
    assert_eq!(b.to_fen(), "g7/1Gt5/7M/8/8/8/8/3r4");
}

#[test]
fn add_tile_places_and_overwrites() {
    let mut b = Board::new();
    b.add_tile("h".to_string(), "d5".to_string());
    assert_eq!(
        b.tile_at(3, 4),
        Some(Tile { kind: TilesTypes::P(PassiveTiles::Horse), color: Turn::White })
    );
    b.add_tile("S".to_string(), "d5".to_string());
    assert_eq!(
        b.tile_at(3, 4),
        Some(Tile { kind: TilesTypes::P(PassiveTiles::Sloth), color: Turn::Orange })
    );
    assert_eq!(b.turn(), Turn::Nil);
}

#[test]
fn add_tile_after_start_is_ignored() {
    let mut b = Board::new();
    b.add_tile("g".to_string(), "a1".to_string());
    b.start();
    let before = b.to_fen();
    b.add_tile("b".to_string(), "c3".to_string());
    b.add_tile("B".to_string(), "a1".to_string());
    assert_eq!(b.to_fen(), before);
    assert_eq!(b.tile_at(2, 2), None);
    assert_eq!(b.turn(), Turn::White);
}

#[test]
fn start_makes_white_move() {
    let mut b = Board::new();
    b.start();
    assert_eq!(b.turn(), Turn::White);
    b.set_turn(Turn::Orange);
    assert_eq!(b.turn(), Turn::Orange);
}

#[test]
fn neighbors_white_from_corner() {
    let around = neighbors(&expand_id("a1".to_string()), Turn::White);
    assert_eq!(
        cells(around.to_vec()),
        vec![None, Some((1, 0)), Some((0, 1)), None, None, None, None, Some((1, 1))]
    );
}

#[test]
fn neighbors_orange_from_far_corner() {
    let around = neighbors(&expand_id("h8".to_string()), Turn::Orange);
    assert_eq!(
        cells(around.to_vec()),
        vec![None, Some((6, 7)), Some((7, 6)), None, None, None, None, Some((6, 6))]
    );
}

#[test]
fn neighbors_use_row_offsets_for_columns() {
    let around = neighbors(&expand_id("c7".to_string()), Turn::White);
    assert_eq!(
        cells(around.to_vec()),
        vec![
            Some((1, 6)),
            Some((3, 6)),
            Some((2, 3)),
            Some((2, 1)),
            Some((1, 1)),
            Some((1, 3)),
            Some((3, 1)),
            Some((3, 3)),
        ]
    );
}

#[test]
fn neighbors_without_side_are_empty() {
    let around = neighbors(&expand_id("d4".to_string()), Turn::Nil);
    assert!(around.to_vec().iter().all(|o| o.is_none()));
    assert_eq!(around.to_vec().len(), 8);
}

#[test]
fn neighbors_stay_on_board() {
    for side in [Turn::White, Turn::Orange] {
        for row in 0..8 {
            for col in 0..8 {
                let around = neighbors(&expand_id(gen_id(row, col)), side);
                for slot in around.to_vec().into_iter().flatten() {
                    assert!(slot.row < 8 && slot.col < 8);
                    assert_eq!(slot.id, gen_id(slot.row, slot.col));
                }
            }
        }
    }
}

#[test]
fn board_around_uses_side_to_move() {
    let mut b = Board::new();
    b.set_turn(Turn::Orange);
    let around = b.around(expand_id("a1".to_string()));
    assert_eq!(
        cells(around.to_vec()),
        vec![Some((1, 0)), None, None, Some((0, 1)), Some((1, 1)), None, None, None]
    );
}

#[test]
fn exec_empty_source_fails() {
    let mut b = Board::new();
    b.start();
    assert!(!b.exec(mv("a1", "b1", Turn::White)));
    assert_eq!(b.turn(), Turn::White);
    assert_eq!(b.to_fen(), "8/8/8/8/8/8/8/8");
}

#[test]
fn exec_not_adjacent_fails() {
    let mut b = Board::new();
    b.add_tile("g".to_string(), "a1".to_string());
    b.start();
    assert!(!b.exec(mv("a1", "c1", Turn::White)));
    assert!(!b.exec(mv("a1", "a1", Turn::White)));
    assert_eq!(b.turn(), Turn::White);
    assert_eq!(b.to_fen(), "g7/8/8/8/8/8/8/8");
}

#[test]
fn exec_before_start_fails() {
    let mut b = Board::new();
    b.add_tile("g".to_string(), "a1".to_string());
    assert!(!b.exec(mv("a1", "b1", Turn::Nil)));
    assert_eq!(b.turn(), Turn::Nil);
}

#[test]
fn exec_adjacent_flips_turn() {
    let mut b = Board::new();
    b.add_tile("g".to_string(), "a1".to_string());
    b.start();
    assert!(b.exec(mv("a1", "b1", Turn::White)));
    assert_eq!(b.turn(), Turn::Orange);
    assert_eq!(b.to_fen(), "g7/8/8/8/8/8/8/8");
    // Under Orange's orientation b1 is "up" from a1.
    assert!(b.exec(mv("a1", "b1", Turn::Orange)));
    assert_eq!(b.turn(), Turn::White);
}

#[test]
fn add_move_tags_current_turn() {
    let mut b = Board::new();
    b.add_tile("g".to_string(), "a1".to_string());
    b.start();
    b.add_move("a1".to_string(), "b1".to_string());
    assert_eq!(b.queue_len(), 1);
    b.set_turn(Turn::Orange);
    b.proc_moves();
    assert_eq!(b.turn(), Turn::Orange);
    b.set_turn(Turn::White);
    b.proc_moves();
    assert_eq!(b.turn(), Turn::Orange);
}

#[test]
fn example_game_scenario() {
    let mut b = Board::new();
    b.add_tile("g".to_string(), "a1".to_string());
    b.add_tile("G".to_string(), "b2".to_string());
    b.start();
    b.add_move("a1".to_string(), "b2".to_string());
    b.proc_moves();
    // b2 is the down-right diagonal of a1 under White's orientation.
    assert_eq!(b.turn(), Turn::Orange);
    assert_eq!(b.to_fen(), "g7/1G6/8/8/8/8/8/8");
}

#[test]
fn queue_is_replayed_in_order() {
    let mut b = Board::new();
    b.add_tile("g".to_string(), "a1".to_string());
    b.add_tile("G".to_string(), "h8".to_string());
    b.start();
    b.add_move("a1".to_string(), "b1".to_string());
    b.set_turn(Turn::Orange);
    b.add_move("h8".to_string(), "g8".to_string());
    b.set_turn(Turn::White);
    // White's move flips the turn, then Orange's move is due and runs too.
    b.proc_moves();
    assert_eq!(b.turn(), Turn::White);
    assert_eq!(b.queue_len(), 2);
    // The queue is kept, so a second pass runs both moves again.
    b.proc_moves();
    assert_eq!(b.turn(), Turn::White);
}

#[test]
fn queue_skips_failing_moves() {
    let mut b = Board::new();
    b.add_tile("g".to_string(), "a1".to_string());
    b.start();
    b.add_move("c3".to_string(), "c4".to_string());
    b.add_move("a1".to_string(), "h8".to_string());
    assert!(b.pass_is_safe());
    b.proc_moves();
    assert_eq!(b.turn(), Turn::White);
}

#[test]
fn pass_is_safe_detects_off_board_moves_that_would_run() {
    let mut b = Board::new();
    b.start();
    b.add_move("z1".to_string(), "a1".to_string());
    assert!(!b.pass_is_safe());
    let mut c = Board::new();
    c.start();
    c.add_move("a9".to_string(), "a1".to_string());
    assert!(!c.pass_is_safe());
}

#[test]
fn skipped_off_board_moves_are_harmless() {
    let mut b = Board::new();
    b.add_tile("g".to_string(), "a1".to_string());
    b.add_move("z1".to_string(), "a9".to_string());
    b.start();
    b.add_move("a1".to_string(), "a2".to_string());
    assert!(b.pass_is_safe());
    b.proc_moves();
    assert_eq!(b.turn(), Turn::Orange);
    assert_eq!(b.queue_len(), 2);
}
