use rand::rngs::SmallRng;
use rand::SeedableRng;
use tetris::game::{lines_to_score, FallTimer, Game, GameState, Score, DEFAULT_PERIOD_NS};
use tetris::grid::{can_fall, can_fit, in_bounds, is_full, FullGrid};
use tetris::piece::{update_segment, FallingSegment, Kind, Piece, PieceColor, Tetromino, Tile};

const SETTLED: Option<PieceColor> = Some(PieceColor::Blue);

const KINDS: [Kind; 7] = [Kind::I, Kind::T, Kind::J, Kind::L, Kind::S, Kind::Z, Kind::O];

fn rng() -> SmallRng {
    SmallRng::seed_from_u64(7)
}

fn fill_row(grid: &mut FullGrid, y: usize) {
    for x in 0..10 {
        grid.cells[y * 10 + x] = SETTLED;
    }
}

fn row(grid: &FullGrid, y: usize) -> Vec<bool> {
    (0..10).map(|x| grid.get(x, y)).collect()
}

fn seg(x_offset: i8, y_offset: i8) -> FallingSegment {
    FallingSegment { x_offset, y_offset }
}

fn piece_at(tiles: [(i8, i8); 4], offsets: [(i8, i8); 4]) -> Piece {
    Piece {
        tiles: tiles.iter().map(|&(x, y)| Tile { x, y }).collect(),
        segments: offsets.iter().map(|&(x, y)| seg(x, y)).collect(),
        color: PieceColor::Teal,
    }
}

#[test]
fn rotate_clockwise_swaps_and_negates() {
    assert_eq!(seg(2, 1).rotate_clockwise(), seg(1, -2));
    assert_eq!(seg(-1, 0).rotate_clockwise(), seg(0, 1));
}

#[test]
fn rotate_counterclockwise_swaps_and_negates() {
    assert_eq!(seg(2, 1).rotate_counterclockwise(), seg(-1, 2));
    assert_eq!(seg(2, 1).rotate_clockwise().rotate_counterclockwise(), seg(2, 1));
}

#[test]
fn four_clockwise_rotations_restore_every_offset() {
    for kind in KINDS {
        let t = Tetromino::template(kind);
        for s in t.shape {
            let r = s.rotate_clockwise().rotate_clockwise().rotate_clockwise().rotate_clockwise();
            assert_eq!(r, s);
        }
    }
}

#[test]
fn score_table() {
    assert_eq!(lines_to_score(1), 100);
    assert_eq!(lines_to_score(2), 300);
    assert_eq!(lines_to_score(3), 500);
    assert_eq!(lines_to_score(4), 800);
}

#[test]
fn bounds_allow_rows_above_the_field() {
    assert!(in_bounds(0, 0));
    assert!(in_bounds(9, 30));
    assert!(!in_bounds(-1, 0));
    assert!(!in_bounds(10, 5));
    assert!(!in_bounds(3, -1));
}

#[test]
fn buffer_cells_read_as_free() {
    let mut grid = FullGrid::empty();
    grid.cells[21 * 10 + 4] = SETTLED;
    grid.cells[3 * 10 + 4] = SETTLED;
    assert!(!is_full(4, 21, &grid));
    assert!(is_full(4, 3, &grid));
    assert!(!is_full(5, 3, &grid));
}

#[test]
fn fit_and_fall_checks() {
    let mut grid = FullGrid::empty();
    grid.cells[0 * 10 + 2] = SETTLED;
    let on_floor = vec![Tile { x: 1, y: 0 }, Tile { x: 3, y: 1 }];
    assert!(can_fit(&on_floor, &grid));
    assert!(!can_fall(&on_floor, &grid));
    let above_block = vec![Tile { x: 2, y: 1 }];
    assert!(can_fit(&above_block, &grid));
    assert!(!can_fall(&above_block, &grid));
    let free = vec![Tile { x: 5, y: 4 }, Tile { x: 6, y: 4 }];
    assert!(can_fall(&free, &grid));
    assert!(!can_fit(&vec![Tile { x: 2, y: 0 }], &grid));
    assert!(!can_fit(&vec![Tile { x: 10, y: 4 }], &grid));
}

#[test]
fn update_segment_moves_pivot_and_turns_offset() {
    let mut tile = Tile { x: 5, y: 7 };
    let mut segment = seg(1, 0);
    update_segment(&mut tile, &mut segment, true, false, false, true);
    assert_eq!(segment, seg(0, -1));
    assert_eq!(tile, Tile { x: 3, y: 6 });

    let mut tile = Tile { x: 5, y: 7 };
    let mut segment = seg(1, 0);
    update_segment(&mut tile, &mut segment, false, true, true, false);
    assert_eq!(segment, seg(0, 1));
    assert_eq!(tile, Tile { x: 5, y: 8 });
}

#[test]
fn clearing_row_five_scores_one_hundred() {
    let mut game = Game::new(&mut rng());
    fill_row(&mut game.grid, 5);
    game.grid.cells[6 * 10 + 2] = SETTLED;
    game.grid.cells[4 * 10 + 7] = SETTLED;
    game.grid.cells[23 * 10 + 9] = SETTLED;
    assert_eq!(game.clear_rows(), 1);
    assert_eq!(game.score.0, 100);
    let mut expected_five = vec![false; 10];
    expected_five[2] = true;
    assert_eq!(row(&game.grid, 5), expected_five);
    let mut expected_four = vec![false; 10];
    expected_four[7] = true;
    assert_eq!(row(&game.grid, 4), expected_four);
    let mut expected_buffer = vec![false; 10];
    expected_buffer[9] = true;
    assert_eq!(row(&game.grid, 22), expected_buffer);
    assert_eq!(row(&game.grid, 23), vec![false; 10]);
    assert!(!game.grid.row_is_full(5));
}

#[test]
fn clearing_rows_three_and_four_scores_three_hundred() {
    let mut game = Game::new(&mut rng());
    fill_row(&mut game.grid, 3);
    fill_row(&mut game.grid, 4);
    game.grid.cells[5 * 10 + 0] = SETTLED;
    game.grid.cells[8 * 10 + 1] = SETTLED;
    assert_eq!(game.clear_rows(), 2);
    assert_eq!(game.score.0, 300);
    let mut expected = vec![false; 10];
    expected[0] = true;
    assert_eq!(row(&game.grid, 3), expected);
    let mut expected = vec![false; 10];
    expected[1] = true;
    assert_eq!(row(&game.grid, 6), expected);
    for y in [4, 5, 7, 8, 22, 23] {
        assert_eq!(row(&game.grid, y), vec![false; 10]);
    }
}

#[test]
fn second_clear_finds_nothing() {
    let mut grid = FullGrid::empty();
    for y in [0, 2, 3, 19] {
        fill_row(&mut grid, y);
    }
    grid.cells[1 * 10 + 4] = SETTLED;
    assert_eq!(grid.clear_full_rows(), 4);
    assert_eq!(grid.clear_full_rows(), 0);
    let mut expected = vec![false; 10];
    expected[4] = true;
    assert_eq!(row(&grid, 0), expected);
}

#[test]
fn clear_on_clean_grid_keeps_it() {
    let mut grid = FullGrid::empty();
    grid.cells[0] = SETTLED;
    assert_eq!(grid.clear_full_rows(), 0);
    assert!(grid.get(0, 0));
}

#[test]
fn every_template_fits_at_spawn() {
    let empty = FullGrid::empty();
    let mut crowded = FullGrid::empty();
    for y in 0..20 {
        for x in 0..9 {
            crowded.cells[y * 10 + x] = SETTLED;
        }
    }
    for kind in KINDS {
        let t = Tetromino::template(kind);
        let p = Piece::spawn(t);
        assert!(can_fit(&p.tiles, &empty));
        assert!(can_fit(&p.tiles, &crowded));
        for (tile, s) in p.tiles.iter().zip(t.shape.iter()) {
            assert_eq!(tile.x, 6 + s.x_offset);
            assert_eq!(tile.y, 20 + s.y_offset);
        }
    }
}

#[test]
fn template_shapes_and_colors() {
    let i = Tetromino::template(Kind::I);
    assert_eq!(i.shape, [seg(0, 0), seg(-1, 0), seg(1, 0), seg(2, 0)]);
    assert_eq!(i.color, PieceColor::Teal);
    let o = Tetromino::template(Kind::O);
    assert_eq!(o.shape, [seg(0, 0), seg(0, 1), seg(-1, 0), seg(-1, 1)]);
    assert_eq!(o.color, PieceColor::Yellow);
}

#[test]
fn random_gives_a_template() {
    let mut r = rng();
    let all: Vec<Tetromino> = KINDS.iter().map(|&k| Tetromino::template(k)).collect();
    let mut seen = vec![false; 7];
    for _ in 0..200 {
        let t = Tetromino::random(&mut r);
        let k = all.iter().position(|a| *a == t).unwrap();
        seen[k] = true;
    }
    assert!(seen.iter().all(|&s| s));
}

#[test]
fn lock_above_the_field_is_a_loss() {
    let mut game = Game::new(&mut rng());
    assert!(!game.grid.is_loss());
    game.grid.lock(&vec![Tile { x: 4, y: 20 }, Tile { x: 4, y: 19 }], PieceColor::Red);
    assert!(game.grid.is_loss());
    game.check_loss();
    assert_eq!(game.state, GameState::GameOver);
}

#[test]
fn check_loss_keeps_playing_below_the_line() {
    let mut game = Game::new(&mut rng());
    game.grid.lock(&vec![Tile { x: 0, y: 19 }], PieceColor::Red);
    game.check_loss();
    assert_eq!(game.state, GameState::Playing);
}

#[test]
fn gravity_lowers_then_locks() {
    let mut r = rng();
    let mut game = Game::new(&mut r);
    game.piece = piece_at([(4, 1), (3, 1), (5, 1), (6, 1)], [(0, 0), (-1, 0), (1, 0), (2, 0)]);
    game.gravity_step(&mut r);
    let ys: Vec<i8> = game.piece.tiles.iter().map(|t| t.y).collect();
    assert_eq!(ys, vec![0, 0, 0, 0]);
    game.gravity_step(&mut r);
    for x in 3..7 {
        assert!(game.grid.get(x, 0));
    }
    assert!(!game.grid.get(2, 0));
    assert_eq!(game.grid.color_at(3, 0), Some(PieceColor::Teal));
    assert_eq!(game.grid.color_at(2, 0), None);
    assert_eq!(game.state, GameState::Playing);
    assert!(game.piece.tiles.iter().all(|t| t.y >= 20));
}

#[test]
fn locking_a_full_row_scores() {
    let mut r = rng();
    let mut game = Game::new(&mut r);
    for x in 0..6 {
        game.grid.cells[x] = SETTLED;
    }
    game.piece = piece_at([(7, 0), (6, 0), (8, 0), (9, 0)], [(0, 0), (-1, 0), (1, 0), (2, 0)]);
    game.gravity_step(&mut r);
    assert_eq!(game.score.0, 100);
    assert_eq!(row(&game.grid, 0), vec![false; 10]);
    assert_eq!(game.state, GameState::Playing);
}

#[test]
fn locking_above_the_field_ends_the_game() {
    let mut r = rng();
    let mut game = Game::new(&mut r);
    for y in 0..20 {
        game.grid.cells[y * 10] = SETTLED;
    }
    game.piece = piece_at([(1, 20), (0, 20), (2, 20), (3, 20)], [(0, 0), (-1, 0), (1, 0), (2, 0)]);
    game.gravity_step(&mut r);
    assert_eq!(game.state, GameState::GameOver);
    assert!(game.grid.is_loss());
}

#[test]
fn blocked_move_changes_nothing() {
    let mut game = Game::new(&mut rng());
    game.piece = piece_at([(1, 5), (0, 5), (2, 5), (3, 5)], [(0, 0), (-1, 0), (1, 0), (2, 0)]);
    let before = game.piece.tiles.clone();
    game.handle_input(true, false, false, false, false, false);
    assert_eq!(game.piece.tiles, before);
    game.grid.cells[4 * 10 + 0] = SETTLED;
    game.handle_input(true, false, true, false, false, false);
    assert_eq!(game.piece.tiles, before);
    game.grid.cells[4 * 10 + 0] = None;
    game.handle_input(true, false, true, false, false, false);
    assert_ne!(game.piece.tiles, before);
}

#[test]
fn move_and_rotate_apply_together() {
    let mut game = Game::new(&mut rng());
    game.piece = piece_at([(4, 5), (3, 5), (5, 5), (6, 5)], [(0, 0), (-1, 0), (1, 0), (2, 0)]);
    game.handle_input(false, true, false, true, false, false);
    let tiles: Vec<(i8, i8)> = game.piece.tiles.iter().map(|t| (t.x, t.y)).collect();
    assert_eq!(tiles, vec![(5, 5), (5, 6), (5, 4), (5, 3)]);
    assert_eq!(game.piece.segments[3], seg(0, -2));
}

#[test]
fn soft_drop_round_trip_restores_period() {
    let mut timer = FallTimer::new();
    assert_eq!(timer.period_ns(), DEFAULT_PERIOD_NS);
    timer.set_soft_drop(true);
    assert_eq!(timer.period_ns(), DEFAULT_PERIOD_NS / 3);
    timer.set_soft_drop(false);
    assert_eq!(timer.period_ns(), DEFAULT_PERIOD_NS);
}

#[test]
fn soft_drop_through_input() {
    let mut game = Game::new(&mut rng());
    game.handle_input(false, false, false, false, true, false);
    assert_eq!(game.timer.period_ns(), 66_666_666);
    game.handle_input(false, false, false, false, false, true);
    assert_eq!(game.timer.period_ns(), 200_000_000);
}

#[test]
fn timer_counts_whole_periods() {
    let mut timer = FallTimer::new();
    assert_eq!(timer.tick(150_000_000), 0);
    assert_eq!(timer.tick(500_000_000), 3);
    assert_eq!(timer.elapsed_ns, 50_000_000);
}

#[test]
fn fall_steps_per_period() {
    let mut r = rng();
    let mut game = Game::new(&mut r);
    game.piece = piece_at([(4, 10), (3, 10), (5, 10), (6, 10)], [(0, 0), (-1, 0), (1, 0), (2, 0)]);
    assert_eq!(game.fall(450_000_000, &mut r), 2);
    assert!(game.piece.tiles.iter().all(|t| t.y == 8));
}

#[test]
fn restart_only_from_game_over() {
    let mut r = rng();
    let mut game = Game::new(&mut r);
    game.score = Score(500);
    game.check_restart(true, &mut r);
    assert_eq!(game.score.0, 500);
    game.state = GameState::GameOver;
    game.check_restart(false, &mut r);
    assert_eq!(game.state, GameState::GameOver);
    game.grid.cells[3] = SETTLED;
    game.check_restart(true, &mut r);
    assert_eq!(game.state, GameState::Playing);
    assert_eq!(game.score.0, 0);
    assert!(!game.grid.get(3, 0));
}

#[test]
fn game_over_freezes_the_piece() {
    let mut r = rng();
    let mut game = Game::new(&mut r);
    game.state = GameState::GameOver;
    let before = game.piece.tiles.clone();
    assert_eq!(game.fall(1_000_000_000, &mut r), 0);
    game.handle_input(true, false, false, false, false, false);
    assert_eq!(game.piece.tiles, before);
}

#[test]
fn cleared_rows_carry_their_colours_down() {
    let mut grid = FullGrid::empty();
    fill_row(&mut grid, 0);
    grid.cells[1 * 10 + 3] = Some(PieceColor::Green);
    grid.cells[2 * 10 + 8] = Some(PieceColor::Red);
    assert_eq!(grid.clear_full_rows(), 1);
    assert_eq!(grid.color_at(3, 0), Some(PieceColor::Green));
    assert_eq!(grid.color_at(8, 1), Some(PieceColor::Red));
    assert_eq!(grid.color_at(8, 2), None);
}

#[test]
fn catalog_order_and_random_pick() {
    let all = tetris::piece::catalog();
    let order = [Kind::I, Kind::T, Kind::L, Kind::J, Kind::S, Kind::Z, Kind::O];
    assert_eq!(all.len(), 7);
    for (t, k) in all.iter().zip(order.iter()) {
        assert_eq!(*t, Tetromino::template(*k));
    }
}

#[test]
fn is_full_ignores_columns_above_the_field() {
    let grid = FullGrid::empty();
    assert!(!is_full(-3, 20, &grid));
    assert!(!is_full(12, 23, &grid));
}
