use arcade::console::Color;
use arcade::grid::Grid;
use arcade::point::Point;
use arcade::shape::Shape;
use arcade::tetris::{Piece, Tetris, STATE_INIT, STATE_NEW_PIECE, STATE_NORMAL};
use rand::rngs::StdRng;
use rand::SeedableRng;

fn count_colored(grid: &Grid) -> usize {
    grid.cells
        .iter()
        .map(|row| row.iter().filter(|c| **c != Color::DefaultColor).count())
        .sum()
}

#[test]
fn a_new_game_waits_on_an_empty_board() {
    let mut rng = StdRng::seed_from_u64(61);
    let game = Tetris::new(10, 20, &mut rng);

    assert_eq!(STATE_INIT, game.state);
    assert_eq!(0, game.score());
    assert_eq!(0, count_colored(&game.grid));
    assert_eq!(Point::new(5, 2), game.current_piece.position);
}

#[test]
fn the_first_tick_paints_the_first_piece() {
    let mut rng = StdRng::seed_from_u64(67);
    let game = Tetris::new(10, 20, &mut rng);

    let started = game.next(&mut rng).expect("setup cannot end the game");
    assert_eq!(STATE_NORMAL, started.state);
    assert_eq!(4, count_colored(&started.grid));
    assert_eq!(game.current_piece.position, started.current_piece.position);
}

#[test]
fn a_falling_piece_descends_one_row_per_tick() {
    let mut rng = StdRng::seed_from_u64(71);
    let game = Tetris::new(10, 20, &mut rng);
    let started = game.next(&mut rng).unwrap();

    let stepped = started.next(&mut rng).expect("plenty of room below");
    assert_eq!(STATE_NORMAL, stepped.state);
    assert_eq!(
        started.current_piece.position.y + 1,
        stepped.current_piece.position.y
    );
    assert_eq!(4, count_colored(&stepped.grid));
}

#[test]
fn moving_against_the_wall_changes_nothing() {
    let game = Tetris {
        state: STATE_NORMAL,
        grid: Grid::new(6, 8),
        current_piece: Piece { shape: Shape::o(), position: Point::new(1, 2) },
        next_shape: Shape::i(),
        score: 0,
    };

    // the o-shape occupies columns 0 and 1 at pivot 1: one step left is off
    // the board, so the move is refused
    let nudged = game.left();
    assert_eq!(game.current_piece.position, nudged.current_piece.position);

    let moved = game.right();
    assert_eq!(Point::new(2, 2), moved.current_piece.position);
}

#[test]
fn landing_on_a_full_row_packs_it_and_scores() {
    let mut grid = Grid::new(5, 6);
    for x in 0..5 {
        grid = grid.set(x, 5, Color::Red);
    }
    let game = Tetris {
        state: STATE_NORMAL,
        grid,
        current_piece: Piece { shape: Shape::o(), position: Point::new(2, 2) },
        next_shape: Shape::i(),
        score: 0,
    };

    let landed = game.fall();
    assert_eq!(STATE_NEW_PIECE, landed.state);
    assert_eq!(1000, landed.score());
    // the full bottom row is gone; the landed piece slid down one row
    for x in 0..5usize {
        assert_eq!(Color::DefaultColor, landed.grid.cells[0][x]);
    }
    for y in [4usize, 5] {
        assert_eq!(Color::Yellow, landed.grid.cells[y][1]);
        assert_eq!(Color::Yellow, landed.grid.cells[y][2]);
    }
    assert_eq!(4, count_colored(&landed.grid));

    let mut rng = StdRng::seed_from_u64(79);
    let respawned = landed.next(&mut rng).expect("room to spawn");
    assert_eq!(STATE_NORMAL, respawned.state);
    assert_eq!(1000, respawned.score());
}

#[test]
fn a_blocked_spawn_ends_the_game() {
    let mut rng = StdRng::seed_from_u64(83);
    let grid = Grid::new(6, 8).set(3, 2, Color::Green);
    let game = Tetris {
        state: STATE_NEW_PIECE,
        grid,
        current_piece: Piece { shape: Shape::o(), position: Point::new(3, 2) },
        next_shape: Shape::o(),
        score: 500,
    };

    assert!(game.next(&mut rng).is_none());
}

#[test]
fn rotating_a_piece_in_the_open_turns_its_shape() {
    let game = Tetris {
        state: STATE_NORMAL,
        grid: Grid::new(10, 10),
        current_piece: Piece { shape: Shape::i(), position: Point::new(5, 5) },
        next_shape: Shape::o(),
        score: 0,
    };

    let turned = game.rotate_right();
    let expected = vec![
        Point::new(0, -2),
        Point::new(0, -1),
        Point::new(0, 0),
        Point::new(0, 1),
    ];
    assert_eq!(expected, turned.current_piece.shape.points);
    assert_eq!(Point::new(5, 5), turned.current_piece.position);
}
