use arcade::console::Color;
use arcade::grid::Grid;
use arcade::point::{Direction, Point};
use arcade::shape::Shape;
use arcade::snake::Snake;
use rand::rngs::StdRng;
use rand::SeedableRng;

#[test]
fn points_move_one_cell_in_each_direction() {
    let p = Point::new(3, 4);

    assert_eq!(Point::new(3, 5), p.down());
    assert_eq!(Point::new(4, 4), p.right());
    assert_eq!(Point::new(2, 4), p.left());
    assert_eq!(Point::new(3, 3), p.up());
    assert_eq!(Point::new(3, 3), p.mv(&Direction::North));
    assert_eq!(Point::new(3, 5), p.mv(&Direction::South));
    assert_eq!(Point::new(4, 4), p.mv(&Direction::East));
    assert_eq!(Point::new(2, 4), p.mv(&Direction::West));
}

#[test]
fn a_new_grid_is_empty_and_set_paints_one_cell() {
    let grid = Grid::new(4, 3);
    let painted = grid.set(2, 1, Color::Red);

    assert_eq!(Color::DefaultColor, grid.cells[1][2]);
    assert_eq!(Color::Red, painted.cells[1][2]);
    for y in 0..3 {
        for x in 0..4 {
            if (x, y) != (2, 1) {
                assert_eq!(Color::DefaultColor, painted.cells[y][x]);
            }
        }
    }
}

#[test]
fn any_occupied_sees_painted_cells_only() {
    let grid = Grid::new(4, 4).set(1, 2, Color::Blue);

    assert!(grid.any_occupied(&vec![Point::new(1, 2)]));
    assert!(grid.any_occupied(&vec![Point::new(0, 0), Point::new(1, 2)]));
    assert!(!grid.any_occupied(&vec![Point::new(0, 0), Point::new(3, 3)]));
    assert!(!grid.any_occupied(&vec![]));
}

#[test]
fn out_of_board_checks_look_at_the_right_axes() {
    let grid = Grid::new(4, 3);

    assert!(grid.any_horizontal_out(&vec![Point::new(4, 0)]));
    assert!(grid.any_horizontal_out(&vec![Point::new(-1, 0)]));
    assert!(!grid.any_horizontal_out(&vec![Point::new(3, 9)]));

    assert!(grid.any_vertical_out(&vec![Point::new(0, 3)]));
    assert!(grid.any_vertical_out(&vec![Point::new(0, -1)]));
    assert!(!grid.any_vertical_out(&vec![Point::new(9, 2)]));

    assert!(grid.any_out(&vec![Point::new(9, 2)]));
    assert!(grid.any_out(&vec![Point::new(0, -1)]));
    assert!(!grid.any_out(&vec![Point::new(3, 2)]));
}

#[test]
fn pack_drops_full_rows_and_tops_up_with_empty_ones() {
    let mut grid = Grid::new(2, 3);
    // fill the middle row completely, and one cell of the bottom row
    grid = grid.set(0, 1, Color::Red).set(1, 1, Color::Red);
    grid = grid.set(0, 2, Color::Green);

    let (packed, packed_grid) = grid.pack();

    assert_eq!(1, packed);
    // the untouched top row slid down over the removed full row
    assert_eq!(Color::DefaultColor, packed_grid.cells[0][0]);
    assert_eq!(Color::DefaultColor, packed_grid.cells[1][0]);
    assert_eq!(Color::DefaultColor, packed_grid.cells[1][1]);
    assert_eq!(Color::Green, packed_grid.cells[2][0]);
    assert_eq!(Color::DefaultColor, packed_grid.cells[2][1]);
}

#[test]
fn the_five_shapes_come_in_their_colors() {
    let shapes = Shape::shapes();

    assert_eq!(5, shapes.len());
    assert_eq!(Color::Yellow, shapes[0].color);
    assert_eq!(Color::Cyan, shapes[1].color);
    assert_eq!(Color::Blue, shapes[2].color);
    assert_eq!(Color::Green, shapes[3].color);
    assert_eq!(Color::Red, shapes[4].color);
    for shape in &shapes {
        assert_eq!(4, shape.points.len());
    }
}

#[test]
fn rotating_a_shape_turns_every_point_a_quarter() {
    let bar = Shape::i();
    let upright = bar.rotate_right();

    let expected = vec![
        Point::new(0, -2),
        Point::new(0, -1),
        Point::new(0, 0),
        Point::new(0, 1),
    ];
    assert_eq!(expected, upright.points);

    let back = upright.rotate_left();
    assert_eq!(bar.points, back.points);
}

#[test]
fn four_right_turns_bring_a_shape_back() {
    let z = Shape::z();
    let turned = z.rotate_right().rotate_right().rotate_right().rotate_right();
    assert_eq!(z.points, turned.points);
}

#[test]
fn to_points_translates_by_the_pivot() {
    let o = Shape::o();
    let placed = o.to_points(5, 7);

    let expected = vec![
        Point::new(4, 7),
        Point::new(5, 7),
        Point::new(4, 8),
        Point::new(5, 8),
    ];
    assert_eq!(expected, placed);
}

#[test]
fn printing_a_shape_paints_its_cells_and_clearing_wipes_them() {
    let grid = Grid::new(10, 10);
    let o = Shape::o();

    let painted = o.print(grid, 5, 5);
    assert_eq!(Color::Yellow, painted.cells[5][4]);
    assert_eq!(Color::Yellow, painted.cells[5][5]);
    assert_eq!(Color::Yellow, painted.cells[6][4]);
    assert_eq!(Color::Yellow, painted.cells[6][5]);
    assert_eq!(Color::DefaultColor, painted.cells[5][6]);

    let wiped = o.clear(painted, 5, 5);
    for y in 0..10 {
        for x in 0..10 {
            assert_eq!(Color::DefaultColor, wiped.cells[y][x]);
        }
    }
}

#[test]
fn a_new_snake_sits_in_the_middle_with_its_food_on_the_board() {
    let mut rng = StdRng::seed_from_u64(41);
    let snake = Snake::new(10, 8, Direction::East, 5, &mut rng);

    assert_eq!(0, snake.score());
    assert_eq!(vec![Point::new(5, 4)], snake.points);
    assert_eq!(5, snake.food.len());
    for p in &snake.food {
        assert!(0 <= p.x && p.x < 10 && 0 <= p.y && p.y < 8);
    }
}

#[test]
fn a_snake_advances_and_drops_its_tail() {
    let mut rng = StdRng::seed_from_u64(43);
    let snake = Snake {
        width: 10,
        height: 10,
        direction: Direction::East,
        points: vec![Point::new(2, 2), Point::new(3, 2)],
        food: vec![],
        score: 0,
    };

    let stepped = snake.next(&mut rng).expect("free cell ahead");
    assert_eq!(vec![Point::new(3, 2), Point::new(4, 2)], stepped.points);
    assert_eq!(0, stepped.score());
    assert_eq!(*stepped.last(), Point::new(4, 2));
}

#[test]
fn a_snake_eating_food_grows_and_scores() {
    let mut rng = StdRng::seed_from_u64(47);
    let snake = Snake {
        width: 10,
        height: 10,
        direction: Direction::South,
        points: vec![Point::new(2, 2), Point::new(3, 2)],
        food: vec![Point::new(3, 2)],
        score: 0,
    };

    let stepped = snake.next(&mut rng).expect("free cell ahead");
    assert_eq!(
        vec![Point::new(2, 2), Point::new(3, 2), Point::new(3, 3)],
        stepped.points
    );
    assert_eq!(100, stepped.score());
    assert_eq!(1, stepped.food.len());
    let refill = stepped.food[0];
    assert!(0 <= refill.x && refill.x < 10 && 0 <= refill.y && refill.y < 10);
}

#[test]
fn a_snake_dies_on_the_wall_and_on_itself() {
    let mut rng = StdRng::seed_from_u64(53);
    let at_wall = Snake {
        width: 5,
        height: 5,
        direction: Direction::East,
        points: vec![Point::new(4, 2)],
        food: vec![],
        score: 0,
    };
    assert!(at_wall.next(&mut rng).is_none());

    let curled = Snake {
        width: 5,
        height: 5,
        direction: Direction::North,
        points: vec![
            Point::new(2, 1),
            Point::new(2, 2),
            Point::new(3, 2),
            Point::new(3, 1),
        ],
        food: vec![],
        score: 0,
    };
    // the head at (3, 1) would move north onto (3, 0): free; steer west onto
    // its own body at (2, 1) instead
    let steered = curled.mv(Direction::West);
    assert!(steered.next(&mut rng).is_none());
}

#[test]
fn steering_keeps_everything_but_the_direction() {
    let mut rng = StdRng::seed_from_u64(59);
    let snake = Snake::new(9, 9, Direction::North, 2, &mut rng);
    let steered = snake.mv(Direction::West);

    assert_eq!(snake.points, steered.points);
    assert_eq!(snake.food, steered.food);
    assert_eq!(snake.score(), steered.score());
    assert_eq!(Direction::West, steered.direction);
}
