use snake_game::Board;
use snake_game::Coordinate;
use snake_game::Snake;

fn snake_with(head: (usize, usize), trail: &[(usize, usize)]) -> Snake {
    Snake {
        pos: Coordinate { x: head.0, y: head.1 },
        pos_history: trail.iter().map(|&(x, y)| Coordinate { x, y }).collect(),
        size: 3,
    }
}

fn count_cells(b: &Board, val: u8) -> usize {
    b.map.iter().map(|row| row.iter().filter(|&&c| c == val).count()).sum()
}

#[test]
fn new_board_is_all_empty_without_food() {
    let b = Board::new(4, 3);
    assert_eq!(b.map_width, 4);
    assert_eq!(b.map_height, 3);
    assert_eq!(b.map.len(), 3);
    for row in &b.map {
        assert_eq!(row.len(), 4);
        assert!(row.iter().all(|&c| c == 0));
    }
    assert_eq!(b.food_pos, None);
}

#[test]
fn replace_element_changes_only_the_named_cell() {
    let mut b = Board::new(5, 5);
    b.replace_element(Coordinate { x: 2, y: 3 }, 7);
    for y in 0..5 {
        for x in 0..5 {
            let expected = if (x, y) == (2, 3) { 7 } else { 0 };
            assert_eq!(b.map[y][x], expected);
        }
    }
    assert_eq!(b.food_pos, None);
}

#[test]
fn rebuild_marks_head_and_trail_and_nothing_else() {
    let snake = snake_with((2, 1), &[(1, 1), (1, 2)]);
    let mut b = Board::new(5, 4);
    b.update(&snake);
    let segments = [(2usize, 1usize), (1, 1), (1, 2)];
    for y in 0..4 {
        for x in 0..5 {
            if segments.contains(&(x, y)) {
                assert_eq!(b.map[y][x], 1);
            } else {
                assert!(b.map[y][x] == 0 || b.map[y][x] == 2);
            }
        }
    }
}

#[test]
fn rebuild_places_exactly_one_food_on_an_empty_cell() {
    let snake = snake_with((2, 1), &[(1, 1), (1, 2)]);
    let mut b = Board::new(5, 4);
    b.update(&snake);
    assert_eq!(count_cells(&b, 2), 1);
    let food = b.food_pos.expect("an empty cell exists, so food must be placed");
    assert!(food.x < 5 && food.y < 4);
    assert_eq!(b.map[food.y][food.x], 2);
    assert_ne!(food, snake.pos);
    assert!(!snake.pos_history.contains(&food));
}

#[test]
fn rebuild_clips_out_of_bounds_positions() {
    // The movement clamp lets the head sit at (width, height); a rebuild
    // must skip such positions instead of indexing outside the grid.
    let snake = snake_with((5, 4), &[(5, 3), (4, 3)]);
    let mut b = Board::new(5, 4);
    b.update(&snake);
    assert_eq!(count_cells(&b, 1), 1);
    assert_eq!(b.map[3][4], 1);
}

#[test]
fn rebuild_twice_marks_the_same_segment_set() {
    let snake = snake_with((3, 3), &[(3, 2), (2, 2)]);
    let mut b1 = Board::new(6, 6);
    let mut b2 = Board::new(6, 6);
    b1.update(&snake);
    b2.update(&snake);
    for y in 0..6 {
        for x in 0..6 {
            assert_eq!(b1.map[y][x] == 1, b2.map[y][x] == 1);
        }
    }
}

#[test]
fn full_board_reports_no_food_placement() {
    // A single-cell grid wholly covered by the snake: no empty cell is
    // left, so the rebuild must signal that instead of hanging.
    let snake = snake_with((0, 0), &[]);
    let mut b = Board::new(1, 1);
    b.update(&snake);
    assert_eq!(b.food_pos, None);
    assert_eq!(b.map[0][0], 1);
    assert_eq!(count_cells(&b, 2), 0);
}

#[test]
fn single_empty_cell_receives_the_food() {
    // On a 2x1 grid with the head on (0, 0), the sampler has exactly one
    // empty cell to choose from, so the food position is deterministic.
    let snake = snake_with((0, 0), &[]);
    let mut b = Board::new(2, 1);
    b.update(&snake);
    assert_eq!(b.food_pos, Some(Coordinate { x: 1, y: 0 }));
    assert_eq!(b.map[0][0], 1);
    assert_eq!(b.map[0][1], 2);
}

#[test]
fn spawn_food_alone_keeps_the_grid_and_picks_an_empty_cell() {
    let mut b = Board::new(3, 3);
    b.replace_element(Coordinate { x: 0, y: 0 }, 1);
    let grid_before = b.map.clone();
    b.spawn_food();
    assert_eq!(b.map, grid_before);
    let food = b.food_pos.expect("eight empty cells exist");
    assert!(food.x < 3 && food.y < 3);
    assert_eq!(b.map[food.y][food.x], 0);
}
