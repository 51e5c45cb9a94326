use snake_game::Coordinate;
use snake_game::Game;
use snake_game::GameInput;

#[test]
fn new_game_holds_a_fresh_snake_and_empty_board() {
    let g = Game::new(10, 10);
    assert_eq!(g.width, 10);
    assert_eq!(g.height, 10);
    assert_eq!(g.snake.pos, Coordinate { x: 1, y: 1 });
    assert!(g.snake.pos_history.is_empty());
    assert_eq!(g.snake.size, 3);
    assert_eq!(g.map.map_width, 10);
    assert_eq!(g.map.map_height, 10);
    assert!(g.map.map.iter().all(|row| row.iter().all(|&c| c == 0)));
    assert_eq!(g.map.food_pos, None);
}

#[test]
fn three_ticks_scenario_on_ten_by_ten() {
    let mut g = Game::new(10, 10);
    g.update(GameInput::Right);
    g.update(GameInput::Right);
    g.update(GameInput::Down);
    assert_eq!(g.snake.pos, Coordinate { x: 3, y: 2 });
    assert_eq!(g.snake.pos_history.len(), 2);
    assert_eq!(
        g.snake.pos_history,
        vec![Coordinate { x: 3, y: 1 }, Coordinate { x: 2, y: 1 }]
    );
    // The board reflects the new snake state.
    assert_eq!(g.map.map[2][3], 1);
    assert_eq!(g.map.map[1][3], 1);
    assert_eq!(g.map.map[1][2], 1);
}

#[test]
fn tick_rebuilds_the_board_with_food() {
    let mut g = Game::new(10, 10);
    g.update(GameInput::Down);
    let food = g.map.food_pos.expect("the grid has empty cells");
    assert!(food.x < 10 && food.y < 10);
    assert_eq!(g.map.map[food.y][food.x], 2);
    // Food never lands on the snake.
    assert_ne!(food, g.snake.pos);
    assert!(!g.snake.pos_history.contains(&food));
}

#[test]
fn short_circuiting_on_exit_leaves_the_game_untouched() {
    let mut g = Game::new(10, 10);
    g.update(GameInput::Right);
    g.update(GameInput::Down);

    let head = g.snake.pos;
    let history = g.snake.pos_history.clone();
    let grid = g.map.map.clone();
    let food = g.map.food_pos;

    // A caller that checks the input before stepping never mutates the
    // game, no matter how often Exit is published.
    for input in [GameInput::Exit, GameInput::Exit, GameInput::Exit] {
        if input == GameInput::Exit {
            continue;
        }
        g.update(input);
    }

    assert_eq!(g.snake.pos, head);
    assert_eq!(g.snake.pos_history, history);
    assert_eq!(g.map.map, grid);
    assert_eq!(g.map.food_pos, food);
}

#[test]
fn score_proxy_is_the_history_length() {
    let mut g = Game::new(10, 10);
    assert_eq!(g.snake.pos_history.len(), 0);
    g.update(GameInput::Right);
    assert_eq!(g.snake.pos_history.len(), 1);
    g.update(GameInput::Right);
    assert_eq!(g.snake.pos_history.len(), 2);
    g.update(GameInput::Right);
    assert_eq!(g.snake.pos_history.len(), 2);
}
