use snake_game::draw::to_coord_u32;
use snake_game::game::Game;
use snake_game::snake::{Block, Direction, Snake};

/// One tick long enough to trigger a simulation step (0.11 s).
const STEP_TICK: u64 = 110_000;

fn body_of(game: &Game) -> Vec<Block> {
    game.snake_blocks().clone()
}

/// Drive a fresh 20x20 game onto its food at (4, 6): two cycles of a down
/// key press (which steps at once) followed by a step tick.
fn eat_first_food(game: &mut Game) {
    game.key_pressed(Some(Direction::Down));
    game.update(STEP_TICK);
    game.key_pressed(Some(Direction::Down));
    game.update(STEP_TICK);
}

#[test]
fn fresh_game_state() {
    let game = Game::new(20, 20);
    assert_eq!(
        body_of(&game),
        vec![
            Block { x: 4, y: 2 },
            Block { x: 3, y: 2 },
            Block { x: 2, y: 2 }
        ]
    );
    assert_eq!(game.snake_direction(), Direction::Right);
    assert!(game.food_exists());
    assert_eq!(game.food_position(), (4, 6));
    assert_eq!(game.score(), 10);
    assert!(!game.is_game_over());
    assert_eq!(game.waiting_micros(), 0);
}

#[test]
fn tick_advances_snake() {
    let mut game = Game::new(20, 20);
    game.update(STEP_TICK);
    assert_eq!(
        body_of(&game),
        vec![
            Block { x: 5, y: 2 },
            Block { x: 4, y: 2 },
            Block { x: 3, y: 2 }
        ]
    );
    assert_eq!(game.waiting_micros(), 0);
    assert!(!game.is_game_over());
}

#[test]
fn short_tick_does_not_step() {
    let mut game = Game::new(20, 20);
    game.update(50_000);
    assert_eq!(body_of(&game)[0], Block { x: 4, y: 2 });
    assert_eq!(game.waiting_micros(), 50_000);
}

#[test]
fn key_up_turns_snake() {
    let mut game = Game::new(20, 20);
    game.key_pressed(Some(Direction::Up));
    game.update(STEP_TICK);
    assert_eq!(body_of(&game)[0], Block { x: 4, y: 1 });
    assert_eq!(game.snake_direction(), Direction::Up);
}

#[test]
fn reversal_is_ignored() {
    let mut game = Game::new(20, 20);
    game.key_pressed(Some(Direction::Left));
    assert_eq!(body_of(&game)[0], Block { x: 4, y: 2 });
    assert_eq!(game.snake_direction(), Direction::Right);
    assert_eq!(game.score(), 10);
    game.update(STEP_TICK);
    assert_eq!(body_of(&game)[0], Block { x: 5, y: 2 });
    assert_eq!(game.snake_direction(), Direction::Right);
}

#[test]
fn non_directional_key_is_ignored() {
    let mut game = Game::new(20, 20);
    game.key_pressed(None);
    assert_eq!(body_of(&game)[0], Block { x: 4, y: 2 });
    assert_eq!(game.waiting_micros(), 0);
}

#[test]
fn wall_collision_ends_game() {
    let mut game = Game::new(20, 20);
    for _ in 0..14 {
        game.update(STEP_TICK);
    }
    assert_eq!(body_of(&game)[0], Block { x: 18, y: 2 });
    assert!(!game.is_game_over());
    game.update(STEP_TICK);
    assert!(game.is_game_over());
    assert_eq!(body_of(&game)[0], Block { x: 18, y: 2 });
    assert_eq!(body_of(&game).len(), 3);
}

#[test]
fn eating_grows_and_scores() {
    let mut game = Game::new(20, 20);
    eat_first_food(&mut game);
    assert!(!game.food_exists());
    assert_eq!(game.score(), 11);
    assert_eq!(
        body_of(&game),
        vec![
            Block { x: 4, y: 6 },
            Block { x: 4, y: 5 },
            Block { x: 4, y: 4 },
            Block { x: 4, y: 3 }
        ]
    );
    assert!(!game.is_game_over());
}

#[test]
fn tail_passage_is_legal() {
    let mut game = Game::new(20, 20);
    eat_first_food(&mut game);
    // Walk the length-4 snake around a unit square; the last press targets
    // the cell its own rear segment still occupies.
    game.key_pressed(Some(Direction::Right));
    game.key_pressed(Some(Direction::Up));
    assert_eq!(*body_of(&game).last().unwrap(), Block { x: 4, y: 5 });
    game.key_pressed(Some(Direction::Left));
    assert!(!game.is_game_over());
    assert_eq!(
        body_of(&game),
        vec![
            Block { x: 4, y: 5 },
            Block { x: 5, y: 5 },
            Block { x: 5, y: 6 },
            Block { x: 4, y: 6 }
        ]
    );
}

#[test]
fn input_ignored_after_game_over() {
    let mut game = Game::new(20, 20);
    game.key_pressed(Some(Direction::Up));
    game.key_pressed(Some(Direction::Up));
    assert!(game.is_game_over());
    let before = body_of(&game);
    game.key_pressed(Some(Direction::Down));
    assert_eq!(body_of(&game), before);
    assert!(game.is_game_over());
}

#[test]
fn restart_after_game_over() {
    let mut game = Game::new(20, 20);
    game.key_pressed(Some(Direction::Up));
    game.key_pressed(Some(Direction::Up));
    assert!(game.is_game_over());
    game.update(500_000);
    assert!(game.is_game_over());
    assert_eq!(game.waiting_micros(), 500_000);
    game.update(600_000);
    assert!(!game.is_game_over());
    assert_eq!(game.score(), 0);
    assert!(game.food_exists());
    assert_eq!(game.food_position(), (6, 4));
    assert_eq!(game.waiting_micros(), 0);
    assert_eq!(
        body_of(&game),
        vec![
            Block { x: 4, y: 2 },
            Block { x: 3, y: 2 },
            Block { x: 2, y: 2 }
        ]
    );
    assert_eq!(game.snake_direction(), Direction::Right);
}

#[test]
fn score_never_drops_without_restart() {
    let mut game = Game::new(20, 20);
    let mut last = game.score();
    for _ in 0..30 {
        game.update(STEP_TICK);
        if game.is_game_over() {
            break;
        }
        assert!(game.score() >= last);
        last = game.score();
    }
}

#[test]
fn spawned_food_is_free_and_inside() {
    for _ in 0..10 {
        let mut game = Game::new(20, 20);
        eat_first_food(&mut game);
        assert!(!game.food_exists());
        // This tick replenishes the food at a random free cell, then steps.
        game.update(STEP_TICK);
        assert!(!game.is_game_over());
        if game.food_exists() {
            let (fx, fy) = game.food_position();
            assert!((1..=18).contains(&fx));
            assert!((1..=18).contains(&fy));
            let body = body_of(&game);
            for block in &body[..body.len() - 1] {
                assert!(!(block.x == fx && block.y == fy));
            }
        }
    }
}

#[test]
fn direction_opposites() {
    assert_eq!(Direction::Up.opposite(), Direction::Down);
    assert_eq!(Direction::Down.opposite(), Direction::Up);
    assert_eq!(Direction::Left.opposite(), Direction::Right);
    assert_eq!(Direction::Right.opposite(), Direction::Left);
}

#[test]
fn snake_construction_and_moves() {
    let mut snake = Snake::new(2, 2);
    assert_eq!(snake.head_position(), (4, 2));
    assert_eq!(snake.head_direction(), Direction::Right);
    assert_eq!(snake.next_head(None), (5, 2));
    assert_eq!(snake.next_head(Some(Direction::Up)), (4, 1));
    snake.move_forward(None);
    assert_eq!(
        snake.blocks().clone(),
        vec![
            Block { x: 5, y: 2 },
            Block { x: 4, y: 2 },
            Block { x: 3, y: 2 }
        ]
    );
    snake.restore_tail();
    assert_eq!(
        snake.blocks().clone(),
        vec![
            Block { x: 5, y: 2 },
            Block { x: 4, y: 2 },
            Block { x: 3, y: 2 },
            Block { x: 2, y: 2 }
        ]
    );
}

#[test]
fn overlap_exempts_hindmost_cell() {
    let snake = Snake::new(2, 2);
    assert!(snake.overlap_tail(4, 2));
    assert!(snake.overlap_tail(3, 2));
    assert!(!snake.overlap_tail(2, 2));
    assert!(!snake.overlap_tail(9, 9));
}

#[test]
fn grid_to_pixel_conversion() {
    assert_eq!(to_coord_u32(0), 0);
    assert_eq!(to_coord_u32(20), 500);
    assert_eq!(to_coord_u32(-3), 0);
    assert_eq!(to_coord_u32(i32::MAX), u32::MAX);
}
