use embedded_graphics_3ds::snake::{Apple, Direction, Game, Keys, Show, Snake, SnakeSegment};

const HIDDEN: SnakeSegment = SnakeSegment { x: 0, y: 0, visible: false };

fn seg(x: u8, y: u8) -> SnakeSegment {
    SnakeSegment { x, y, visible: true }
}

fn no_keys() -> Keys {
    Keys { select: false, start: false, up: false, right: false, down: false, left: false }
}

#[test]
fn new_snake_has_head_and_two_hidden_segments() {
    let s = Snake::new(Direction::Left);
    assert_eq!(s.segments, vec![seg(25, 15), HIDDEN, HIDDEN]);
    assert_eq!(s.direction, Direction::Left);
}

#[test]
fn tick_moves_head_and_shifts_body() {
    let mut s = Snake::new(Direction::Right);
    s.tick();
    assert_eq!(s.segments, vec![seg(26, 15), seg(25, 15), HIDDEN]);
    s.direction = Direction::Down;
    s.tick();
    assert_eq!(s.segments, vec![seg(26, 16), seg(26, 15), seg(25, 15)]);
    s.direction = Direction::Left;
    s.tick();
    assert_eq!(s.segments[0], seg(25, 16));
    s.direction = Direction::Up;
    s.tick();
    assert_eq!(s.segments[0], seg(25, 15));
}

#[test]
fn tick_of_empty_snake_does_nothing() {
    let mut s = Snake { segments: Vec::new(), direction: Direction::Up };
    s.tick();
    assert!(s.segments.is_empty());
}

#[test]
fn add_segment_appends_hidden() {
    let mut s = Snake::new(Direction::Up);
    s.add_segment();
    assert_eq!(s.segments.len(), 4);
    assert_eq!(s.segments[3], HIDDEN);
}

#[test]
fn crash_on_wall_and_on_body() {
    let s = Snake { segments: vec![seg(0, 5)], direction: Direction::Left };
    assert!(s.has_crashed());
    let s = Snake { segments: vec![seg(51, 5)], direction: Direction::Right };
    assert!(s.has_crashed());
    let s = Snake { segments: vec![seg(5, 30)], direction: Direction::Down };
    assert!(s.has_crashed());
    let s = Snake { segments: vec![seg(50, 29), seg(49, 29)], direction: Direction::Right };
    assert!(!s.has_crashed());
    let s = Snake { segments: vec![seg(5, 5), seg(5, 6), seg(5, 5)], direction: Direction::Up };
    assert!(s.has_crashed());
    let s = Snake::new(Direction::Up);
    assert!(!s.has_crashed());
}

#[test]
fn steering_ignores_reversal() {
    let mut s = Snake::new(Direction::Right);
    s.steer(false, false, false, true);
    assert_eq!(s.direction, Direction::Right);
    s.steer(true, false, false, false);
    assert_eq!(s.direction, Direction::Up);
    s.steer(false, false, true, false);
    assert_eq!(s.direction, Direction::Up);
    s.steer(false, true, false, true);
    assert_eq!(s.direction, Direction::Right);
}

#[test]
fn apple_place_maps_bytes_to_board() {
    let mut a = Apple { x: 0, y: 0 };
    a.place([0, 0]);
    assert_eq!(a, Apple { x: 1, y: 1 });
    a.place([51, 30]);
    assert_eq!(a, Apple { x: 1, y: 1 });
    a.place([50, 29]);
    assert_eq!(a, Apple { x: 50, y: 29 });
    a.place([255, 255]);
    assert_eq!(a, Apple { x: 1, y: 15 });
    a.place([103, 61]);
    assert_eq!(a, Apple { x: 1, y: 1 });
}

#[test]
fn apple_rand_lands_on_board_and_varies() {
    let mut seen = Vec::new();
    for _ in 0..40 {
        let mut a = Apple { x: 0, y: 0 };
        assert_eq!(a.rand(), Ok(()));
        assert!((1..=50).contains(&a.x) && (1..=29).contains(&a.y));
        seen.push(a);
    }
    assert!(seen.iter().any(|a| *a != seen[0]));
}

#[test]
fn game_moves_every_thirtieth_frame() {
    let mut g = Game::start(10, 10);
    for i in 1..30u8 {
        assert_eq!(g.advance(no_keys(), [0, 0, 0, 0]), Show::Unchanged);
        assert_eq!(g.frame, i);
    }
    assert_eq!(g.advance(no_keys(), [0, 0, 0, 0]), Show::Board);
    assert_eq!(g.frame, 0);
    assert_eq!(g.snake.segments[0], seg(26, 15));
}

#[test]
fn game_select_quits_without_change() {
    let mut g = Game::start(10, 10);
    let keys = Keys { select: true, ..no_keys() };
    assert_eq!(g.advance(keys, [0, 0, 0, 0]), Show::Quit);
    assert_eq!(g.frame, 0);
    assert_eq!(g.step(keys), Ok(Show::Quit));
}

#[test]
fn game_pause_toggles_with_start() {
    let mut g = Game::start(10, 10);
    g.frame = 29;
    let start = Keys { start: true, ..no_keys() };
    assert_eq!(g.advance(start, [0, 0, 0, 0]), Show::Paused);
    assert!(g.paused);
    g.frame = 29;
    assert_eq!(g.advance(start, [0, 0, 0, 0]), Show::Board);
    assert!(!g.paused);
}

#[test]
fn game_eats_apple_and_grows() {
    let mut g = Game::start(26, 15);
    assert_eq!(g.apple, Apple { x: 26, y: 15 });
    g.frame = 29;
    assert_eq!(g.advance(no_keys(), [0, 0, 7, 8]), Show::Board);
    assert_eq!(g.snake.segments.len(), 4);
    assert_eq!(g.apple, Apple { x: 7, y: 8 });
    assert!(!g.gameover);
}

#[test]
fn game_over_at_wall_then_restart() {
    let mut g = Game::start(1, 1);
    g.snake.segments = vec![seg(50, 3)];
    g.frame = 29;
    assert_eq!(g.advance(no_keys(), [0, 0, 0, 0]), Show::Board);
    assert!(g.gameover);
    g.frame = 29;
    assert_eq!(g.advance(no_keys(), [0, 0, 0, 0]), Show::GameOver);
    let start = Keys { start: true, ..no_keys() };
    assert_eq!(g.advance(start, [4, 5, 0, 0]), Show::Unchanged);
    assert!(!g.gameover);
    assert_eq!(g.apple, Apple { x: 4, y: 5 });
    assert_eq!(g.snake.segments, vec![seg(25, 15), HIDDEN, HIDDEN]);
}

#[test]
fn game_new_places_apple_on_board() {
    let g = Game::new().unwrap();
    assert!((1..=50).contains(&g.apple.x) && (1..=29).contains(&g.apple.y));
    assert_eq!(g.snake.direction, Direction::Right);
}
