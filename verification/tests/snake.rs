use transport_io::food::Food;
use transport_io::grid::{Direction, GridPosition};
use transport_io::snake::{Ate, Segment, Snake};

#[test]
fn snake_starts_heading_right() {
    let snake = Snake::new(GridPosition::new(5, 5));
    assert_eq!(snake.head.pos, GridPosition::new(5, 5));
    assert_eq!(snake.body.len(), 1);
    assert_eq!(snake.body[0].pos, GridPosition::new(4, 5));
    assert_eq!(snake.dir, Direction::Right);
    assert!(snake.ate.is_none());
}

#[test]
fn snake_chases_and_eats_food() {
    let mut snake = Snake::new(GridPosition::new(5, 5));
    let food = Food::new(GridPosition::new(5, 3));
    snake.update(&food);
    assert_eq!(snake.dir, Direction::Up);
    assert_eq!(snake.head.pos, GridPosition::new(5, 4));
    assert!(snake.ate.is_none());
    assert_eq!(snake.body.len(), 1);
    snake.update(&food);
    assert_eq!(snake.head.pos, GridPosition::new(5, 3));
    assert_eq!(snake.ate, Some(Ate::Food));
    assert_eq!(snake.body.len(), 2);
    assert!(snake.eats(&food));
    assert!(!snake.eats_self());
}

#[test]
fn snake_wraps_around_the_edge() {
    let mut snake = Snake::new(GridPosition::new(29, 0));
    let food = Food::new(GridPosition::new(29, 0));
    snake.dir = Direction::Right;
    snake.update(&food);
    assert_eq!(snake.head.pos, GridPosition::new(0, 0));
    assert_eq!(GridPosition::new_from_move(GridPosition::new(0, 0), Direction::Up), GridPosition::new(0, 19));
}

#[test]
fn snake_bites_itself() {
    let mut snake = Snake::new(GridPosition::new(5, 5));
    snake.body.push_front(Segment::new(GridPosition::new(6, 5)));
    snake.update(&Food::new(GridPosition::new(9, 5)));
    assert_eq!(snake.ate, Some(Ate::Itself));
}

#[test]
fn snake_keydir_queues_and_refuses_reversal() {
    let mut snake = Snake::new(GridPosition::new(5, 5));
    snake.keydir(Direction::Left);
    assert_eq!(snake.dir, Direction::Right);
    snake.keydir(Direction::Up);
    assert_eq!(snake.dir, Direction::Up);
    snake.keydir(Direction::Left);
    assert_eq!(snake.next_dir, Some(Direction::Left));
    assert_eq!(snake.dir, Direction::Up);
}
