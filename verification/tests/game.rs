use snake::game::{generate_food, Dir, GameState, Pos, Status, INITIAL_SNAKE_LENGTH};

fn pos(row: u16, col: u16) -> Pos {
    Pos { row, col }
}

fn running(snake: Vec<Pos>, food: Pos, dir: Dir) -> GameState {
    GameState { snake, food, dir, score: 0, status: Status::Running }
}

#[test]
fn reversal_rejected_all_directions() {
    let cases = [
        (Dir::Up, Dir::Down),
        (Dir::Down, Dir::Up),
        (Dir::Left, Dir::Right),
        (Dir::Right, Dir::Left),
    ];
    for (current, reverse) in cases {
        let mut g = running(vec![pos(10, 10)], pos(5, 5), current);
        g.apply_input(reverse);
        assert_eq!(g.dir, current);
    }
}

#[test]
fn input_accepts_orthogonal_turn() {
    let mut g = running(vec![pos(10, 10)], pos(5, 5), Dir::Right);
    g.apply_input(Dir::Up);
    assert_eq!(g.dir, Dir::Up);
    g.apply_input(Dir::Left);
    assert_eq!(g.dir, Dir::Left);
}

#[test]
fn input_keeps_same_direction() {
    let mut g = running(vec![pos(10, 10)], pos(5, 5), Dir::Right);
    g.apply_input(Dir::Right);
    assert_eq!(g.dir, Dir::Right);
}

#[test]
fn input_changes_nothing_else() {
    let mut g = running(vec![pos(10, 10), pos(10, 9)], pos(5, 5), Dir::Right);
    g.apply_input(Dir::Down);
    assert_eq!(g.snake, vec![pos(10, 10), pos(10, 9)]);
    assert_eq!(g.food, pos(5, 5));
    assert_eq!(g.score, 0);
    assert_eq!(g.status, Status::Running);
}

#[test]
fn step_plain_move() {
    let mut g = running(vec![pos(10, 9), pos(10, 8), pos(10, 7)], pos(5, 5), Dir::Right);
    g.step();
    assert_eq!(g.snake, vec![pos(10, 10), pos(10, 9), pos(10, 8)]);
    assert_eq!(g.score, 0);
    assert_eq!(g.food, pos(5, 5));
    assert_eq!(g.status, Status::Running);
}

#[test]
fn step_eats_and_grows() {
    let mut g = running(vec![pos(10, 9), pos(10, 8), pos(10, 7)], pos(10, 10), Dir::Right);
    g.step();
    assert_eq!(g.snake, vec![pos(10, 10), pos(10, 9), pos(10, 8), pos(10, 7)]);
    assert_eq!(g.score, 1);
    assert_eq!(g.status, Status::Running);
    // the resampled food is interior and off the snake it was drawn against
    assert!(g.food.row >= 1 && g.food.row <= 18);
    assert!(g.food.col >= 1 && g.food.col <= 38);
    assert!(!vec![pos(10, 9), pos(10, 8), pos(10, 7)].contains(&g.food));
}

#[test]
fn step_border_terminates() {
    let mut g = running(vec![pos(1, 10), pos(2, 10), pos(3, 10)], pos(5, 5), Dir::Up);
    g.step();
    assert_eq!(g.status, Status::Terminated);
    // the tail was popped before the check and the new head never inserted
    assert_eq!(g.snake, vec![pos(1, 10), pos(2, 10)]);
    assert_eq!(g.score, 0);
}

#[test]
fn step_border_terminates_on_every_edge() {
    let edges = [
        (pos(1, 10), Dir::Up),
        (pos(18, 10), Dir::Down),
        (pos(10, 1), Dir::Left),
        (pos(10, 38), Dir::Right),
    ];
    for (head, dir) in edges {
        let mut g = running(vec![head], pos(5, 5), dir);
        g.step();
        assert_eq!(g.status, Status::Terminated);
    }
}

#[test]
fn step_self_collision_terminates() {
    // head at (5,5) moving down into (6,5), which stays occupied after the
    // tail (7,5) is popped
    let snake = vec![pos(5, 5), pos(5, 6), pos(6, 6), pos(6, 5), pos(7, 5)];
    let mut g = running(snake, pos(15, 15), Dir::Down);
    g.step();
    assert_eq!(g.status, Status::Terminated);
    assert_eq!(g.snake, vec![pos(5, 5), pos(5, 6), pos(6, 6), pos(6, 5)]);
}

#[test]
fn step_into_departing_tail_cell_is_allowed() {
    // the tail cell (6,5) is popped before the check, so moving into it is
    // not fatal
    let snake = vec![pos(5, 5), pos(5, 6), pos(6, 6), pos(6, 5)];
    let mut g = running(snake, pos(15, 15), Dir::Down);
    g.step();
    assert_eq!(g.status, Status::Running);
    assert_eq!(g.snake, vec![pos(6, 5), pos(5, 5), pos(5, 6), pos(6, 6)]);
}

#[test]
fn generate_food_interior_and_off_snake() {
    let snake = vec![pos(10, 9), pos(10, 8), pos(10, 7)];
    for _ in 0..50 {
        let food = generate_food(&snake).expect("free cells exist");
        assert!(food.row >= 1 && food.row <= 18);
        assert!(food.col >= 1 && food.col <= 38);
        assert!(!snake.contains(&food));
    }
}

#[test]
fn generate_food_none_on_full_grid() {
    let mut snake = Vec::new();
    for row in 1..19u16 {
        for col in 1..39u16 {
            snake.push(pos(row, col));
        }
    }
    assert_eq!(generate_food(&snake), None);
}

#[test]
fn new_game_initial_state() {
    let g = GameState::new_game();
    assert_eq!(g.snake.len(), INITIAL_SNAKE_LENGTH);
    assert_eq!(g.snake, vec![pos(10, 10), pos(10, 9), pos(10, 8)]);
    assert_eq!(g.dir, Dir::Right);
    assert_eq!(g.score, 0);
    assert_eq!(g.status, Status::Running);
    assert!(g.food.row >= 1 && g.food.row <= 18);
    assert!(g.food.col >= 1 && g.food.col <= 38);
    assert!(!g.snake.contains(&g.food));
    assert!(g.is_wf());
}

#[test]
fn is_wf_rejects_bad_states() {
    // empty snake
    let g = running(vec![], pos(5, 5), Dir::Right);
    assert!(!g.is_wf());
    // a snake cell on the border ring
    let g = running(vec![pos(0, 10)], pos(5, 5), Dir::Right);
    assert!(!g.is_wf());
    // a duplicated snake cell
    let g = running(vec![pos(4, 4), pos(4, 5), pos(4, 4)], pos(5, 5), Dir::Right);
    assert!(!g.is_wf());
    // food on the border ring
    let g = running(vec![pos(10, 10)], pos(19, 5), Dir::Right);
    assert!(!g.is_wf());
}

#[test]
fn is_wf_accepts_good_state() {
    let g = running(vec![pos(10, 9), pos(10, 8), pos(10, 7)], pos(5, 5), Dir::Right);
    assert!(g.is_wf());
}

#[test]
fn two_steps_in_a_row() {
    let mut g = running(vec![pos(10, 9), pos(10, 8), pos(10, 7)], pos(5, 5), Dir::Right);
    g.step();
    g.apply_input(Dir::Down);
    g.step();
    assert_eq!(g.snake, vec![pos(11, 10), pos(10, 10), pos(10, 9)]);
    assert_eq!(g.status, Status::Running);
    assert_eq!(g.score, 0);
}
