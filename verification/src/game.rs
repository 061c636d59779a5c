//! Core state and simulation rules of the snake game: a snake moves on a
//! bounded grid, eats food, grows, and the game ends when the snake's head
//! reaches the border ring or its own body.

use vstd::prelude::*;

verus! {

/// Number of columns of the grid, border columns included.
pub const SCREEN_WIDTH: u16 = 40;

/// Number of rows of the grid, border rows included.
pub const SCREEN_HEIGHT: u16 = 20;

/// Length of the snake when a game starts.
pub const INITIAL_SNAKE_LENGTH: usize = 3;

/// A cell of the grid: 0-indexed row and column.
#[derive(Clone, Copy, PartialEq, Eq, Structural, Debug)]
pub struct Pos {
    pub row: u16,
    pub col: u16,
}

/// The direction the snake moves in.
#[derive(Clone, Copy, PartialEq, Eq, Structural, Debug)]
pub enum Dir {
    Up,
    Down,
    Left,
    Right,
}

/// Whether the game is still going on.
#[derive(Clone, Copy, PartialEq, Eq, Structural, Debug)]
pub enum Status {
    Running,
    Terminated,
}

/// A cell strictly inside the border ring.
pub open spec fn interior(p: Pos) -> bool {
    &&& 1 <= p.row < SCREEN_HEIGHT - 1
    &&& 1 <= p.col < SCREEN_WIDTH - 1
}

/// A cell on the impassable border ring (for cells within the grid bounds).
pub open spec fn on_border(p: Pos) -> bool {
    ||| p.row == 0
    ||| p.row == SCREEN_HEIGHT - 1
    ||| p.col == 0
    ||| p.col == SCREEN_WIDTH - 1
}

/// The direct reverse of a direction.
pub open spec fn opposite_of(d: Dir) -> Dir {
    match d {
        Dir::Up => Dir::Down,
        Dir::Down => Dir::Up,
        Dir::Left => Dir::Right,
        Dir::Right => Dir::Left,
    }
}

/// The cell one step from `head` in direction `d`.
///
/// Meaningful for interior heads; the casts wrap only on heads that the
/// game never produces.
pub open spec fn next_head_of(head: Pos, d: Dir) -> Pos {
    match d {
        Dir::Up => Pos { row: (head.row - 1) as u16, col: head.col },
        Dir::Down => Pos { row: (head.row + 1) as u16, col: head.col },
        Dir::Left => Pos { row: head.row, col: (head.col - 1) as u16 },
        Dir::Right => Pos { row: head.row, col: (head.col + 1) as u16 },
    }
}

/// Some interior cell is not occupied by the snake, so food can be placed.
pub open spec fn has_free_cell(snake: Seq<Pos>) -> bool {
    exists|p: Pos| interior(p) && !snake.contains(p)
}

/// The direct reverse of a direction, as executable code.
pub fn opposite(d: Dir) -> (r: Dir)
    ensures
        r == opposite_of(d),
{
    match d {
        Dir::Up => Dir::Down,
        Dir::Down => Dir::Up,
        Dir::Left => Dir::Right,
        Dir::Right => Dir::Left,
    }
}

/// How many random draws food placement makes before it falls back to a
/// deterministic scan of the grid.
pub const MAX_FOOD_ATTEMPTS: u32 = 1000;

/// Whether `p` is one of the snake's occupied cells.
pub fn snake_contains(snake: &Vec<Pos>, p: Pos) -> (b: bool)
    ensures
        b == snake@.contains(p),
{
    let mut i: usize = 0;
    while i < snake.len()
        invariant
            i <= snake@.len(),
            forall|j: int| 0 <= j < i ==> snake@[j] != p,
        decreases snake@.len() - i,
    {
        if snake[i] == p {
            assert(snake@[i as int] == p);
            return true;
        }
        i = i + 1;
    }
    false
}

/// The first interior cell, scanned row by row, that the snake does not
/// occupy; `None` only when the snake covers every interior cell.
fn scan_free(snake: &Vec<Pos>) -> (r: Option<Pos>)
    ensures
        (match r {
            Some(p) => interior(p) && !snake@.contains(p),
            None => !has_free_cell(snake@),
        }),
{
    let mut row: u16 = 1;
    while row < SCREEN_HEIGHT - 1
        invariant
            1 <= row <= SCREEN_HEIGHT - 1,
            forall|p: Pos| interior(p) && p.row < row ==> snake@.contains(p),
        decreases SCREEN_HEIGHT - 1 - row,
    {
        let mut col: u16 = 1;
        while col < SCREEN_WIDTH - 1
            invariant
                1 <= row < SCREEN_HEIGHT - 1,
                1 <= col <= SCREEN_WIDTH - 1,
                forall|p: Pos| interior(p) && p.row < row ==> snake@.contains(p),
                forall|p: Pos| interior(p) && p.row == row && p.col < col ==> snake@.contains(p),
            decreases SCREEN_WIDTH - 1 - col,
        {
            let p = Pos { row, col };
            if !snake_contains(snake, p) {
                return Some(p);
            }
            col = col + 1;
        }
        row = row + 1;
    }
    proof {
        if has_free_cell(snake@) {
            let p = choose|p: Pos| interior(p) && !snake@.contains(p);
            assert(snake@.contains(p));
        }
    }
    None
}

/// A fresh food cell: an interior cell that the snake does not occupy,
/// drawn at random with rejection of occupied cells. After
/// `MAX_FOOD_ATTEMPTS` rejected draws the choice falls back to a scan of
/// the grid, so the call always finishes; `None` comes back only when the
/// snake occupies every interior cell.
pub fn generate_food(snake: &Vec<Pos>) -> (r: Option<Pos>)
    ensures
        (match r {
            Some(p) => interior(p) && !snake@.contains(p),
            None => !has_free_cell(snake@),
        }),
{
    let mut attempts: u32 = 0;
    while attempts < MAX_FOOD_ATTEMPTS
        invariant
            attempts <= MAX_FOOD_ATTEMPTS,
        decreases MAX_FOOD_ATTEMPTS - attempts,
    {
        let row = crate::rng::random_in_range(1, SCREEN_HEIGHT - 1);
        let col = crate::rng::random_in_range(1, SCREEN_WIDTH - 1);
        let p = Pos { row, col };
        if !snake_contains(snake, p) {
            return Some(p);
        }
        attempts = attempts + 1;
    }
    scan_free(snake)
}

/// The whole state of one game.
///
/// The snake is ordered head first; the tail is the last element.
#[derive(Debug)]
pub struct GameState {
    pub snake: Vec<Pos>,
    pub food: Pos,
    pub dir: Dir,
    pub score: u64,
    pub status: Status,
}

impl GameState {
    /// Well-formedness of a running game: the snake is non-empty, lies
    /// strictly inside the border, never overlaps itself, and the food is
    /// an interior cell.
    pub open spec fn wf(self) -> bool {
        &&& self.snake@.len() >= 1
        &&& forall|i: int| 0 <= i < self.snake@.len() ==> interior(self.snake@[i])
        &&& self.snake@.no_duplicates()
        &&& interior(self.food)
    }

    /// The cell the head would move into on the next simulation step.
    pub open spec fn next_head(self) -> Pos {
        next_head_of(self.snake@[0], self.dir)
    }

    /// The step about to run eats the food: the cell the head moves into is
    /// the food cell.
    pub open spec fn eats(self) -> bool {
        self.next_head() == self.food
    }

    /// The snake body that the terminal check of a step runs against: the
    /// whole snake when the step eats, the snake with its tail cell already
    /// removed when it does not.
    pub open spec fn checked_body(self) -> Seq<Pos> {
        if self.eats() {
            self.snake@
        } else {
            self.snake@.drop_last()
        }
    }

    /// The step about to run is fatal: the new head lands on the border
    /// ring or on the checked body.
    pub open spec fn hits(self) -> bool {
        ||| on_border(self.next_head())
        ||| self.checked_body().contains(self.next_head())
    }

    /// Take one sampled key press into account: the new direction is the
    /// candidate, unless the candidate is the direct reverse of the current
    /// direction, which is rejected. Nothing else changes.
    pub fn apply_input(&mut self, candidate: Dir)
        ensures
            final(self).dir == (if candidate == opposite_of(old(self).dir) {
                old(self).dir
            } else {
                candidate
            }),
            candidate == opposite_of(old(self).dir) ==> final(self).dir == old(self).dir,
            final(self).snake@ == old(self).snake@,
            final(self).food == old(self).food,
            final(self).score == old(self).score,
            final(self).status == old(self).status,
    {
        if opposite(candidate) != self.dir {
            self.dir = candidate;
        }
    }

    /// A fresh game: a three-cell snake lying horizontally at the centre of
    /// the grid, head to the right, food somewhere off the snake, score
    /// zero, running.
    pub fn new_game() -> (g: GameState)
        ensures
            g.wf(),
            g.status == Status::Running,
            g.score == 0,
            g.dir == Dir::Right,
            g.snake@.len() == INITIAL_SNAKE_LENGTH,
            forall|i: int|
                0 <= i < INITIAL_SNAKE_LENGTH ==> g.snake@[i] == (Pos {
                    row: SCREEN_HEIGHT / 2,
                    col: (SCREEN_WIDTH / 4 - i) as u16,
                }),
            !g.snake@.contains(g.food),
    {
        let mut snake: Vec<Pos> = Vec::new();
        let mut i: u16 = 0;
        while i < 3
            invariant
                i <= 3,
                snake@.len() == i,
                forall|j: int|
                    0 <= j < i ==> snake@[j] == (Pos {
                        row: SCREEN_HEIGHT / 2,
                        col: (SCREEN_WIDTH / 4 - j) as u16,
                    }),
            decreases 3 - i,
        {
            snake.push(Pos { row: SCREEN_HEIGHT / 2, col: SCREEN_WIDTH / 4 - i });
            i = i + 1;
        }
        proof {
            let w = Pos { row: 1, col: 1 };
            if snake@.contains(w) {
                let k = choose|k: int| 0 <= k < snake@.len() && snake@[k] == w;
                assert(snake@[k].row == SCREEN_HEIGHT / 2);
            }
            assert(interior(w) && !snake@.contains(w));
            assert(has_free_cell(snake@));
        }
        let food = match generate_food(&snake) {
            Some(f) => f,
            // unreachable: the grid has free interior cells
            None => (Pos { row: 1, col: 1 }),
        };
        GameState { snake, food, dir: Dir::Right, score: 0, status: Status::Running }
    }

    /// Whether the state is well formed, decided at run time, so that
    /// unverified callers can test it before asking for a step.
    pub fn is_wf(&self) -> (b: bool)
        ensures
            b == self.wf(),
    {
        if self.snake.len() == 0 {
            return false;
        }
        if !(1 <= self.food.row && self.food.row < SCREEN_HEIGHT - 1 && 1 <= self.food.col
            && self.food.col < SCREEN_WIDTH - 1) {
            return false;
        }
        let mut i: usize = 0;
        while i < self.snake.len()
            invariant
                i <= self.snake@.len(),
                forall|k: int| 0 <= k < i ==> interior(self.snake@[k]),
                forall|k: int, l: int|
                    0 <= k < l < self.snake@.len() && k < i ==> self.snake@[k] != self.snake@[l],
                interior(self.food),
            decreases self.snake@.len() - i,
        {
            let p = self.snake[i];
            if !(1 <= p.row && p.row < SCREEN_HEIGHT - 1 && 1 <= p.col && p.col < SCREEN_WIDTH
                - 1) {
                assert(!interior(self.snake@[i as int]));
                return false;
            }
            let mut j: usize = i + 1;
            while j < self.snake.len()
                invariant
                    i < self.snake@.len(),
                    i + 1 <= j <= self.snake@.len(),
                    forall|l: int| i < l < j ==> self.snake@[i as int] != self.snake@[l],
                decreases self.snake@.len() - j,
            {
                if self.snake[i] == self.snake[j] {
                    assert(self.snake@[i as int] == self.snake@[j as int]);
                    assert(!self.snake@.no_duplicates());
                    return false;
                }
                j = j + 1;
            }
            i = i + 1;
        }
        proof {
            assert forall|a: int, b: int|
                0 <= a < self.snake@.len() && 0 <= b < self.snake@.len() && a
                    != b implies self.snake@[a] != self.snake@[b] by {
                if a < b {
                    assert(self.snake@[a] != self.snake@[b]);
                } else {
                    assert(self.snake@[b] != self.snake@[a]);
                }
            }
            assert(self.snake@.no_duplicates());
        }
        true
    }

    /// One simulation step, exactly in the order the game runs it: compute
    /// the new head one cell from the current head in the current
    /// direction; on eating, count the point and resample the food against
    /// the present snake; otherwise drop the tail cell; then run the
    /// terminal check of the new head against the border ring and the
    /// remaining body, and only when it passes insert the new head.
    pub fn step(&mut self)
        requires
            old(self).wf(),
            old(self).status == Status::Running,
            old(self).score < u64::MAX,
        ensures
            final(self).dir == old(self).dir,
            // one point per food eaten
            final(self).score == (if old(self).eats() {
                old(self).score + 1
            } else {
                old(self).score as int
            }),
            // resampled food never lies on the snake it was drawn against
            old(self).eats() && has_free_cell(old(self).snake@) ==> interior(final(self).food)
                && !old(self).snake@.contains(final(self).food),
            old(self).eats() && !has_free_cell(old(self).snake@)
                ==> final(self).food == old(self).food
                && final(self).status == Status::Terminated,
            !old(self).eats() ==> final(self).food == old(self).food,
            // the game ends exactly when the new head hits the border or the body
            final(self).status == (if old(self).hits() {
                Status::Terminated
            } else {
                Status::Running
            }),
            on_border(old(self).next_head()) ==> final(self).status == Status::Terminated,
            old(self).checked_body().contains(old(self).next_head()) ==> final(self).status
                == Status::Terminated,
            // on termination the new head is never inserted
            final(self).status == Status::Terminated
                ==> final(self).snake@ == old(self).checked_body(),
            // otherwise the new head goes in front of the checked body
            final(self).status == Status::Running
                ==> final(self).snake@ == old(self).checked_body().insert(0, old(self).next_head()),
            // eating grows the snake by one cell, a plain move keeps its length
            old(self).eats() && final(self).status == Status::Running ==> final(self).snake@.len()
                == old(self).snake@.len() + 1,
            !old(self).eats() && final(self).status == Status::Running
                ==> final(self).snake@.len() == old(self).snake@.len(),
            final(self).status == Status::Running ==> final(self).wf(),
    {
        let head = self.snake[0];
        let new_head = match self.dir {
            Dir::Up => Pos { row: head.row - 1, col: head.col },
            Dir::Down => Pos { row: head.row + 1, col: head.col },
            Dir::Left => Pos { row: head.row, col: head.col - 1 },
            Dir::Right => Pos { row: head.row, col: head.col + 1 },
        };
        assert(new_head == old(self).next_head());
        if new_head == self.food {
            self.score = self.score + 1;
            match generate_food(&self.snake) {
                Some(f) => { self.food = f },
                None => {},
            }
        } else {
            let _tail = self.snake.pop();
        }
        let hit_body = snake_contains(&self.snake, new_head);
        let hit_border = new_head.row == 0 || new_head.row == SCREEN_HEIGHT - 1 || new_head.col
            == 0 || new_head.col == SCREEN_WIDTH - 1;
        proof {
            // with no free cell left, an eating step must hit: an interior
            // new head lies on the fully packed snake
            if old(self).eats() && !has_free_cell(old(self).snake@) && !on_border(new_head) {
                assert(interior(new_head));
                assert(old(self).snake@.contains(new_head));
            }
        }
        if hit_body || hit_border {
            self.status = Status::Terminated;
        } else {
            proof {
                old(self).checked_body().insert_ensures(0, new_head);
                assert(interior(new_head));
            }
            self.snake.insert(0, new_head);
            proof {
                let s = self.snake@;
                let body = old(self).checked_body();
                assert forall|a: int, b: int|
                    0 <= a < s.len() && 0 <= b < s.len() && a != b implies s[a] != s[b] by {
                    if a == 0 {
                        assert(s[b] == body[b - 1]);
                        assert(body[b - 1] != new_head);
                    } else if b == 0 {
                        assert(s[a] == body[a - 1]);
                        assert(body[a - 1] != new_head);
                    } else {
                        assert(s[a] == body[a - 1]);
                        assert(s[b] == body[b - 1]);
                    }
                }
                assert(s.no_duplicates());
            }
        }
    }
}

} // verus!
