//! The rules of a snake game played on a 50 by 29 board of character cells.

use vstd::prelude::*;

verus! {

/// The way the snake's head moves on each tick.
#[derive(Clone, Copy, Debug, PartialEq, Eq, Structural)]
pub enum Direction {
    Up,
    Right,
    Down,
    Left,
}

/// One cell of the snake. A hidden segment has not yet been placed: it takes
/// the place of the one before it on the next tick.
#[derive(Clone, Copy, Debug, PartialEq, Eq, Structural)]
pub struct SnakeSegment {
    pub x: u8,
    pub y: u8,
    pub visible: bool,
}

/// The snake: its segments, head first, and the way it is heading.
pub struct Snake {
    pub segments: Vec<SnakeSegment>,
    pub direction: Direction,
}

/// The segment that a new snake starts with, near the middle of the board.
pub open spec fn start_segment() -> SnakeSegment {
    SnakeSegment { x: 25, y: 15, visible: true }
}

/// The segment appended when the snake grows.
pub open spec fn hidden_segment() -> SnakeSegment {
    SnakeSegment { x: 0, y: 0, visible: false }
}

/// Whether segment `s` can move one cell towards `d` without leaving the
/// range of its coordinates.
pub open spec fn can_step(s: SnakeSegment, d: Direction) -> bool {
    match d {
        Direction::Up => s.y > 0,
        Direction::Right => s.x < 255,
        Direction::Down => s.y < 255,
        Direction::Left => s.x > 0,
    }
}

/// Segment `s` moved one cell towards `d`.
pub open spec fn stepped(s: SnakeSegment, d: Direction) -> SnakeSegment {
    match d {
        Direction::Up => SnakeSegment { x: s.x, y: (s.y - 1) as u8, visible: s.visible },
        Direction::Right => SnakeSegment { x: (s.x + 1) as u8, y: s.y, visible: s.visible },
        Direction::Down => SnakeSegment { x: s.x, y: (s.y + 1) as u8, visible: s.visible },
        Direction::Left => SnakeSegment { x: (s.x - 1) as u8, y: s.y, visible: s.visible },
    }
}

/// The segments after one tick: the head moves towards `d` and every other
/// segment takes the place of the one before it.
pub open spec fn ticked(segs: Seq<SnakeSegment>, d: Direction) -> Seq<SnakeSegment> {
    Seq::new(segs.len(), |i: int| if i == 0 { stepped(segs[0], d) } else { segs[i - 1] })
}

impl Snake {
    /// A snake of one visible segment and two hidden ones, heading `direction`.
    pub fn new(direction: Direction) -> (r: Self)
        ensures
            r.segments@ == seq![start_segment(), hidden_segment(), hidden_segment()],
            r.direction == direction,
    {
        let mut ret = Snake {
            segments: vec![SnakeSegment { x: 25, y: 15, visible: true }],
            direction,
        };
        ret.add_segment();
        ret.add_segment();
        assert(ret.segments@ =~= seq![start_segment(), hidden_segment(), hidden_segment()]);
        ret
    }

    /// Moves the snake one cell towards its direction.
    pub fn tick(&mut self)
        requires
            old(self).segments@.len() > 0 ==> can_step(old(self).segments@[0], old(self).direction),
        ensures
            final(self).segments@ == ticked(old(self).segments@, old(self).direction),
            final(self).direction == old(self).direction,
    {
        let ghost start = self.segments@;
        let mut i: usize = self.segments.len();
        while i > 1
            invariant
                1 <= i <= start.len() || (i == 0 && start.len() == 0),
                self.segments@.len() == start.len(),
                self.direction == old(self).direction,
                start == old(self).segments@,
                forall|k: int| 0 <= k < i ==> self.segments@[k] == start[k],
                forall|k: int| i <= k < start.len() ==> self.segments@[k] == start[k - 1],
            decreases i,
        {
            i = i - 1;
            let prev = self.segments[i - 1];
            self.segments.set(i, prev);
        }
        if self.segments.len() > 0 {
            let mut head = self.segments[0];
            match self.direction {
                Direction::Up => head.y = head.y - 1,
                Direction::Right => head.x = head.x + 1,
                Direction::Down => head.y = head.y + 1,
                Direction::Left => head.x = head.x - 1,
            }
            self.segments.set(0, head);
        }
        assert(self.segments@ =~= ticked(start, old(self).direction));
    }

    /// Appends a hidden segment at the tail.
    pub fn add_segment(&mut self)
        ensures
            final(self).segments@ == old(self).segments@.push(hidden_segment()),
            final(self).direction == old(self).direction,
    {
        self.segments.push(SnakeSegment { x: 0, y: 0, visible: false });
    }
}

/// The last column of the board; columns run from 1.
pub const BOARD_WIDTH: u8 = 50;

/// The last row of the board; rows run from 1.
pub const BOARD_HEIGHT: u8 = 29;

/// Whether cell `(x, y)` lies on the board.
pub open spec fn on_board(x: u8, y: u8) -> bool {
    1 <= x <= BOARD_WIDTH && 1 <= y <= BOARD_HEIGHT
}

/// Whether the head of `segs` has left the board or run into the rest of the snake.
pub open spec fn crashed(segs: Seq<SnakeSegment>) -> bool {
    !on_board(segs[0].x, segs[0].y) || exists|i: int| 1 <= i < segs.len() && #[trigger] segs[i] == segs[0]
}

impl Snake {
    /// Whether the game is lost: the head is off the board or on another segment.
    pub fn has_crashed(&self) -> (r: bool)
        requires
            self.segments@.len() > 0,
        ensures
            r == crashed(self.segments@),
    {
        let head = self.segments[0];
        let mut hit = head.x < 1 || head.x > BOARD_WIDTH || head.y < 1 || head.y > BOARD_HEIGHT;
        let mut i: usize = 1;
        while i < self.segments.len()
            invariant
                1 <= i <= self.segments@.len(),
                head == self.segments@[0],
                hit == (!on_board(head.x, head.y) || exists|k: int| 1 <= k < i && #[trigger] self.segments@[k] == head),
            decreases self.segments@.len() - i,
        {
            if self.segments[i] == head {
                hit = true;
            }
            i = i + 1;
        }
        hit
    }

    /// Turns towards the held direction keys, checked in the order up, right,
    /// down, left; a key that would reverse the snake onto itself is ignored.
    pub fn steer(&mut self, up: bool, right: bool, down: bool, left: bool)
        ensures
            final(self).segments@ == old(self).segments@,
            final(self).direction == steered(old(self).direction, up, right, down, left),
    {
        if up && self.direction != Direction::Down {
            self.direction = Direction::Up;
        }
        if right && self.direction != Direction::Left {
            self.direction = Direction::Right;
        }
        if down && self.direction != Direction::Up {
            self.direction = Direction::Down;
        }
        if left && self.direction != Direction::Right {
            self.direction = Direction::Left;
        }
    }
}

/// One turn for a held key: towards `to`, unless that reverses `d`.
pub open spec fn turn(d: Direction, held: bool, to: Direction, opposite: Direction) -> Direction {
    if held && d != opposite {
        to
    } else {
        d
    }
}

/// The direction after the held keys are applied in the order up, right, down, left.
pub open spec fn steered(d: Direction, up: bool, right: bool, down: bool, left: bool) -> Direction {
    let d1 = turn(d, up, Direction::Up, Direction::Down);
    let d2 = turn(d1, right, Direction::Right, Direction::Left);
    let d3 = turn(d2, down, Direction::Down, Direction::Up);
    turn(d3, left, Direction::Left, Direction::Right)
}

/// The cell of an apple drawn from a random byte `b` on an axis of `n - 1` cells:
/// `b % n`, moved off the edge at zero.
pub open spec fn cell_of(b: u8, n: int) -> int {
    if (b as int) % n == 0 {
        1
    } else {
        (b as int) % n
    }
}

/// The apple the snake is after.
#[derive(Clone, Copy, Debug, PartialEq, Eq, Structural)]
pub struct Apple {
    pub x: u8,
    pub y: u8,
}

/// Why no new apple could be placed.
#[derive(Clone, Copy, Debug, PartialEq, Eq, Structural)]
pub enum RandomError {
    /// The system's source of random bytes failed.
    EntropyUnavailable,
}

#[verifier::external_type_specification]
#[verifier::external_body]
pub struct ExGetrandomError(getrandom::Error);

/// Relies on getrandom::getrandom to fill `buf` from the system's source of
/// randomness, or to report its error. Nothing is known of the bytes.
#[verifier::external_body]
fn fill_random(buf: &mut Vec<u8>) -> (r: Result<(), getrandom::Error>)
    ensures
        final(buf)@.len() == old(buf)@.len(),
{
    getrandom::getrandom(buf.as_mut_slice())
}

impl Apple {
    /// Moves the apple to the cell drawn from two random bytes: the first picks
    /// the column, the second the row.
    pub fn place(&mut self, bytes: [u8; 2])
        ensures
            final(self).x == cell_of(bytes[0], BOARD_WIDTH + 1),
            final(self).y == cell_of(bytes[1], BOARD_HEIGHT + 1),
            on_board(final(self).x, final(self).y),
    {
        self.x = bytes[0] % (BOARD_WIDTH + 1);
        self.y = bytes[1] % (BOARD_HEIGHT + 1);
        if self.x == 0 {
            self.x = self.x + 1;
        }
        if self.y == 0 {
            self.y = self.y + 1;
        }
    }

    /// Moves the apple to a random cell of the board; where no random bytes
    /// can be had, the apple stays and the error is returned.
    pub fn rand(&mut self) -> (r: Result<(), RandomError>)
        ensures
            r.is_ok() ==> on_board(final(self).x, final(self).y),
            r.is_err() ==> *final(self) == *old(self) && r == Err::<(), RandomError>(RandomError::EntropyUnavailable),
    {
        let mut buf: Vec<u8> = vec![0u8, 0u8];
        match fill_random(&mut buf) {
            Ok(()) => {
                self.place([buf[0], buf[1]]);
                Ok(())
            },
            Err(_) => Err(RandomError::EntropyUnavailable),
        }
    }
}

/// The apple placed by the random bytes `bx` and `by`.
pub open spec fn placed(bx: u8, by: u8) -> Apple {
    Apple { x: cell_of(bx, BOARD_WIDTH + 1) as u8, y: cell_of(by, BOARD_HEIGHT + 1) as u8 }
}

/// The segments of a new snake.
pub open spec fn new_segments() -> Seq<SnakeSegment> {
    seq![start_segment(), hidden_segment(), hidden_segment()]
}

/// The number of frames between two moves of the snake.
pub const REFRESH_RATE: u8 = 30;

/// The keys of one frame: select and start as just pressed, the four
/// direction keys as held.
#[derive(Clone, Copy, Debug, PartialEq, Eq, Structural)]
pub struct Keys {
    pub select: bool,
    pub start: bool,
    pub up: bool,
    pub right: bool,
    pub down: bool,
    pub left: bool,
}

/// What the screen should show after a frame.
#[derive(Clone, Copy, Debug, PartialEq, Eq, Structural)]
pub enum Show {
    /// The player asked to leave: the game loop ends.
    Quit,
    /// Nothing moved: the screen stays as it is.
    Unchanged,
    /// The game is lost and waits for start.
    GameOver,
    /// The game is paused.
    Paused,
    /// The snake moved: draw its visible segments and the apple.
    Board,
}

/// A game in progress.
pub struct Game {
    pub snake: Snake,
    pub apple: Apple,
    /// Frames since the snake last moved.
    pub frame: u8,
    pub gameover: bool,
    pub paused: bool,
}

impl Game {
    /// The frame count stays below the refresh rate, the snake has a head, and
    /// while the game runs that head is on the board.
    pub open spec fn wf(&self) -> bool {
        &&& self.frame < REFRESH_RATE
        &&& self.snake.segments@.len() > 0
        &&& !self.gameover ==> on_board(self.snake.segments@[0].x, self.snake.segments@[0].y)
    }

    /// A new game: a new snake heading right and an apple on the cell drawn
    /// from `bx` and `by`.
    pub fn start(bx: u8, by: u8) -> (r: Game)
        ensures
            r.wf(),
            r.snake.segments@ == new_segments(),
            r.snake.direction == Direction::Right,
            r.apple == placed(bx, by),
            r.frame == 0,
            !r.gameover,
            !r.paused,
    {
        let mut apple = Apple { x: 0, y: 0 };
        apple.place([bx, by]);
        Game { snake: Snake::new(Direction::Right), apple, frame: 0, gameover: false, paused: false }
    }

    /// A new game with the apple on a random cell, or the error where no random
    /// bytes can be had.
    pub fn new() -> (r: Result<Game, RandomError>)
        ensures
            r matches Ok(g) ==> g.wf() && g.snake.segments@ == new_segments() && g.snake.direction
                == Direction::Right && on_board(g.apple.x, g.apple.y) && g.frame == 0 && !g.gameover
                && !g.paused,
            r matches Err(e) ==> e == RandomError::EntropyUnavailable,
    {
        let mut apple = Apple { x: 0, y: 0 };
        match apple.rand() {
            Ok(()) => Ok(Game { snake: Snake::new(Direction::Right), apple, frame: 0, gameover: false, paused: false }),
            Err(e) => Err(e),
        }
    }

    /// Plays one frame. Select quits and changes nothing. Otherwise start
    /// restarts a lost game, with the apple drawn from `bytes[0]` and
    /// `bytes[1]`, or toggles the pause; the held keys steer; and on every
    /// refresh the snake moves, unless the game is lost or paused. A snake
    /// whose head reaches the apple grows by one segment and the apple moves to
    /// the cell drawn from `bytes[2]` and `bytes[3]`.
    pub fn advance(&mut self, keys: Keys, bytes: [u8; 4]) -> (r: Show)
        requires
            old(self).wf(),
        ensures
            final(self).wf(),
            keys.select ==> r == Show::Quit && final(self).snake.segments@ == old(self).snake.segments@
                && final(self).snake.direction == old(self).snake.direction && final(self).apple
                == old(self).apple && final(self).frame == old(self).frame && final(self).gameover
                == old(self).gameover && final(self).paused == old(self).paused,
            !keys.select ==> ({
                let restart = keys.start && old(self).gameover;
                let segs0 = if restart { new_segments() } else { old(self).snake.segments@ };
                let apple0 = if restart { placed(bytes[0], bytes[1]) } else { old(self).apple };
                let dir = steered(
                    if restart { Direction::Right } else { old(self).snake.direction },
                    keys.up,
                    keys.right,
                    keys.down,
                    keys.left,
                );
                let over0 = old(self).gameover && !restart;
                let paused = if keys.start && !old(self).gameover { !old(self).paused } else { old(self).paused };
                let moved = ticked(segs0, dir);
                let ate = moved[0].x == apple0.x && moved[0].y == apple0.y;
                &&& final(self).paused == paused
                &&& final(self).snake.direction == dir
                &&& if old(self).frame + 1 < REFRESH_RATE {
                    &&& r == Show::Unchanged
                    &&& final(self).frame == old(self).frame + 1
                    &&& final(self).snake.segments@ == segs0
                    &&& final(self).apple == apple0
                    &&& final(self).gameover == over0
                } else if over0 || paused {
                    &&& r == (if over0 { Show::GameOver } else { Show::Paused })
                    &&& final(self).frame == 0
                    &&& final(self).snake.segments@ == segs0
                    &&& final(self).apple == apple0
                    &&& final(self).gameover == over0
                } else {
                    &&& r == Show::Board
                    &&& final(self).frame == 0
                    &&& final(self).gameover == crashed(moved)
                    &&& final(self).snake.segments@ == if ate { moved.push(hidden_segment()) } else { moved }
                    &&& final(self).apple == if ate { placed(bytes[2], bytes[3]) } else { apple0 }
                }
            }),
    {
        if keys.select {
            return Show::Quit;
        }
        if keys.start {
            if self.gameover {
                self.gameover = false;
                self.snake = Snake::new(Direction::Right);
                self.apple.place([bytes[0], bytes[1]]);
            } else {
                self.paused = !self.paused;
            }
        }
        self.snake.steer(keys.up, keys.right, keys.down, keys.left);
        if self.frame + 1 < REFRESH_RATE {
            self.frame = self.frame + 1;
            return Show::Unchanged;
        }
        self.frame = 0;
        if self.gameover {
            return Show::GameOver;
        }
        if self.paused {
            return Show::Paused;
        }
        self.snake.tick();
        if self.snake.has_crashed() {
            self.gameover = true;
        }
        let head = self.snake.segments[0];
        if head.x == self.apple.x && head.y == self.apple.y {
            self.snake.add_segment();
            self.apple.place([bytes[2], bytes[3]]);
        }
        Show::Board
    }

    /// Plays one frame with fresh random bytes, as `advance` says; where no
    /// random bytes can be had the game is left as it was and the error is
    /// returned.
    pub fn step(&mut self, keys: Keys) -> (r: Result<Show, RandomError>)
        requires
            old(self).wf(),
        ensures
            final(self).wf(),
            r matches Ok(s) ==> (keys.select <==> s == Show::Quit),
            r is Ok && !keys.select ==> final(self).frame == (if old(self).frame + 1 < REFRESH_RATE {
                old(self).frame + 1
            } else {
                0
            }) && final(self).paused == (if keys.start && !old(self).gameover {
                !old(self).paused
            } else {
                old(self).paused
            }),
            r matches Err(e) ==> e == RandomError::EntropyUnavailable && final(self).frame == old(self).frame
                && final(self).snake.segments@ == old(self).snake.segments@ && final(self).snake.direction
                == old(self).snake.direction && final(self).apple == old(self).apple && final(self).gameover
                == old(self).gameover && final(self).paused == old(self).paused,
    {
        let mut buf: Vec<u8> = vec![0u8, 0u8, 0u8, 0u8];
        match fill_random(&mut buf) {
            Ok(()) => Ok(self.advance(keys, [buf[0], buf[1], buf[2], buf[3]])),
            Err(_) => Err(RandomError::EntropyUnavailable),
        }
    }
}

} // verus!
