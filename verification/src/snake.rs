//! Snake engine: a direction plus an ordered double-ended sequence of
//! body parts. The head is the back of the sequence and the tail the
//! front; movement pops the front and pushes a new back, so all interior
//! segments keep their positions. Food is re-placed by rejection
//! sampling from the randomizer, never onto the snake's body.
use crate::randomizer::{feed, Randomizer};
use std::collections::VecDeque;
use vstd::prelude::*;

verus! {

/// A movement direction on the grid; the y axis grows downward.
#[derive(Clone, Copy, Debug, PartialEq, Eq, Structural)]
pub enum Direction {
    Up,
    Down,
    Left,
    Right,
}

/// Two directions are exact opposites of one another.
pub open spec fn opposite(a: Direction, b: Direction) -> bool {
    ||| (a == Direction::Up && b == Direction::Down)
    ||| (a == Direction::Down && b == Direction::Up)
    ||| (a == Direction::Left && b == Direction::Right)
    ||| (a == Direction::Right && b == Direction::Left)
}

/// The direction asked for by a movement key, if any.
pub open spec fn key_direction(key: u8) -> Option<Direction> {
    if key == 119 {
        Some(Direction::Up)
    } else if key == 115 {
        Some(Direction::Down)
    } else if key == 97 {
        Some(Direction::Left)
    } else if key == 100 {
        Some(Direction::Right)
    } else {
        None
    }
}

/// The snake's direction after a turn request: a request for the exact
/// opposite of the current direction is rejected.
pub open spec fn turned(current: Direction, request: Direction) -> Direction {
    if opposite(request, current) {
        current
    } else {
        request
    }
}

/// One segment of the snake's body, carrying the direction it was
/// created with (used for the render glyph).
#[derive(Clone, Copy, Debug, PartialEq, Eq, Structural)]
pub struct BodyPart {
    pub x: u16,
    pub y: u16,
    pub direction: Direction,
}

/// The cell one step behind a part, against its stored direction; the
/// place a new tail segment grows into.
pub open spec fn spec_behind(p: BodyPart) -> BodyPart {
    match p.direction {
        Direction::Up => BodyPart { x: p.x, y: (p.y + 1) as u16, direction: p.direction },
        Direction::Down => BodyPart { x: p.x, y: (p.y - 1) as u16, direction: p.direction },
        Direction::Left => BodyPart { x: (p.x + 1) as u16, y: p.y, direction: p.direction },
        Direction::Right => BodyPart { x: (p.x - 1) as u16, y: p.y, direction: p.direction },
    }
}

/// The head one step along a direction.
pub open spec fn stepped(h: BodyPart, d: Direction) -> BodyPart {
    match d {
        Direction::Up => BodyPart { x: h.x, y: (h.y - 1) as u16, direction: d },
        Direction::Down => BodyPart { x: h.x, y: (h.y + 1) as u16, direction: d },
        Direction::Left => BodyPart { x: (h.x - 1) as u16, y: h.y, direction: d },
        Direction::Right => BodyPart { x: (h.x + 1) as u16, y: h.y, direction: d },
    }
}

/// Some body part of the sequence stands on the cell.
pub open spec fn seq_occupied(body: Seq<BodyPart>, x: u16, y: u16) -> bool {
    exists|i: int|
        0 <= i < body.len() && (#[trigger] body[i]).x == x && body[i].y == y
}

/// Some interior cell of a `w` by `h` play area is free of every part of
/// the sequence; what rejection sampling for a food cell relies on.
pub open spec fn free_cell_exists(body: Seq<BodyPart>, w: u16, h: u16) -> bool {
    exists|fx: u16, fy: u16|
        1 <= fx <= w - 2 && 1 <= fy <= h - 2 && !seq_occupied(body, fx, fy)
}

impl BodyPart {
    /// The cell one step behind this part, along its own stored
    /// direction.
    pub fn crawl(&self) -> (r: BodyPart)
        requires
            self.direction == Direction::Up ==> self.y < u16::MAX,
            self.direction == Direction::Down ==> self.y > 0,
            self.direction == Direction::Left ==> self.x < u16::MAX,
            self.direction == Direction::Right ==> self.x > 0,
        ensures
            r == spec_behind(*self),
    {
        let mut x: u16 = self.x;
        let mut y: u16 = self.y;
        match self.direction {
            Direction::Up => {
                y = y + 1;
            },
            Direction::Down => {
                y = y - 1;
            },
            Direction::Left => {
                x = x + 1;
            },
            Direction::Right => {
                x = x - 1;
            },
        }
        BodyPart { x, y, direction: self.direction }
    }
}

/// The snake: its authoritative movement direction and its body, tail
/// first, head last.
pub struct Snake {
    pub direction: Direction,
    pub body: VecDeque<BodyPart>,
}

/// The snake's food.
#[derive(Clone, Copy, Debug, PartialEq, Eq, Structural)]
pub struct Food {
    pub x: u16,
    pub y: u16,
}

/// The snake game state.
pub struct Game {
    /// The play area width; the wall columns are x = 0 and x = width.
    pub width: u16,
    /// The play area height; the wall rows are y = 0 and y = height - 1.
    pub height: u16,
    /// The snake.
    pub snake: Snake,
    /// The snake's food.
    pub food: Food,
    /// Ticks-per-second equivalent; grows with each meal.
    pub speed: u64,
    /// The game score: one point per meal.
    pub score: i32,
    /// The randomizer that places food.
    pub rand: Randomizer,
}

impl Game {
    /// The head segment: the back of the body sequence.
    pub open spec fn head(self) -> BodyPart {
        self.snake.body@[self.snake.body@.len() - 1]
    }

    /// The tail segment: the front of the body sequence.
    pub open spec fn tail_part(self) -> BodyPart {
        self.snake.body@[0]
    }

    /// The head stands on a wall cell.
    pub open spec fn hit_wall(self) -> bool {
        ||| self.head().x == 0
        ||| self.head().y == 0
        ||| self.head().x == self.width
        ||| self.head().y == self.height - 1
    }

    /// The head shares its cell with another body segment.
    pub open spec fn self_collision(self) -> bool {
        exists|i: int|
            0 <= i < self.snake.body@.len() - 1 && (#[trigger] self.snake.body@[i]).x
                == self.head().x && self.snake.body@[i].y == self.head().y
    }

    /// Structural well-formedness: a play area that can hold the walls
    /// and at least a two-segment snake.
    pub open spec fn wf(self) -> bool {
        &&& 4 <= self.width
        &&& 4 <= self.height
        &&& self.snake.body@.len() >= 2
    }

    /// A fresh game for the given play area, with the starting board.
    pub fn new(width: u16, height: u16, seed: u64) -> (g: Game)
        requires
            21 <= width,
            12 <= height,
        ensures
            g.wf(),
            g.width == width,
            g.height == height,
            g.rand@ == crate::randomizer::seed_state(seed),
            g.snake.direction == Direction::Right,
            g.snake.body@.len() == 10,
            forall|i: int|
                0 <= i < 10 ==> #[trigger] g.snake.body@[i] == (BodyPart {
                    x: (10 + i) as u16,
                    y: 10,
                    direction: Direction::Right,
                }),
            g.food == (Food { x: (width / 2) as u16, y: (height / 2) as u16 }),
            g.score == 0,
            g.speed == 10,
    {
        let mut g = Game {
            width,
            height,
            snake: Snake { direction: Direction::Right, body: VecDeque::new() },
            food: Food { x: 0, y: 0 },
            speed: 0,
            score: 0,
            rand: Randomizer::new(seed),
        };
        g.reset();
        g
    }

    /// Reset to the starting board: ten segments in a row at y = 10
    /// facing right (head at the largest x), food in the middle of the
    /// play area, score zero, starting speed. The randomizer keeps its
    /// state.
    pub fn reset(&mut self)
        requires
            21 <= old(self).width,
            12 <= old(self).height,
        ensures
            final(self).wf(),
            final(self).width == old(self).width,
            final(self).height == old(self).height,
            final(self).rand == old(self).rand,
            final(self).snake.direction == Direction::Right,
            final(self).snake.body@.len() == 10,
            forall|i: int|
                0 <= i < 10 ==> #[trigger] final(self).snake.body@[i] == (BodyPart {
                    x: (10 + i) as u16,
                    y: 10,
                    direction: Direction::Right,
                }),
            final(self).food == (Food {
                x: (old(self).width / 2) as u16,
                y: (old(self).height / 2) as u16,
            }),
            final(self).score == 0,
            final(self).speed == 10,
    {
        self.snake.direction = Direction::Right;
        self.snake.body = VecDeque::new();
        let mut i: u16 = 0;
        while i < 10
            invariant
                i <= 10,
                self.snake.body@.len() == i,
                forall|j: int|
                    0 <= j < i ==> #[trigger] self.snake.body@[j] == (BodyPart {
                        x: (10 + j) as u16,
                        y: 10,
                        direction: Direction::Right,
                    }),
                self.width == old(self).width,
                self.height == old(self).height,
                self.rand == old(self).rand,
                self.snake.direction == Direction::Right,
            decreases 10 - i,
        {
            self.snake.body.push_back(BodyPart { x: 10 + i, y: 10, direction: Direction::Right });
            i = i + 1;
        }
        self.food = Food { x: self.width / 2, y: self.height / 2 };
        self.score = 0;
        self.speed = 10;
    }

    /// Turn the snake. A request for the exact opposite of the current
    /// direction is a no-op: the direction is unchanged.
    pub fn turn_snake(&mut self, direction: Direction)
        ensures
            final(self).snake.direction == turned(old(self).snake.direction, direction),
            final(self).snake.body@ == old(self).snake.body@,
            final(self).width == old(self).width,
            final(self).height == old(self).height,
            final(self).food == old(self).food,
            final(self).speed == old(self).speed,
            final(self).score == old(self).score,
            final(self).rand == old(self).rand,
    {
        match (direction, self.snake.direction) {
            (Direction::Up, Direction::Down) => {},
            (Direction::Down, Direction::Up) => {},
            (Direction::Left, Direction::Right) => {},
            (Direction::Right, Direction::Left) => {},
            _ => {
                self.snake.direction = direction;
            },
        }
    }

    /// Advance the snake one cell: the tail segment is dropped and a new
    /// head is pushed one cell along the current direction; interior
    /// segments keep their positions.
    pub fn move_snake(&mut self)
        requires
            old(self).wf(),
            old(self).snake.direction == Direction::Up ==> old(self).head().y > 0,
            old(self).snake.direction == Direction::Down ==> old(self).head().y < u16::MAX,
            old(self).snake.direction == Direction::Left ==> old(self).head().x > 0,
            old(self).snake.direction == Direction::Right ==> old(self).head().x < u16::MAX,
        ensures
            final(self).wf(),
            final(self).snake.body@ == old(self).snake.body@.subrange(
                1,
                old(self).snake.body@.len() as int,
            ).push(stepped(old(self).head(), old(self).snake.direction)),
            final(self).snake.body@.len() == old(self).snake.body@.len(),
            final(self).head() == stepped(old(self).head(), old(self).snake.direction),
            final(self).snake.direction == old(self).snake.direction,
            final(self).width == old(self).width,
            final(self).height == old(self).height,
            final(self).food == old(self).food,
            final(self).speed == old(self).speed,
            final(self).score == old(self).score,
            final(self).rand == old(self).rand,
    {
        let popped = self.snake.body.pop_front();
        let len: usize = self.snake.body.len();
        let head: BodyPart = self.snake.body[len - 1];
        let part: BodyPart = match self.snake.direction {
            Direction::Up => BodyPart { x: head.x, y: head.y - 1, direction: Direction::Up },
            Direction::Down => BodyPart { x: head.x, y: head.y + 1, direction: Direction::Down },
            Direction::Left => BodyPart { x: head.x - 1, y: head.y, direction: Direction::Left },
            Direction::Right => BodyPart { x: head.x + 1, y: head.y, direction: Direction::Right },
        };
        self.snake.body.push_back(part);
        proof {
            assert(final(self).snake.body@ =~= old(self).snake.body@.subrange(
                1,
                old(self).snake.body@.len() as int,
            ).push(stepped(old(self).head(), old(self).snake.direction)));
        }
    }

    /// The round is over: the head stands on a wall or on another body
    /// segment.
    pub fn check_game_over(&self) -> (r: bool)
        requires
            self.wf(),
        ensures
            r == (self.self_collision() || self.hit_wall()),
    {
        let len: usize = self.snake.body.len();
        let head: BodyPart = self.snake.body[len - 1];
        let mut hit: bool = false;
        let mut i: usize = 0;
        while i < len - 1
            invariant
                self.wf(),
                len == self.snake.body@.len(),
                i <= len - 1,
                head == self.head(),
                hit == exists|j: int|
                    0 <= j < i && (#[trigger] self.snake.body@[j]).x == head.x
                        && self.snake.body@[j].y == head.y,
            decreases len - 1 - i,
        {
            let p: BodyPart = self.snake.body[i];
            if p.x == head.x && p.y == head.y {
                hit = true;
            }
            i = i + 1;
        }
        hit || head.x == 0 || head.y == 0 || head.x == self.width || head.y == self.height - 1
    }

    /// The head stands on the food.
    pub fn check_eating(&self) -> (r: bool)
        requires
            self.wf(),
        ensures
            r == (self.head().x == self.food.x && self.head().y == self.food.y),
    {
        let len: usize = self.snake.body.len();
        let head: BodyPart = self.snake.body[len - 1];
        head.x == self.food.x && head.y == self.food.y
    }

    /// Grow the snake by one segment at the tail end, one cell behind
    /// the tail along the tail's own stored direction.
    pub fn grow_snake(&mut self)
        requires
            old(self).wf(),
            old(self).tail_part().direction == Direction::Up ==> old(self).tail_part().y
                < u16::MAX,
            old(self).tail_part().direction == Direction::Down ==> old(self).tail_part().y > 0,
            old(self).tail_part().direction == Direction::Left ==> old(self).tail_part().x
                < u16::MAX,
            old(self).tail_part().direction == Direction::Right ==> old(self).tail_part().x > 0,
        ensures
            final(self).wf(),
            final(self).snake.body@.len() == old(self).snake.body@.len() + 1,
            final(self).snake.body@[0] == spec_behind(old(self).tail_part()),
            forall|i: int|
                1 <= i < final(self).snake.body@.len() ==> #[trigger] final(self).snake.body@[i]
                    == old(self).snake.body@[i - 1],
            final(self).snake.direction == old(self).snake.direction,
            final(self).width == old(self).width,
            final(self).height == old(self).height,
            final(self).food == old(self).food,
            final(self).speed == old(self).speed,
            final(self).score == old(self).score,
            final(self).rand == old(self).rand,
    {
        let tail: BodyPart = self.snake.body[0];
        let part: BodyPart = tail.crawl();
        self.snake.body.push_front(part);
    }

    /// Whether some body segment stands on the cell.
    pub fn is_occupied(&self, x: u16, y: u16) -> (r: bool)
        ensures
            r == seq_occupied(self.snake.body@, x, y),
    {
        let len: usize = self.snake.body.len();
        let mut found: bool = false;
        let mut i: usize = 0;
        while i < len
            invariant
                len == self.snake.body@.len(),
                i <= len,
                found == exists|j: int|
                    0 <= j < i && (#[trigger] self.snake.body@[j]).x == x
                        && self.snake.body@[j].y == y,
            decreases len - i,
        {
            let p: BodyPart = self.snake.body[i];
            if p.x == x && p.y == y {
                found = true;
            }
            i = i + 1;
        }
        found
    }

    /// Move the food to a random interior cell not occupied by any body
    /// segment: candidate cells are drawn from the randomizer and
    /// rejected while they collide with the snake. A final deterministic
    /// sweep guarantees a free cell is found.
    pub fn move_food(&mut self)
        requires
            old(self).wf(),
            free_cell_exists(old(self).snake.body@, old(self).width, old(self).height),
        ensures
            final(self).wf(),
            1 <= final(self).food.x <= final(self).width - 2,
            1 <= final(self).food.y <= final(self).height - 2,
            !seq_occupied(final(self).snake.body@, final(self).food.x, final(self).food.y),
            final(self).snake.body@ == old(self).snake.body@,
            final(self).snake.direction == old(self).snake.direction,
            final(self).width == old(self).width,
            final(self).height == old(self).height,
            final(self).speed == old(self).speed,
            final(self).score == old(self).score,
    {
        let w: u16 = self.width;
        let h: u16 = self.height;
        let mut attempts: u32 = 0;
        while attempts < 10000
            invariant
                self.wf(),
                self.width == old(self).width,
                self.height == old(self).height,
                self.snake.body@ == old(self).snake.body@,
                self.snake.direction == old(self).snake.direction,
                self.speed == old(self).speed,
                self.score == old(self).score,
                self.food == old(self).food,
                w == self.width,
                h == self.height,
            decreases 10000 - attempts,
        {
            let rx: u8 = self.rand.read_u8();
            let ry: u8 = self.rand.read_u8();
            let x: u16 = (rx as u16 % (w - 2)) + 1;
            let y: u16 = (ry as u16 % (h - 2)) + 1;
            if !self.is_occupied(x, y) {
                self.food = Food { x, y };
                return ;
            }
            attempts = attempts + 1;
        }
        let m: usize = (w - 2) as usize;
        proof {
            assert((m as int) * ((h - 2) as int) <= 0xFFFF_FFFF) by (nonlinear_arith)
                requires
                    0 <= m as int <= 65533,
                    0 <= (h - 2) as int <= 65533,
            ;
        }
        let total: usize = m * ((h - 2) as usize);
        let mut k: usize = 0;
        while k < total
            invariant
                self.wf(),
                self.width == old(self).width,
                self.height == old(self).height,
                self.snake.body@ == old(self).snake.body@,
                self.snake.direction == old(self).snake.direction,
                self.speed == old(self).speed,
                self.score == old(self).score,
                self.food == old(self).food,
                w == self.width,
                h == self.height,
                m == w - 2,
                total == m * ((h - 2) as int),
                k <= total,
                forall|k2: int|
                    0 <= k2 < k ==> #[trigger] seq_occupied(
                        self.snake.body@,
                        (1 + (k2 % (m as int))) as u16,
                        (1 + (k2 / (m as int))) as u16,
                    ),
            decreases total - k,
        {
            proof {
                assert(0 <= (k as int) % (m as int) < m as int) by (nonlinear_arith)
                    requires
                        0 < m as int,
                        0 <= k as int,
                ;
                assert(0 <= (k as int) / (m as int) < (h - 2) as int) by (nonlinear_arith)
                    requires
                        0 < m as int,
                        0 <= k as int,
                        (k as int) < (m as int) * ((h - 2) as int),
                ;
            }
            let x: u16 = 1 + (k % m) as u16;
            let y: u16 = 1 + (k / m) as u16;
            if !self.is_occupied(x, y) {
                self.food = Food { x, y };
                return ;
            }
            k = k + 1;
        }
        proof {
            let (fx, fy): (u16, u16) = choose|fx: u16, fy: u16|
                1 <= fx <= w - 2 && 1 <= fy <= h - 2 && !seq_occupied(self.snake.body@, fx, fy);
            let mi: int = m as int;
            let kk: int = (fy - 1) * mi + (fx - 1);
            assert(0 <= kk < mi * ((h - 2) as int)) by (nonlinear_arith)
                requires
                    0 < mi,
                    0 <= fx - 1 < mi,
                    0 <= fy - 1 <= (h - 2) - 1,
                    kk == (fy - 1) * mi + (fx - 1),
            ;
            assert(kk % mi == fx - 1 && kk / mi == fy - 1) by (nonlinear_arith)
                requires
                    0 < mi,
                    0 <= fx - 1 < mi,
                    0 <= fy - 1,
                    kk == (fy - 1) * mi + (fx - 1),
            ;
            assert(seq_occupied(
                self.snake.body@,
                (1 + (kk % mi)) as u16,
                (1 + (kk / mi)) as u16,
            ));
            assert((1 + (kk % mi)) as u16 == fx);
            assert((1 + (kk / mi)) as u16 == fy);
            assert(false);
        }
    }

    /// Eat the food under the head: the score rises by exactly one, the
    /// speed strictly rises, the snake grows by one tail segment, and
    /// the food moves to a cell not occupied by any segment of the grown
    /// body.
    pub fn eat_food(&mut self)
        requires
            old(self).wf(),
            old(self).score < i32::MAX,
            old(self).speed <= u64::MAX - 3,
            old(self).tail_part().direction == Direction::Up ==> old(self).tail_part().y
                < u16::MAX,
            old(self).tail_part().direction == Direction::Down ==> old(self).tail_part().y > 0,
            old(self).tail_part().direction == Direction::Left ==> old(self).tail_part().x
                < u16::MAX,
            old(self).tail_part().direction == Direction::Right ==> old(self).tail_part().x > 0,
            free_cell_exists(
                seq![spec_behind(old(self).tail_part())] + old(self).snake.body@,
                old(self).width,
                old(self).height,
            ),
        ensures
            final(self).wf(),
            final(self).score == old(self).score + 1,
            final(self).speed == old(self).speed + 3,
            final(self).speed > old(self).speed,
            final(self).snake.body@.len() == old(self).snake.body@.len() + 1,
            final(self).snake.body@[0] == spec_behind(old(self).tail_part()),
            forall|i: int|
                1 <= i < final(self).snake.body@.len() ==> #[trigger] final(self).snake.body@[i]
                    == old(self).snake.body@[i - 1],
            1 <= final(self).food.x <= final(self).width - 2,
            1 <= final(self).food.y <= final(self).height - 2,
            !seq_occupied(final(self).snake.body@, final(self).food.x, final(self).food.y),
            final(self).width == old(self).width,
            final(self).height == old(self).height,
            final(self).snake.direction == old(self).snake.direction,
    {
        self.score = self.score + 1;
        self.speed = self.speed + 3;
        self.grow_snake();
        proof {
            assert(self.snake.body@ =~= seq![spec_behind(old(self).tail_part())]
                + old(self).snake.body@);
        }
        self.move_food();
    }

    /// Process one input byte and advance the snake by a tick: `q` ends
    /// the game (the snake does not move), a movement key turns the
    /// snake first (a reversal is rejected), and the snake then advances
    /// one cell. The byte is fed into the randomizer as entropy either
    /// way.
    pub fn update(&mut self, key: u8) -> (r: bool)
        requires
            old(self).wf(),
            0 < old(self).head().x < u16::MAX,
            0 < old(self).head().y < u16::MAX,
        ensures
            final(self).wf(),
            final(self).rand@ == feed(old(self).rand@, key),
            r == (key != 113),
            !r ==> final(self).snake.body@ == old(self).snake.body@
                && final(self).snake.direction == old(self).snake.direction,
            r ==> final(self).snake.direction == turned(
                old(self).snake.direction,
                match key_direction(key) {
                    Some(d) => d,
                    None => old(self).snake.direction,
                },
            ),
            r ==> final(self).snake.body@ == old(self).snake.body@.subrange(
                1,
                old(self).snake.body@.len() as int,
            ).push(stepped(old(self).head(), final(self).snake.direction)),
            final(self).width == old(self).width,
            final(self).height == old(self).height,
            final(self).food == old(self).food,
            final(self).speed == old(self).speed,
            final(self).score == old(self).score,
    {
        self.rand.write_u8(key);
        if key == 113 {
            return false;
        }
        if key == 119 {
            self.turn_snake(Direction::Up);
        } else if key == 115 {
            self.turn_snake(Direction::Down);
        } else if key == 97 {
            self.turn_snake(Direction::Left);
        } else if key == 100 {
            self.turn_snake(Direction::Right);
        }
        self.move_snake();
        true
    }
}

} // verus!
