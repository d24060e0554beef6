//! The world: a snake, food, walls, a score, and the tick scheduler.

use vstd::prelude::*;

use crate::snake::{adjacent, fresh_snake, Block, Direction, Snake, SnakeView};
use rand::Rng;

verus! {

/// Handle to the thread-local random generator of the `rand` crate.
#[verifier::external_type_specification]
#[verifier::external_body]
pub struct ExThreadRng(rand::rngs::ThreadRng);

/// Relies on rand::thread_rng: hands out the calling thread's generator.
#[verifier::external_body]
fn new_rng() -> rand::rngs::ThreadRng {
    rand::thread_rng()
}

/// Relies on rand::Rng::gen_range over the half-open range `lo..hi`: the
/// sample lies in the range; the range must not be empty or the call panics.
#[verifier::external_body]
fn rng_range(rng: &mut rand::rngs::ThreadRng, lo: i32, hi: i32) -> (r: i32)
    requires
        lo < hi,
    ensures
        lo <= r < hi,
{
    rng.gen_range(lo..hi)
}

/// Microseconds the simulation waits between automatic forward steps.
pub const MOVING_PERIOD_MICROS: u64 = 100_000;

/// Microseconds after a collision before the game restarts itself.
pub const RESTART_TIME_MICROS: u64 = 1_000_000;

/// Random cells drawn per food placement before giving up until the next
/// tick. A loop here must provably terminate, so the draws are bounded; a
/// draw is rejected only where it lands on the snake, so the bound is all
/// but unreachable on a field that is not packed.
const FOOD_TRIES: u32 = 64;

/// `a + b` capped at the largest `u64` value.
pub open spec fn sat_add_u64(a: int, b: int) -> int {
    if a + b > u64::MAX {
        u64::MAX as int
    } else {
        a + b
    }
}

/// Mathematical image of the whole world.
#[verifier::ext_equal]
pub struct GameView {
    pub snake: SnakeView,
    pub food_exists: bool,
    pub food: Block,
    pub width: int,
    pub height: int,
    pub game_over: bool,
    pub waiting: int,
    pub score: int,
}

impl GameView {
    /// The cells strictly inside the wall perimeter.
    pub open spec fn playable(self, x: int, y: int) -> bool {
        0 < x < self.width - 1 && 0 < y < self.height - 1
    }

    /// The shape every world keeps: a field large enough for the fresh
    /// snake and both fixed food cells, counters within machine range, a
    /// well-formed snake of at least three cells that sits inside the
    /// playable area, and any present food free of the body (its hindmost
    /// cell excepted) and inside the playable area.
    pub open spec fn wf(self) -> bool {
        &&& 8 <= self.width <= i32::MAX
        &&& 8 <= self.height <= i32::MAX
        &&& 0 <= self.waiting <= u64::MAX
        &&& 0 <= self.score <= u64::MAX
        &&& self.snake.wf()
        &&& self.snake.body.len() >= 3
        &&& forall|i: int|
            0 <= i < self.snake.body.len() ==> self.playable(
                (#[trigger] self.snake.body[i]).x as int,
                self.snake.body[i].y as int,
            )
        &&& self.food_exists ==> self.playable(self.food.x as int, self.food.y as int)
            && !self.snake.hits(self.food.x as int, self.food.y as int)
    }

    /// Would one step along `d` leave the playable area or land on the body?
    pub open spec fn step_collides(self, d: Option<Direction>) -> bool {
        let (nx, ny) = self.snake.next_head(d);
        ||| self.snake.hits(nx, ny)
        ||| nx <= 0
        ||| ny <= 0
        ||| nx >= self.width - 1
        ||| ny >= self.height - 1
    }

    /// Does one step along `d` move the head onto present food?
    pub open spec fn step_eats(self, d: Option<Direction>) -> bool {
        &&& !self.step_collides(d)
        &&& self.food_exists
        &&& self.snake.next_head(d) == (self.food.x as int, self.food.y as int)
    }

    /// The world after one simulation step along `d`: either the collision
    /// is recorded and nothing moves, or the snake moves forward and, if its
    /// head lands on present food, eats — the food disappears, the score
    /// rises by one (capped), and the popped rear cell is restored. The wait
    /// counter restarts either way.
    pub open spec fn step(self, d: Option<Direction>) -> GameView {
        if self.step_collides(d) {
            GameView { game_over: true, waiting: 0, ..self }
        } else if self.step_eats(d) {
            GameView {
                snake: self.snake.moved(d).grown(),
                food_exists: false,
                score: sat_add_u64(self.score, 1),
                waiting: 0,
                ..self
            }
        } else {
            GameView { snake: self.snake.moved(d), waiting: 0, ..self }
        }
    }

    /// The world as a restart leaves it: a fresh snake anchored at (2, 2),
    /// food at (6, 4), the score back at zero.
    pub open spec fn restarted(self) -> GameView {
        GameView {
            snake: fresh_snake(2, 2),
            food_exists: true,
            food: Block { x: 6, y: 4 },
            width: self.width,
            height: self.height,
            game_over: false,
            waiting: 0,
            score: 0,
        }
    }

    /// The same world with the wait counter at `w`.
    pub open spec fn with_waiting(self, w: int) -> GameView {
        GameView { waiting: w, ..self }
    }
}

/// How food placement may change the world: only the food fields move, and
/// any food it leaves behind sits inside the playable area, off the body.
/// Which cell the random draws hit — and whether any draw misses the body —
/// is up to the generator, so nothing more is promised.
pub open spec fn spawn_step(g0: GameView, g1: GameView) -> bool {
    &&& g1.snake == g0.snake
    &&& g1.width == g0.width
    &&& g1.height == g0.height
    &&& g1.game_over == g0.game_over
    &&& g1.waiting == g0.waiting
    &&& g1.score == g0.score
    &&& g0.food_exists ==> g1 == g0
    &&& !g1.food_exists ==> g1 == g0
    &&& g1.food_exists ==> g0.playable(g1.food.x as int, g1.food.y as int) && !g0.snake.hits(
        g1.food.x as int,
        g1.food.y as int,
    )
}

/// The game world. Time is tracked in integer microseconds.
pub struct Game {
    snake: Snake,
    food_exists: bool,
    food_x: i32,
    food_y: i32,
    width: i32,
    height: i32,
    game_over: bool,
    waiting_time: u64,
    score: u64,
}

impl View for Game {
    type V = GameView;

    closed spec fn view(&self) -> GameView {
        GameView {
            snake: self.snake@,
            food_exists: self.food_exists,
            food: Block { x: self.food_x, y: self.food_y },
            width: self.width as int,
            height: self.height as int,
            game_over: self.game_over,
            waiting: self.waiting_time as int,
            score: self.score as int,
        }
    }
}

impl Game {
    /// A fresh world: snake anchored at (2, 2), food present at (4, 6),
    /// score 10, running, wait counter at zero. The field must be at least
    /// 8 cells wide and tall so that the fresh snake and both fixed food
    /// cells fit inside the walls.
    pub fn new(width: i32, height: i32) -> (g: Game)
        requires
            8 <= width,
            8 <= height,
        ensures
            g@ == (GameView {
                snake: fresh_snake(2, 2),
                food_exists: true,
                food: Block { x: 4, y: 6 },
                width: width as int,
                height: height as int,
                game_over: false,
                waiting: 0,
                score: 10,
            }),
            g@.wf(),
    {
        let g = Game {
            snake: Snake::new(2, 2),
            waiting_time: 0,
            food_exists: true,
            food_x: 4,
            food_y: 6,
            width,
            height,
            game_over: false,
            score: 10,
        };
        proof {
            assert(g@ =~~= (GameView {
                snake: fresh_snake(2, 2),
                food_exists: true,
                food: Block { x: 4, y: 6 },
                width: width as int,
                height: height as int,
                game_over: false,
                waiting: 0,
                score: 10,
            }));
            assert(g@.wf());
        }
        g
    }

    /// The cells of the snake's body, head-first.
    pub fn snake_blocks(&self) -> (v: &Vec<Block>)
        ensures
            v@ == self@.snake.body,
    {
        self.snake.blocks()
    }

    /// The snake's current heading.
    pub fn snake_direction(&self) -> (d: Direction)
        ensures
            d == self@.snake.dir,
    {
        self.snake.head_direction()
    }

    /// Whether food is on the field.
    pub fn food_exists(&self) -> (b: bool)
        ensures
            b == self@.food_exists,
    {
        self.food_exists
    }

    /// The food cell; meaningful only while food is on the field.
    pub fn food_position(&self) -> (p: (i32, i32))
        ensures
            p.0 == self@.food.x,
            p.1 == self@.food.y,
    {
        (self.food_x, self.food_y)
    }

    /// The field dimensions in grid cells.
    pub fn size(&self) -> (s: (i32, i32))
        ensures
            s.0 == self@.width,
            s.1 == self@.height,
    {
        (self.width, self.height)
    }

    /// Whether the last step collided.
    pub fn is_game_over(&self) -> (b: bool)
        ensures
            b == self@.game_over,
    {
        self.game_over
    }

    /// Microseconds accumulated since the last step (or since the collision).
    pub fn waiting_micros(&self) -> (w: u64)
        ensures
            w == self@.waiting,
    {
        self.waiting_time
    }

    /// The score.
    pub fn score(&self) -> (s: u64)
        ensures
            s == self@.score,
    {
        self.score
    }

    /// Whether one step along `direction` keeps the snake inside the walls
    /// and off its own body.
    fn check_if_snake_alive(&self, direction: Option<Direction>) -> (alive: bool)
        requires
            self@.wf(),
        ensures
            alive == !self@.step_collides(direction),
    {
        proof {
            assert(self@.playable(self@.snake.body[0].x as int, self@.snake.body[0].y as int));
        }
        let (next_x, next_y) = self.snake.next_head(direction);
        if self.snake.overlap_tail(next_x, next_y) {
            return false;
        }
        next_x > 0 && next_y > 0 && next_x < self.width - 1 && next_y < self.height - 1
    }

    /// After a move: if the head sits on present food, eat it — the food
    /// disappears, the score rises by one (capped), the rear cell returns.
    fn check_eating(&mut self)
        requires
            old(self)@.snake.body.len() >= 1,
            old(self)@.snake.tail is Some,
        ensures
            old(self)@.food_exists && old(self)@.snake.head() == old(self)@.food ==> final(self)@
                == (GameView {
                snake: old(self)@.snake.grown(),
                food_exists: false,
                score: sat_add_u64(old(self)@.score, 1),
                ..old(self)@
            }),
            !(old(self)@.food_exists && old(self)@.snake.head() == old(self)@.food)
                ==> final(self)@ == old(self)@,
    {
        let (head_x, head_y) = self.snake.head_position();
        if self.food_exists && self.food_x == head_x && self.food_y == head_y {
            self.food_exists = false;
            if self.score < u64::MAX {
                self.score = self.score + 1;
            }
            self.snake.restore_tail();
            proof {
                assert(self@ =~~= (GameView {
                    snake: old(self)@.snake.grown(),
                    food_exists: false,
                    score: sat_add_u64(old(self)@.score, 1),
                    ..old(self)@
                }));
            }
        } else {
            proof {
                assert(self@ =~~= old(self)@);
            }
        }
    }

    /// One simulation step along `direction`: collide and stop, or move
    /// forward and possibly eat. The wait counter restarts either way.
    pub fn update_snake(&mut self, direction: Option<Direction>)
        requires
            old(self)@.wf(),
            !old(self)@.game_over,
        ensures
            final(self)@ == old(self)@.step(direction),
            final(self)@.wf(),
    {
        if self.check_if_snake_alive(direction) {
            proof {
                assert(self@.playable(self@.snake.body[0].x as int, self@.snake.body[0].y as int));
            }
            self.snake.move_forward(direction);
            self.check_eating();
        } else {
            self.game_over = true;
        }
        self.waiting_time = 0;
        proof {
            assert(self@ =~~= old(self)@.step(direction));
            lemma_step_preserves_wf(old(self)@, direction);
        }
    }

    /// Make `(x, y)` the food cell if it misses the body (its hindmost cell
    /// excepted), and report whether it did; a cell that lands on the body
    /// changes nothing. This is the deterministic half of food placement:
    /// it decides about any candidate cell, wherever the cell came from.
    fn try_place_food(&mut self, x: i32, y: i32) -> (placed: bool)
        requires
            old(self)@.wf(),
            old(self)@.playable(x as int, y as int),
        ensures
            placed == !old(self)@.snake.hits(x as int, y as int),
            placed ==> final(self)@ == (GameView {
                food_exists: true,
                food: Block { x, y },
                ..old(self)@
            }),
            !placed ==> final(self)@ == old(self)@,
            final(self)@.wf(),
    {
        if self.snake.overlap_tail(x, y) {
            return false;
        }
        self.food_x = x;
        self.food_y = y;
        self.food_exists = true;
        proof {
            assert(self@ =~~= (GameView {
                food_exists: true,
                food: Block { x, y },
                ..old(self)@
            }));
        }
        true
    }

    /// Place food on a random free cell. Up to FOOD_TRIES cells are drawn
    /// uniformly from the playable area; the first one that misses the body
    /// (its hindmost cell excepted) becomes the food. If every draw lands on
    /// the body the food stays absent and the next tick tries again.
    fn add_food(&mut self)
        requires
            old(self)@.wf(),
            !old(self)@.food_exists,
        ensures
            final(self)@.wf(),
            spawn_step(old(self)@, final(self)@),
    {
        let mut rng = new_rng();
        let mut tries: u32 = 0;
        while tries < FOOD_TRIES
            invariant
                self@ == old(self)@,
                self@.wf(),
                !self@.food_exists,
            decreases FOOD_TRIES - tries,
        {
            let new_x = rng_range(&mut rng, 1, self.width - 1);
            let new_y = rng_range(&mut rng, 1, self.height - 1);
            if self.try_place_food(new_x, new_y) {
                return;
            }
            tries = tries + 1;
        }
    }

    /// Begin a new round: a fresh snake anchored at (2, 2), food at (6, 4),
    /// the score back at zero, running.
    fn restart(&mut self)
        requires
            old(self)@.wf(),
        ensures
            final(self)@ == old(self)@.restarted(),
            final(self)@.wf(),
    {
        self.snake = Snake::new(2, 2);
        self.waiting_time = 0;
        self.food_exists = true;
        self.food_x = 6;
        self.food_y = 4;
        self.game_over = false;
        self.score = 0;
        proof {
            assert(self@ =~~= old(self)@.restarted());
        }
    }

    /// Feed one key press. `key` carries the direction of an arrow key; any
    /// other key arrives as `None` and does nothing, as do presses after a
    /// collision and presses opposite to the current heading. An accepted
    /// press performs a simulation step at once, ahead of the tick schedule.
    pub fn key_pressed(&mut self, key: Option<Direction>)
        requires
            old(self)@.wf(),
        ensures
            final(self)@.wf(),
            old(self)@.game_over ==> final(self)@ == old(self)@,
            !old(self)@.game_over ==> match key {
                None => final(self)@ == old(self)@,
                Some(d) => if d == old(self)@.snake.dir.opposite_spec() {
                    final(self)@ == old(self)@
                } else {
                    final(self)@ == old(self)@.step(Some(d))
                },
            },
    {
        if self.game_over {
            return;
        }
        match key {
            None => {},
            Some(d) => {
                if d == self.snake.head_direction().opposite() {
                    return;
                }
                self.update_snake(Some(d));
            },
        }
    }

    /// Advance time by `delta_micros` (the counter saturates rather than
    /// wrap). After a collision the world waits, then restarts once more
    /// than RESTART_TIME_MICROS has accumulated. While running, absent food
    /// is replenished first, and once more than MOVING_PERIOD_MICROS has
    /// accumulated the snake takes one step in its current heading.
    pub fn update(&mut self, delta_micros: u64)
        requires
            old(self)@.wf(),
        ensures
            final(self)@.wf(),
            ({
                let w = sat_add_u64(old(self)@.waiting, delta_micros as int);
                &&& (old(self)@.game_over && w > RESTART_TIME_MICROS
                    ==> final(self)@ == old(self)@.restarted())
                &&& (old(self)@.game_over && w <= RESTART_TIME_MICROS
                    ==> final(self)@ == old(self)@.with_waiting(w))
                &&& (!old(self)@.game_over ==> exists|mid: GameView|
                    {
                        &&& #[trigger] spawn_step(old(self)@.with_waiting(w), mid)
                        &&& mid.wf()
                        &&& !mid.game_over
                        &&& w > MOVING_PERIOD_MICROS ==> final(self)@ == mid.step(None)
                        &&& w <= MOVING_PERIOD_MICROS ==> final(self)@ == mid
                    })
            }),
    {
        let ghost w = sat_add_u64(old(self)@.waiting, delta_micros as int);
        self.waiting_time = if delta_micros <= u64::MAX - self.waiting_time {
            self.waiting_time + delta_micros
        } else {
            u64::MAX
        };
        proof {
            assert(self@ =~~= old(self)@.with_waiting(w));
        }
        if self.game_over {
            if self.waiting_time > RESTART_TIME_MICROS {
                self.restart();
                proof {
                    assert(self@ =~~= old(self)@.restarted());
                }
            }
            return;
        }
        if !self.food_exists {
            self.add_food();
        }
        let ghost mid = self@;
        proof {
            assert(spawn_step(old(self)@.with_waiting(w), mid));
        }
        if self.waiting_time > MOVING_PERIOD_MICROS {
            self.update_snake(None);
        }
    }
}

/// The invariants survive one simulation step: the body stays a connected
/// run of at least three cells inside the playable area, and surviving food
/// stays inside the playable area and off the body.
pub proof fn lemma_step_preserves_wf(g: GameView, d: Option<Direction>)
    requires
        g.wf(),
        !g.game_over,
    ensures
        g.step(d).wf(),
{
    if !g.step_collides(d) {
        let s0 = g.snake;
        let n = s0.body.len() as int;
        let s1 = s0.moved(d);
        let (nx, ny) = s0.next_head(d);
        let nh = Block { x: nx as i32, y: ny as i32 };
        assert(g.playable(s0.body[0].x as int, s0.body[0].y as int));
        assert(adjacent(nh, s0.head()));
        assert(s1.body.len() == n);
        assert(forall|i: int| 1 <= i < n ==> #[trigger] s1.body[i] == s0.body[i - 1]);
        assert forall|i: int| 0 <= i < n - 1 implies adjacent(
            #[trigger] s1.body[i],
            s1.body[i + 1],
        ) by {
            if i >= 1 {
                assert(adjacent(s0.body[i - 1], s0.body[i]));
            }
        }
        assert forall|i: int| 0 <= i < n implies g.playable(
            (#[trigger] s1.body[i]).x as int,
            s1.body[i].y as int,
        ) by {
            if i >= 1 {
                assert(g.playable(s0.body[i - 1].x as int, s0.body[i - 1].y as int));
            }
        }
        if g.step_eats(d) {
            let s2 = s1.grown();
            assert(s2.body.len() == n + 1);
            assert(s2.body.last() == s0.body.last());
            assert(adjacent(s0.body[n - 2], s0.body[n - 1]));
            assert forall|i: int| 0 <= i < n implies adjacent(
                #[trigger] s2.body[i],
                s2.body[i + 1],
            ) by {
                if i < n - 1 {
                    assert(adjacent(s1.body[i], s1.body[i + 1]));
                } else {
                    assert(s2.body[i] == s0.body[n - 2]);
                    assert(s2.body[i + 1] == s0.body[n - 1]);
                }
            }
            assert(g.playable(s0.body[n - 1].x as int, s0.body[n - 1].y as int));
        } else {
            if g.step(d).food_exists {
                assert(!g.snake.hits(g.food.x as int, g.food.y as int));
                assert forall|i: int|
                    0 <= i < g.step(d).snake.body.len() - 1 implies !((#[trigger] g.step(
                    d,
                ).snake.body[i]).x == g.food.x as int && g.step(d).snake.body[i].y
                    == g.food.y as int) by {
                    if i == 0 {
                        assert(!g.step_eats(d));
                    } else {
                        assert(g.step(d).snake.body[i] == s0.body[i - 1]);
                        assert(!s0.hits(g.food.x as int, g.food.y as int));
                    }
                }
            }
        }
    }
}

/// A simulation step never lowers the score; only a restart does. Together
/// with `restarted`, which pins the score to zero, this makes the score
/// monotone between restarts.
pub proof fn lemma_step_score_monotone(g: GameView, d: Option<Direction>)
    requires
        g.score <= u64::MAX,
    ensures
        g.step(d).score >= g.score,
{
}

/// A blocked step only records the collision: the world turns to game over
/// and the snake, the food and the score stay exactly as they were.
pub proof fn lemma_collision_halts(g: GameView, d: Option<Direction>)
    requires
        g.step_collides(d),
    ensures
        g.step(d).game_over,
        g.step(d).snake == g.snake,
        g.step(d).food_exists == g.food_exists,
        g.step(d).food == g.food,
        g.step(d).score == g.score,
{
}

/// Growth: a step that eats lengthens the body by exactly one and consumes
/// the food; any other step keeps the length. So the body length changes
/// only on the step that eats, and stays until the next food is eaten.
pub proof fn lemma_step_growth(g: GameView, d: Option<Direction>)
    requires
        g.snake.body.len() >= 1,
    ensures
        g.step_eats(d) ==> g.step(d).snake.body.len() == g.snake.body.len() + 1 && !g.step(
            d,
        ).food_exists,
        !g.step_eats(d) ==> g.step(d).snake.body.len() == g.snake.body.len(),
{
}

/// Tail passage: a step whose target is the cell of the snake's hindmost
/// segment is legal and does not end the game — the rear vacates that cell
/// during the very same step — provided the cell is not also covered by
/// another segment.
pub proof fn lemma_tail_passage(g: GameView, d: Option<Direction>)
    requires
        g.wf(),
        !g.game_over,
        g.snake.next_head(d) == (g.snake.body.last().x as int, g.snake.body.last().y as int),
        forall|i: int|
            0 <= i < g.snake.body.len() - 1 ==> #[trigger] g.snake.body[i]
                != g.snake.body.last(),
    ensures
        !g.step_collides(d),
        !g.step(d).game_over,
{
    let (nx, ny) = g.snake.next_head(d);
    let n = g.snake.body.len() as int;
    assert(g.playable(g.snake.body[n - 1].x as int, g.snake.body[n - 1].y as int));
    if g.snake.hits(nx, ny) {
        let i = choose|i: int|
            0 <= i < g.snake.body.len() - 1 && (#[trigger] g.snake.body[i]).x == nx
                && g.snake.body[i].y == ny;
        assert(g.snake.body[i] == g.snake.body.last());
        assert(false);
    }
}

} // verus!
