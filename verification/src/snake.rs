//! The snake: an ordered run of grid cells with a heading.

use vstd::prelude::*;

verus! {

/// One grid cell, addressed by signed column `x` and row `y`.
/// The origin is the top-left corner; `x` grows rightward, `y` grows downward.
#[derive(Clone, Copy, PartialEq, Eq, Structural, Debug)]
pub struct Block {
    pub x: i32,
    pub y: i32,
}

/// A movement heading on the grid.
#[derive(Clone, Copy, PartialEq, Eq, Structural, Debug)]
pub enum Direction {
    Up,
    Down,
    Left,
    Right,
}

impl Direction {
    /// The heading that points the other way.
    pub open spec fn opposite_spec(self) -> Direction {
        match self {
            Direction::Up => Direction::Down,
            Direction::Down => Direction::Up,
            Direction::Left => Direction::Right,
            Direction::Right => Direction::Left,
        }
    }

    pub fn opposite(&self) -> (d: Direction)
        ensures
            d == self.opposite_spec(),
    {
        match *self {
            Direction::Up => Direction::Down,
            Direction::Down => Direction::Up,
            Direction::Left => Direction::Right,
            Direction::Right => Direction::Left,
        }
    }
}

/// Two cells side by side: they differ by one unit along exactly one axis.
pub open spec fn adjacent(a: Block, b: Block) -> bool {
    ||| (a.x == b.x && (a.y - b.y == 1 || b.y - a.y == 1))
    ||| (a.y == b.y && (a.x - b.x == 1 || b.x - a.x == 1))
}

/// The cell one step from `from` along `dir`, as unbounded coordinates.
pub open spec fn step_cell(from: Block, dir: Direction) -> (int, int) {
    match dir {
        Direction::Up => (from.x as int, from.y - 1),
        Direction::Down => (from.x as int, from.y + 1),
        Direction::Right => (from.x + 1, from.y as int),
        Direction::Left => (from.x - 1, from.y as int),
    }
}

/// Mathematical image of a snake: its heading, its cells head-first, and the
/// cell most recently vacated by the rear end.
#[verifier::ext_equal]
pub struct SnakeView {
    pub dir: Direction,
    pub body: Seq<Block>,
    pub tail: Option<Block>,
}

impl SnakeView {
    /// The shape every snake keeps: at least one cell, and consecutive
    /// cells touching along exactly one axis.
    pub open spec fn wf(self) -> bool {
        &&& self.body.len() >= 1
        &&& forall|i: int|
            0 <= i < self.body.len() - 1 ==> adjacent(#[trigger] self.body[i], self.body[i + 1])
    }

    /// The front cell, which leads motion.
    pub open spec fn head(self) -> Block {
        self.body[0]
    }

    /// The heading one step would use: `d` if given, the current one otherwise.
    pub open spec fn dir_after(self, d: Option<Direction>) -> Direction {
        match d {
            Some(nd) => nd,
            None => self.dir,
        }
    }

    /// The cell the head would occupy after one step along `d`.
    pub open spec fn next_head(self, d: Option<Direction>) -> (int, int) {
        step_cell(self.head(), self.dir_after(d))
    }

    /// Whether `(x, y)` lands on the body, the hindmost cell excepted: the
    /// rear cell is vacated during the very step that could reach it, so a
    /// step onto it is not a collision.
    pub open spec fn hits(self, x: int, y: int) -> bool {
        exists|i: int|
            0 <= i < self.body.len() - 1 && (#[trigger] self.body[i]).x == x && self.body[i].y
                == y
    }

    /// The snake after one forward step along `d`: the projected head cell is
    /// pushed in front, the hindmost cell is popped and remembered.
    pub open spec fn moved(self, d: Option<Direction>) -> SnakeView {
        SnakeView {
            dir: self.dir_after(d),
            body: seq![
                Block { x: self.next_head(d).0 as i32, y: self.next_head(d).1 as i32 },
            ] + self.body.drop_last(),
            tail: Some(self.body.last()),
        }
    }

    /// The snake after the remembered rear cell is put back: the growth step.
    pub open spec fn grown(self) -> SnakeView {
        SnakeView { dir: self.dir, body: self.body.push(self.tail->0), tail: self.tail }
    }
}

/// The image of a newly built snake anchored at `(x, y)`: three cells in a
/// row heading right, the head at `(x + 2, y)`.
pub open spec fn fresh_snake(x: int, y: int) -> SnakeView {
    SnakeView {
        dir: Direction::Right,
        body: seq![
            Block { x: (x + 2) as i32, y: y as i32 },
            Block { x: (x + 1) as i32, y: y as i32 },
            Block { x: x as i32, y: y as i32 },
        ],
        tail: None,
    }
}

/// An ordered run of grid cells with a heading. The front of `body` is the
/// head, the back is the tail; `tail` holds the cell most recently popped by
/// a forward move, so that eating can restore it.
pub struct Snake {
    direction: Direction,
    body: Vec<Block>,
    tail: Option<Block>,
}

impl View for Snake {
    type V = SnakeView;

    closed spec fn view(&self) -> SnakeView {
        SnakeView { dir: self.direction, body: self.body@, tail: self.tail }
    }
}

impl Snake {
    /// A fresh length-3 snake heading right, its head at `(x + 2, y)`.
    pub fn new(x: i32, y: i32) -> (s: Snake)
        requires
            x + 2 <= i32::MAX,
        ensures
            s@ == fresh_snake(x as int, y as int),
            s@.wf(),
    {
        let mut body: Vec<Block> = Vec::new();
        body.push(Block { x: x + 2, y });
        body.push(Block { x: x + 1, y });
        body.push(Block { x, y });
        let s = Snake { direction: Direction::Right, body, tail: None };
        proof {
            assert(s@ =~= fresh_snake(x as int, y as int));
        }
        s
    }

    /// The cells of the body, head-first.
    pub fn blocks(&self) -> (v: &Vec<Block>)
        ensures
            v@ == self@.body,
    {
        &self.body
    }

    /// The cell at the front of the body.
    pub fn head_position(&self) -> (p: (i32, i32))
        requires
            self@.body.len() >= 1,
        ensures
            p.0 == self@.head().x,
            p.1 == self@.head().y,
    {
        let head_block = &self.body[0];
        (head_block.x, head_block.y)
    }

    /// The current heading.
    pub fn head_direction(&self) -> (d: Direction)
        ensures
            d == self@.dir,
    {
        self.direction
    }

    /// The cell the head would occupy after one step along `direction`
    /// (falling back to the current heading). Does not mutate.
    pub fn next_head(&self, direction: Option<Direction>) -> (p: (i32, i32))
        requires
            self@.body.len() >= 1,
            i32::MIN < self@.head().x < i32::MAX,
            i32::MIN < self@.head().y < i32::MAX,
        ensures
            (p.0 as int, p.1 as int) == self@.next_head(direction),
    {
        let (head_x, head_y) = self.head_position();
        let moving_direction = match direction {
            Some(d) => d,
            None => self.direction,
        };
        match moving_direction {
            Direction::Up => (head_x, head_y - 1),
            Direction::Down => (head_x, head_y + 1),
            Direction::Right => (head_x + 1, head_y),
            Direction::Left => (head_x - 1, head_y),
        }
    }

    /// One step forward: adopt `direction` if given, push the projected head
    /// cell in front, pop the hindmost cell and remember it. The length is
    /// preserved.
    pub fn move_forward(&mut self, direction: Option<Direction>)
        requires
            old(self)@.body.len() >= 1,
            i32::MIN < old(self)@.head().x < i32::MAX,
            i32::MIN < old(self)@.head().y < i32::MAX,
        ensures
            final(self)@ == old(self)@.moved(direction),
    {
        match direction {
            Some(d) => self.direction = d,
            None => {},
        }
        let (last_x, last_y) = self.head_position();
        let new_block = match self.direction {
            Direction::Up => Block { x: last_x, y: last_y - 1 },
            Direction::Down => Block { x: last_x, y: last_y + 1 },
            Direction::Right => Block { x: last_x + 1, y: last_y },
            Direction::Left => Block { x: last_x - 1, y: last_y },
        };
        self.body.insert(0, new_block);
        let removed_block = self.body.pop().unwrap();
        self.tail = Some(removed_block);
        proof {
            assert(self@.body =~= old(self)@.moved(direction).body);
            assert(self@ =~= old(self)@.moved(direction));
        }
    }

    /// Put the remembered rear cell back at the rear: the growth step.
    pub fn restore_tail(&mut self)
        requires
            old(self)@.tail is Some,
        ensures
            final(self)@ == old(self)@.grown(),
    {
        let block = self.tail.unwrap();
        self.body.push(block);
        proof {
            assert(self@ =~= old(self)@.grown());
        }
    }

    /// Whether `(x, y)` lands on the body, the hindmost cell excepted.
    pub fn overlap_tail(&self, x: i32, y: i32) -> (r: bool)
        requires
            self@.body.len() >= 1,
        ensures
            r == self@.hits(x as int, y as int),
    {
        let n = self.body.len();
        let mut i: usize = 0;
        while i + 1 < n
            invariant
                n == self@.body.len(),
                1 <= n,
                0 <= i <= n - 1,
                forall|j: int|
                    0 <= j < i ==> !((#[trigger] self@.body[j]).x == x && self@.body[j].y == y),
            decreases n - i,
        {
            let b = &self.body[i];
            if x == b.x && y == b.y {
                return true;
            }
            i = i + 1;
        }
        false
    }
}

} // verus!
