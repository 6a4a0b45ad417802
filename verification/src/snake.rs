use vstd::prelude::*;
use std::collections::VecDeque;

use crate::food::Food;
use crate::grid::direction::spec_inverse;
use crate::grid::{spec_moved, Direction, GridPosition};

verus! {

/// One cell of the snake's body.
#[derive(Clone, Copy, PartialEq, Eq, Structural, Debug)]
pub struct Segment {
    pub pos: GridPosition,
}

impl Segment {
    pub fn new(pos: GridPosition) -> (r: Self)
        ensures
            r.pos == pos,
    {
        Segment { pos }
    }
}

/// What the snake ran into on its last move.
#[derive(Clone, Copy, PartialEq, Eq, Structural, Debug)]
pub enum Ate {
    Itself,
    Food,
}

/// The snake: its head, where it heads, its body from the neck to the tail,
/// what it ate on its last move, the direction of that move, and a turn
/// queued for later.
pub struct Snake {
    pub head: Segment,
    pub dir: Direction,
    pub body: VecDeque<Segment>,
    pub ate: Option<Ate>,
    pub last_update_dir: Direction,
    pub next_dir: Option<Direction>,
}

/// The direction a snake whose head is at `head` and heads `dir` takes
/// towards food at `food`: along the columns first, then the rows.
pub open spec fn spec_chase(head: GridPosition, dir: Direction, food: GridPosition) -> Direction {
    if food.x > head.x {
        Direction::Right
    } else if food.x < head.x {
        Direction::Left
    } else if food.y < head.y {
        Direction::Up
    } else if food.y > head.y {
        Direction::Down
    } else {
        dir
    }
}

impl Snake {
    /// A snake with its head at `pos`, one body segment to its left, heading right.
    pub fn new(pos: GridPosition) -> (r: Self)
        requires
            pos.x > i16::MIN,
        ensures
            r.head.pos == pos,
            r.body@ == seq![Segment { pos: GridPosition { x: (pos.x - 1) as i16, y: pos.y } }],
            r.dir == Direction::Right,
            r.last_update_dir == Direction::Right,
            r.ate is None,
            r.next_dir is None,
    {
        let mut body: VecDeque<Segment> = VecDeque::new();
        body.push_back(Segment::new(GridPosition::new(pos.x - 1, pos.y)));
        assert(body@ =~= seq![Segment { pos: GridPosition { x: (pos.x - 1) as i16, y: pos.y } }]);
        Snake {
            head: Segment::new(pos),
            dir: Direction::Right,
            last_update_dir: Direction::Right,
            body,
            ate: None,
            next_dir: None,
        }
    }

    /// Whether the head is on the food.
    pub fn eats(&self, food: &Food) -> (r: bool)
        ensures
            r == (self.head.pos == food.pos),
    {
        self.head.pos == food.pos
    }

    /// Whether the head is on one of the body's segments.
    pub fn eats_self(&self) -> (r: bool)
        ensures
            r == self.body@.contains(self.head),
    {
        let mut i: usize = 0;
        while i < self.body.len()
            invariant
                0 <= i <= self.body@.len(),
                forall|j: int| 0 <= j < i ==> self.body@[j] != self.head,
            decreases self.body@.len() - i,
        {
            if self.head.pos == self.body[i].pos {
                assert(self.body@[i as int] == self.head);
                return true;
            }
            i = i + 1;
        }
        false
    }

    /// One move: the snake turns towards the food (see `spec_chase`), its
    /// head moves one cell on (wrapping around the grid), and it notes what
    /// it ran into: itself before the food. Unless it ate, its tail moves up.
    pub fn update(&mut self, food: &Food)
        ensures
            ({
                let dir = spec_chase(old(self).head.pos, old(self).dir, food.pos);
                let new_head = Segment { pos: spec_moved(old(self).head.pos, dir) };
                let grown = seq![old(self).head] + old(self).body@;
                let ate = if grown.contains(new_head) {
                    Some(Ate::Itself)
                } else if new_head.pos == food.pos {
                    Some(Ate::Food)
                } else {
                    None
                };
                &&& final(self).dir == dir
                &&& final(self).head == new_head
                &&& final(self).ate == ate
                &&& final(self).body@ == (if ate is None {
                    grown.drop_last()
                } else {
                    grown
                })
                &&& final(self).last_update_dir == dir
                &&& final(self).next_dir == old(self).next_dir
            }),
            final(self).body@.len() == old(self).body@.len() + (if final(self).ate is Some {
                1int
            } else {
                0int
            }),
    {
        if food.pos.x > self.head.pos.x {
            self.dir = Direction::Right;
        } else if food.pos.x < self.head.pos.x {
            self.dir = Direction::Left;
        } else if food.pos.y < self.head.pos.y {
            self.dir = Direction::Up;
        } else if food.pos.y > self.head.pos.y {
            self.dir = Direction::Down;
        }
        let new_head_pos = GridPosition::new_from_move(self.head.pos, self.dir);
        let new_head = Segment::new(new_head_pos);
        self.body.push_front(self.head);
        assert(self.body@ =~= seq![old(self).head] + old(self).body@);
        self.head = new_head;
        if self.eats_self() {
            self.ate = Some(Ate::Itself);
        } else if self.eats(food) {
            self.ate = Some(Ate::Food);
        } else {
            self.ate = None;
        }
        if self.ate.is_none() {
            self.body.pop_back();
        }
        self.last_update_dir = self.dir;
    }

    /// A key asks the snake to turn to `dir`: while a turn is pending since
    /// the last move, a second one is queued (unless it reverses the
    /// pending one); otherwise the snake turns, unless that reverses its
    /// last move.
    pub fn keydir(&mut self, dir: Direction)
        ensures
            old(self).dir != old(self).last_update_dir && spec_inverse(dir) != old(self).dir ==> *final(self) == (
            Snake { next_dir: Some(dir), ..*old(self) }),
            !(old(self).dir != old(self).last_update_dir && spec_inverse(dir) != old(self).dir) && spec_inverse(dir)
                != old(self).last_update_dir ==> *final(self) == (Snake { dir, ..*old(self) }),
            !(old(self).dir != old(self).last_update_dir && spec_inverse(dir) != old(self).dir) && spec_inverse(dir)
                == old(self).last_update_dir ==> *final(self) == *old(self),
    {
        if self.dir != self.last_update_dir && dir.inverse() != self.dir {
            self.next_dir = Some(dir);
        } else if dir.inverse() != self.last_update_dir {
            self.dir = dir;
        }
    }
}

} // verus!
