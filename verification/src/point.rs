use vstd::prelude::*;

verus! {

/// A cell coordinate on a small game board.
#[derive(Clone, Copy, Debug, PartialEq, Eq, Structural)]
pub struct Point {
    pub x: i8,
    pub y: i8,
}

/// The four orthogonal directions an agent or a snake can move in.
#[derive(Clone, Copy, Debug, PartialEq, Eq, Structural)]
pub enum Direction {
    North,
    South,
    East,
    West,
}

impl Point {
    pub fn new(x: i8, y: i8) -> (r: Point)
        ensures
            r.x == x,
            r.y == y,
    {
        Point { x, y }
    }

    pub fn down(&self) -> (r: Point)
        requires
            self.y < i8::MAX,
        ensures
            r.x == self.x,
            r.y == self.y + 1,
    {
        Point::new(self.x, self.y + 1)
    }

    pub fn right(&self) -> (r: Point)
        requires
            self.x < i8::MAX,
        ensures
            r.x == self.x + 1,
            r.y == self.y,
    {
        Point::new(self.x + 1, self.y)
    }

    pub fn left(&self) -> (r: Point)
        requires
            self.x > i8::MIN,
        ensures
            r.x == self.x - 1,
            r.y == self.y,
    {
        Point::new(self.x - 1, self.y)
    }

    pub fn up(&self) -> (r: Point)
        requires
            self.y > i8::MIN,
        ensures
            r.x == self.x,
            r.y == self.y - 1,
    {
        Point::new(self.x, self.y - 1)
    }

    /// Where a step in `direction` lands: north and south change `y`,
    /// east and west change `x`.
    pub open spec fn spec_mv(self, direction: Direction) -> Point {
        match direction {
            Direction::North => Point { x: self.x, y: (self.y - 1) as i8 },
            Direction::South => Point { x: self.x, y: (self.y + 1) as i8 },
            Direction::East => Point { x: (self.x + 1) as i8, y: self.y },
            Direction::West => Point { x: (self.x - 1) as i8, y: self.y },
        }
    }

    pub fn mv(&self, direction: &Direction) -> (r: Point)
        requires
            *direction == Direction::North ==> self.y > i8::MIN,
            *direction == Direction::South ==> self.y < i8::MAX,
            *direction == Direction::East ==> self.x < i8::MAX,
            *direction == Direction::West ==> self.x > i8::MIN,
        ensures
            r == self.spec_mv(*direction),
    {
        match direction {
            Direction::North => self.up(),
            Direction::South => self.down(),
            Direction::East => self.right(),
            Direction::West => self.left(),
        }
    }
}

} // verus!
