use vstd::prelude::*;

use crate::point::{Direction, Point};
use crate::rng::rng_below;

verus! {

/// The snake game's board state: the snake's body from tail to head, the
/// food still on the board, the direction of travel and the score so far.
pub struct Snake {
    pub width: u8,
    pub height: u8,
    pub direction: Direction,
    pub points: Vec<Point>,
    pub food: Vec<Point>,
    pub score: u32,
}

impl Snake {
    /// The point sits on the board.
    pub open spec fn on_board(self, p: Point) -> bool {
        0 <= p.x < self.width && 0 <= p.y < self.height
    }

    /// The board is non-degenerate, small enough for `i8` coordinates, the
    /// snake has a body, and everything sits on the board.
    pub open spec fn wf(self) -> bool {
        &&& 1 <= self.width <= 127
        &&& 1 <= self.height <= 127
        &&& self.points@.len() >= 1
        &&& forall|i: int| 0 <= i < self.points@.len() ==> self.on_board(#[trigger] self.points@[i])
        &&& forall|i: int| 0 <= i < self.food@.len() ==> self.on_board(#[trigger] self.food@[i])
    }

    /// A fresh game: the snake is one segment in the middle of the board,
    /// and `food_count` pieces of food land on cells drawn at random.
    pub fn new(width: u8, height: u8, direction: Direction, food_count: u8, rng: &mut
        rand::rngs::StdRng) -> (r: Snake)
        requires
            1 <= width <= 127,
            1 <= height <= 127,
        ensures
            r.wf(),
            r.width == width,
            r.height == height,
            r.direction == direction,
            r.score == 0,
            r.food@.len() == food_count,
            r.points@ == seq![Point { x: (width / 2) as i8, y: (height / 2) as i8 }],
    {
        let mut food: Vec<Point> = Vec::new();

        for _i in 0..food_count
            invariant
                1 <= width <= 127,
                1 <= height <= 127,
                food@.len() == _i,
                forall|k: int|
                    0 <= k < food@.len() ==> 0 <= (#[trigger] food@[k]).x < width && 0
                        <= food@[k].y < height,
        {
            let fx = rng_below(rng, width as usize) as i8;
            let fy = rng_below(rng, height as usize) as i8;
            food.push(Point::new(fx, fy));
        }

        let mut points: Vec<Point> = Vec::new();
        points.push(Point::new((width / 2) as i8, (height / 2) as i8));
        proof {
            assert(points@ =~= seq![Point { x: (width / 2) as i8, y: (height / 2) as i8 }]);
        }

        Snake { width, height, points, direction, food, score: 0 }
    }

    /// The snake's head.
    pub fn last(&self) -> (r: &Point)
        requires
            self.points@.len() >= 1,
        ensures
            *r == self.points@[self.points@.len() - 1],
    {
        &self.points[self.points.len() - 1]
    }

    /// The same game steered into `direction`.
    pub fn mv(&self, direction: Direction) -> (r: Snake)
        ensures
            r.width == self.width,
            r.height == self.height,
            r.points@ == self.points@,
            r.direction == direction,
            r.food@ == self.food@,
            r.score == self.score,
    {
        Snake {
            width: self.width,
            height: self.height,
            points: clone_points(&self.points),
            direction,
            food: clone_points(&self.food),
            score: self.score,
        }
    }

    /// One tick of the game. The head advances one cell; hitting a wall or
    /// the snake's own body ends the game (`None`). Food lying under the
    /// head is eaten: the snake grows by one segment, the food is replaced
    /// by a new random piece, and the score rises by 100. Otherwise the
    /// tail moves up.
    pub fn next(&self, rng: &mut rand::rngs::StdRng) -> (r: Option<Snake>)
        requires
            self.wf(),
            self.score <= u32::MAX - 100,
        ensures
            ({
                let head = self.points@[self.points@.len() - 1];
                let target = head.spec_mv(self.direction);
                let blocked = !self.on_board(target) || (exists|k: int|
                    0 <= k < self.points@.len() && self.points@[k] == target);
                let eats = exists|j: int| 0 <= j < self.food@.len() && self.food@[j] == head;
                match r {
                    None => blocked,
                    Some(s) => {
                        &&& !blocked
                        &&& s.wf()
                        &&& s.width == self.width
                        &&& s.height == self.height
                        &&& s.direction == self.direction
                        &&& (if eats {
                            &&& s.score == self.score + 100
                            &&& s.points@ == self.points@.push(target)
                            &&& (exists|j: int, q: Point|
                                0 <= j < self.food@.len() && self.food@[j] == head && (forall|
                                    k: int,
                                | 0 <= k < j ==> self.food@[k] != head) && self.on_board(q)
                                    && s.food@ == self.food@.remove(j).push(q))
                        } else {
                            &&& s.score == self.score
                            &&& s.points@ == self.points@.remove(0).push(target)
                            &&& s.food@ == self.food@
                        })
                    },
                }
            }),
    {
        let last = self.last();

        let point = last.mv(&self.direction);

        if point.x < 0 || point.x >= self.width as i8 || point.y < 0 || point.y >= self.height as i8
            || self.contains_point(&point) {
            return None;
        }

        let mut food: Vec<Point> = clone_points(&self.food);

        let head = *self.last();
        let food_found = self.find_food_at(&head);

        let mut points: Vec<Point> = clone_points(&self.points);

        let mut score = self.score;

        if let Some(food_index) = food_found {
            food.remove(food_index);
            let fx = rng_below(rng, self.width as usize) as i8;
            let fy = rng_below(rng, self.height as usize) as i8;
            food.push(Point::new(fx, fy));
            score = score + 100;
        } else {
            points.remove(0);
        }

        points.push(point);

        Some(
            Snake {
                width: self.width,
                height: self.height,
                points,
                direction: self.direction,
                food,
                score,
            },
        )
    }

    /// Whether the snake's body covers `p`.
    fn contains_point(&self, p: &Point) -> (r: bool)
        ensures
            r == exists|k: int| 0 <= k < self.points@.len() && self.points@[k] == *p,
    {
        let n = self.points.len();
        for i in 0..n
            invariant
                n == self.points@.len(),
                forall|k: int| 0 <= k < i ==> self.points@[k] != *p,
        {
            if self.points[i].x == p.x && self.points[i].y == p.y {
                proof {
                    assert(self.points@[i as int] == *p);
                }
                return true;
            }
        }
        false
    }

    /// The index of the first piece of food lying on `p`, if any.
    fn find_food_at(&self, p: &Point) -> (r: Option<usize>)
        ensures
            match r {
                Some(j) => 0 <= j < self.food@.len() && self.food@[j as int] == *p && (forall|
                    k: int,
                | 0 <= k < j ==> self.food@[k] != *p),
                None => forall|k: int| 0 <= k < self.food@.len() ==> self.food@[k] != *p,
            },
    {
        let n = self.food.len();
        for i in 0..n
            invariant
                n == self.food@.len(),
                forall|k: int| 0 <= k < i ==> self.food@[k] != *p,
        {
            if self.food[i].x == p.x && self.food[i].y == p.y {
                proof {
                    assert(self.food@[i as int] == *p);
                }
                return Some(i);
            }
        }
        None
    }

    /// The score so far.
    pub fn score(&self) -> (r: u32)
        ensures
            r == self.score,
    {
        self.score
    }
}

/// A fresh vector with the same points.
fn clone_points(v: &Vec<Point>) -> (r: Vec<Point>)
    ensures
        r@ == v@,
{
    let mut r: Vec<Point> = Vec::new();
    let n = v.len();
    for i in 0..n
        invariant
            n == v@.len(),
            r@ == v@.take(i as int),
    {
        r.push(v[i]);
        proof {
            assert(r@ =~= v@.take(i as int + 1));
        }
    }
    proof {
        assert(v@.take(n as int) =~= v@);
    }
    r
}

} // verus!
