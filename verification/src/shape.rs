use vstd::prelude::*;

use crate::console::Color;
use crate::grid::Grid;
use crate::point::Point;

verus! {

/// A tetromino: four points around a pivot, plus the color it is drawn in.
/// Every point stays within two cells of the pivot, also under rotation.
#[derive(Clone, Debug)]
pub struct Shape {
    pub points: Vec<Point>,
    pub color: Color,
}

/// What an integer becomes when cast to `u8`: negatives wrap around, which
/// sends an off-board paint target far outside any real board.
pub open spec fn wrap_u8(v: int) -> int {
    if v >= 0 {
        v
    } else {
        v + 256
    }
}

impl Shape {
    /// Every point of the shape lies within two cells of the pivot.
    pub open spec fn wf(self) -> bool {
        forall|i: int|
            #![trigger self.points@[i]]
            0 <= i < self.points@.len() ==> -2 <= self.points@[i].x <= 2 && -2
                <= self.points@[i].y <= 2
    }

    pub fn o() -> (r: Shape)
        ensures
            r.points@ == seq![
                Point { x: -1i8, y: 0i8 },
                Point { x: 0i8, y: 0i8 },
                Point { x: -1i8, y: 1i8 },
                Point { x: 0i8, y: 1i8 },
            ],
            r.color == Color::Yellow,
            r.wf(),
    {
        let mut points: Vec<Point> = Vec::new();
        points.push(Point::new(-1, 0));
        points.push(Point::new(0, 0));
        points.push(Point::new(-1, 1));
        points.push(Point::new(0, 1));
        proof {
            assert(points@ =~= seq![
                Point { x: -1i8, y: 0i8 },
                Point { x: 0i8, y: 0i8 },
                Point { x: -1i8, y: 1i8 },
                Point { x: 0i8, y: 1i8 },
            ]);
        }
        Shape { points, color: Color::Yellow }
    }

    pub fn i() -> (r: Shape)
        ensures
            r.points@ == seq![
                Point { x: -2i8, y: 0i8 },
                Point { x: -1i8, y: 0i8 },
                Point { x: 0i8, y: 0i8 },
                Point { x: 1i8, y: 0i8 },
            ],
            r.color == Color::Cyan,
            r.wf(),
    {
        let mut points: Vec<Point> = Vec::new();
        points.push(Point::new(-2, 0));
        points.push(Point::new(-1, 0));
        points.push(Point::new(0, 0));
        points.push(Point::new(1, 0));
        proof {
            assert(points@ =~= seq![
                Point { x: -2i8, y: 0i8 },
                Point { x: -1i8, y: 0i8 },
                Point { x: 0i8, y: 0i8 },
                Point { x: 1i8, y: 0i8 },
            ]);
        }
        Shape { points, color: Color::Cyan }
    }

    pub fn l() -> (r: Shape)
        ensures
            r.points@ == seq![
                Point { x: -1i8, y: 0i8 },
                Point { x: 0i8, y: 0i8 },
                Point { x: 1i8, y: 0i8 },
                Point { x: -1i8, y: 1i8 },
            ],
            r.color == Color::Blue,
            r.wf(),
    {
        let mut points: Vec<Point> = Vec::new();
        points.push(Point::new(-1, 0));
        points.push(Point::new(0, 0));
        points.push(Point::new(1, 0));
        points.push(Point::new(-1, 1));
        proof {
            assert(points@ =~= seq![
                Point { x: -1i8, y: 0i8 },
                Point { x: 0i8, y: 0i8 },
                Point { x: 1i8, y: 0i8 },
                Point { x: -1i8, y: 1i8 },
            ]);
        }
        Shape { points, color: Color::Blue }
    }

    pub fn s() -> (r: Shape)
        ensures
            r.points@ == seq![
                Point { x: 0i8, y: 0i8 },
                Point { x: 1i8, y: 0i8 },
                Point { x: -1i8, y: 1i8 },
                Point { x: 0i8, y: 1i8 },
            ],
            r.color == Color::Green,
            r.wf(),
    {
        let mut points: Vec<Point> = Vec::new();
        points.push(Point::new(0, 0));
        points.push(Point::new(1, 0));
        points.push(Point::new(-1, 1));
        points.push(Point::new(0, 1));
        proof {
            assert(points@ =~= seq![
                Point { x: 0i8, y: 0i8 },
                Point { x: 1i8, y: 0i8 },
                Point { x: -1i8, y: 1i8 },
                Point { x: 0i8, y: 1i8 },
            ]);
        }
        Shape { points, color: Color::Green }
    }

    pub fn z() -> (r: Shape)
        ensures
            r.points@ == seq![
                Point { x: -1i8, y: 0i8 },
                Point { x: 0i8, y: 0i8 },
                Point { x: 0i8, y: 1i8 },
                Point { x: 1i8, y: 1i8 },
            ],
            r.color == Color::Red,
            r.wf(),
    {
        let mut points: Vec<Point> = Vec::new();
        points.push(Point::new(-1, 0));
        points.push(Point::new(0, 0));
        points.push(Point::new(0, 1));
        points.push(Point::new(1, 1));
        proof {
            assert(points@ =~= seq![
                Point { x: -1i8, y: 0i8 },
                Point { x: 0i8, y: 0i8 },
                Point { x: 0i8, y: 1i8 },
                Point { x: 1i8, y: 1i8 },
            ]);
        }
        Shape { points, color: Color::Red }
    }

    /// The five tetrominoes a new piece is drawn from.
    pub fn shapes() -> (r: Vec<Shape>)
        ensures
            r@.len() == 5,
            r@[0].points@ == Shape::spec_o_points() && r@[0].color == Color::Yellow,
            r@[1].points@ == Shape::spec_i_points() && r@[1].color == Color::Cyan,
            r@[2].points@ == Shape::spec_l_points() && r@[2].color == Color::Blue,
            r@[3].points@ == Shape::spec_s_points() && r@[3].color == Color::Green,
            r@[4].points@ == Shape::spec_z_points() && r@[4].color == Color::Red,
            forall|i: int| 0 <= i < 5 ==> (#[trigger] r@[i]).wf(),
    {
        let mut v: Vec<Shape> = Vec::new();
        v.push(Shape::o());
        v.push(Shape::i());
        v.push(Shape::l());
        v.push(Shape::s());
        v.push(Shape::z());
        v
    }

    pub open spec fn spec_o_points() -> Seq<Point> {
        seq![Point { x: -1i8, y: 0i8 }, Point { x: 0i8, y: 0i8 }, Point { x: -1i8, y: 1i8 }, Point { x: 0i8, y: 1i8 }]
    }

    pub open spec fn spec_i_points() -> Seq<Point> {
        seq![Point { x: -2i8, y: 0i8 }, Point { x: -1i8, y: 0i8 }, Point { x: 0i8, y: 0i8 }, Point { x: 1i8, y: 0i8 }]
    }

    pub open spec fn spec_l_points() -> Seq<Point> {
        seq![Point { x: -1i8, y: 0i8 }, Point { x: 0i8, y: 0i8 }, Point { x: 1i8, y: 0i8 }, Point { x: -1i8, y: 1i8 }]
    }

    pub open spec fn spec_s_points() -> Seq<Point> {
        seq![Point { x: 0i8, y: 0i8 }, Point { x: 1i8, y: 0i8 }, Point { x: -1i8, y: 1i8 }, Point { x: 0i8, y: 1i8 }]
    }

    pub open spec fn spec_z_points() -> Seq<Point> {
        seq![Point { x: -1i8, y: 0i8 }, Point { x: 0i8, y: 0i8 }, Point { x: 0i8, y: 1i8 }, Point { x: 1i8, y: 1i8 }]
    }

    /// Paints the shape onto `grid` around pivot (`x`, `y`) in its own color.
    /// A point that lands off the board paints nothing.
    pub fn print(&self, grid: Grid, x: u8, y: u8) -> (r: Grid)
        requires
            self.wf(),
            grid.wf(),
            x <= 125,
            y <= 125,
        ensures
            r.wf(),
            r.width == grid.width,
            r.height == grid.height,
            forall|ix: int, iy: int|
                0 <= ix < grid.width && 0 <= iy < grid.height ==> r.cell(ix, iy) == (if exists|
                    k: int,
                |
                    0 <= k < self.points@.len() && wrap_u8(x + #[trigger] self.points@[k].x) == ix
                        && wrap_u8(y + self.points@[k].y) == iy {
                    self.color
                } else {
                    grid.cell(ix, iy)
                }),
    {
        self.stamp(grid, x, y, self.color)
    }

    /// Wipes the shape's cells around pivot (`x`, `y`) back to empty.
    pub fn clear(&self, grid: Grid, x: u8, y: u8) -> (r: Grid)
        requires
            self.wf(),
            grid.wf(),
            x <= 125,
            y <= 125,
        ensures
            r.wf(),
            r.width == grid.width,
            r.height == grid.height,
            forall|ix: int, iy: int|
                0 <= ix < grid.width && 0 <= iy < grid.height ==> r.cell(ix, iy) == (if exists|
                    k: int,
                |
                    0 <= k < self.points@.len() && wrap_u8(x + #[trigger] self.points@[k].x) == ix
                        && wrap_u8(y + self.points@[k].y) == iy {
                    Color::DefaultColor
                } else {
                    grid.cell(ix, iy)
                }),
    {
        self.stamp(grid, x, y, Color::DefaultColor)
    }

    fn stamp(&self, grid: Grid, x: u8, y: u8, color: Color) -> (r: Grid)
        requires
            self.wf(),
            grid.wf(),
            x <= 125,
            y <= 125,
        ensures
            r.wf(),
            r.width == grid.width,
            r.height == grid.height,
            forall|ix: int, iy: int|
                0 <= ix < grid.width && 0 <= iy < grid.height ==> r.cell(ix, iy) == (if exists|
                    k: int,
                |
                    0 <= k < self.points@.len() && wrap_u8(x + #[trigger] self.points@[k].x) == ix
                        && wrap_u8(y + self.points@[k].y) == iy {
                    color
                } else {
                    grid.cell(ix, iy)
                }),
    {
        let mut out = grid;
        let ghost orig = out;
        let n = self.points.len();
        for i in 0..n
            invariant
                n == self.points@.len(),
                self.wf(),
                out.wf(),
                orig.wf(),
                x <= 125,
                y <= 125,
                out.width == orig.width,
                out.height == orig.height,
                forall|ix: int, iy: int|
                    0 <= ix < orig.width && 0 <= iy < orig.height ==> out.cell(ix, iy) == (if exists|
                        k: int,
                    |
                        0 <= k < i && wrap_u8(x + #[trigger] self.points@[k].x) == ix && wrap_u8(
                            y + self.points@[k].y,
                        ) == iy {
                        color
                    } else {
                        orig.cell(ix, iy)
                    }),
        {
            let p = &self.points[i];
            let sx = x as i16 + p.x as i16;
            let sy = y as i16 + p.y as i16;
            let tx: u8 = if sx < 0 {
                (sx + 256) as u8
            } else {
                sx as u8
            };
            let ty: u8 = if sy < 0 {
                (sy + 256) as u8
            } else {
                sy as u8
            };
            let ghost before = out;
            out = out.set(tx, ty, color);
            proof {
                assert(tx as int == wrap_u8(x + self.points@[i as int].x));
                assert(ty as int == wrap_u8(y + self.points@[i as int].y));
                assert forall|ix: int, iy: int|
                    0 <= ix < orig.width && 0 <= iy < orig.height implies out.cell(ix, iy) == (
                if exists|
                    k: int,
                |
                    0 <= k < i + 1 && wrap_u8(x + #[trigger] self.points@[k].x) == ix && wrap_u8(
                        y + self.points@[k].y,
                    ) == iy {
                    color
                } else {
                    orig.cell(ix, iy)
                }) by {
                    if ix == tx && iy == ty {
                        assert(wrap_u8(x + self.points@[i as int].x) == ix && wrap_u8(
                            y + self.points@[i as int].y,
                        ) == iy);
                    } else {
                        assert(out.cell(ix, iy) == before.cell(ix, iy));
                        if exists|
                            k: int,
                        |
                            0 <= k < i && wrap_u8(x + #[trigger] self.points@[k].x) == ix
                                && wrap_u8(y + self.points@[k].y) == iy {
                            let k = choose|
                                k: int,
                            |
                                0 <= k < i && wrap_u8(x + #[trigger] self.points@[k].x) == ix
                                    && wrap_u8(y + self.points@[k].y) == iy;
                            assert(0 <= k < i + 1 && wrap_u8(x + self.points@[k].x) == ix
                                && wrap_u8(y + self.points@[k].y) == iy);
                        }
                    }
                }
            }
        }
        out
    }

    /// The shape's points shifted to pivot (`x`, `y`), as board coordinates.
    pub fn to_points(&self, x: i8, y: i8) -> (r: Vec<Point>)
        requires
            self.wf(),
            -125 <= x <= 125,
            -125 <= y <= 125,
        ensures
            r@.len() == self.points@.len(),
            forall|i: int|
                0 <= i < r@.len() ==> #[trigger] r@[i] == (Point {
                    x: (x + self.points@[i].x) as i8,
                    y: (y + self.points@[i].y) as i8,
                }),
    {
        let mut r: Vec<Point> = Vec::new();
        let n = self.points.len();
        for i in 0..n
            invariant
                n == self.points@.len(),
                self.wf(),
                -125 <= x <= 125,
                -125 <= y <= 125,
                r@.len() == i,
                forall|k: int|
                    0 <= k < i ==> #[trigger] r@[k] == (Point {
                        x: (x + self.points@[k].x) as i8,
                        y: (y + self.points@[k].y) as i8,
                    }),
        {
            let p = &self.points[i];
            r.push(Point { x: x + p.x, y: y + p.y });
        }
        r
    }

    /// A quarter turn clockwise: (x, y) becomes (-y, x).
    pub fn rotate_right(&self) -> (r: Shape)
        requires
            self.wf(),
        ensures
            r.wf(),
            r.color == self.color,
            r.points@.len() == self.points@.len(),
            forall|i: int|
                0 <= i < r.points@.len() ==> #[trigger] r.points@[i] == (Point {
                    x: (-self.points@[i].y) as i8,
                    y: self.points@[i].x,
                }),
    {
        let mut points: Vec<Point> = Vec::new();
        let n = self.points.len();
        for i in 0..n
            invariant
                n == self.points@.len(),
                self.wf(),
                points@.len() == i,
                forall|k: int|
                    0 <= k < i ==> #[trigger] points@[k] == (Point {
                        x: (-self.points@[k].y) as i8,
                        y: self.points@[k].x,
                    }),
                forall|k: int|
                    0 <= k < i ==> -2 <= #[trigger] points@[k].x <= 2 && -2 <= points@[k].y <= 2,
        {
            let p = &self.points[i];
            points.push(Point { x: -p.y, y: p.x });
        }
        Shape { points, color: self.color }
    }

    /// A quarter turn counterclockwise: (x, y) becomes (y, -x).
    pub fn rotate_left(&self) -> (r: Shape)
        requires
            self.wf(),
        ensures
            r.wf(),
            r.color == self.color,
            r.points@.len() == self.points@.len(),
            forall|i: int|
                0 <= i < r.points@.len() ==> #[trigger] r.points@[i] == (Point {
                    x: self.points@[i].y,
                    y: (-self.points@[i].x) as i8,
                }),
    {
        let mut points: Vec<Point> = Vec::new();
        let n = self.points.len();
        for i in 0..n
            invariant
                n == self.points@.len(),
                self.wf(),
                points@.len() == i,
                forall|k: int|
                    0 <= k < i ==> #[trigger] points@[k] == (Point {
                        x: self.points@[k].y,
                        y: (-self.points@[k].x) as i8,
                    }),
                forall|k: int|
                    0 <= k < i ==> -2 <= #[trigger] points@[k].x <= 2 && -2 <= points@[k].y <= 2,
        {
            let p = &self.points[i];
            points.push(Point { x: p.y, y: -p.x });
        }
        Shape { points, color: self.color }
    }
}

} // verus!
