use vstd::prelude::*;

use crate::console::Color;
use crate::grid::{rows_with_space, Grid};
use crate::point::Point;
use crate::rng::rng_below;
use crate::shape::Shape;

verus! {

/// The game is being set up: the first piece is not yet on the board.
pub const STATE_INIT: u8 = 0;

/// A piece is falling.
pub const STATE_NORMAL: u8 = 1;

/// The falling piece has landed; the next tick spawns a fresh one.
pub const STATE_NEW_PIECE: u8 = 2;

/// The row a fresh piece spawns on.
pub const START_Y: i8 = 2;

/// Points awarded for each packed row.
pub const ROW_SCORE: u32 = 1000;

/// Whether a shape with offsets `pts`, pivoted at `pos`, covers the cell
/// (`ix`, `iy`).
pub open spec fn covers_at(pts: Seq<Point>, pos: Point, ix: int, iy: int) -> bool {
    exists|k: int|
        0 <= k < pts.len() && pos.x + #[trigger] pts[k].x == ix && pos.y + pts[k].y == iy
}

/// Whether such a shape leaves the board on any side.
pub open spec fn out_at(pts: Seq<Point>, pos: Point, w: int, h: int) -> bool {
    exists|k: int|
        0 <= k < pts.len() && !(0 <= pos.x + #[trigger] pts[k].x < w && 0 <= pos.y + pts[k].y < h)
}

/// Whether such a shape leaves the board above or below.
pub open spec fn vertical_out_at(pts: Seq<Point>, pos: Point, h: int) -> bool {
    exists|k: int| 0 <= k < pts.len() && !(0 <= pos.y + #[trigger] pts[k].y < h)
}

/// A tetromino somewhere on (or partly off) the board: its shape and the
/// board coordinate of its pivot.
#[derive(Clone, Debug)]
pub struct Piece {
    pub shape: Shape,
    pub position: Point,
}

impl Piece {
    /// The pivot is near enough to the board for all coordinate arithmetic.
    pub open spec fn wf(self) -> bool {
        &&& self.shape.wf()
        &&& -125 <= self.position.x <= 125
        &&& -125 <= self.position.y <= 125
    }

    /// Whether one of the piece's four cells lies on (`ix`, `iy`).
    pub open spec fn covers(self, ix: int, iy: int) -> bool {
        covers_at(self.shape.points@, self.position, ix, iy)
    }

    /// Paints the piece's cells in the shape's color. A cell that lies off
    /// the board paints nothing.
    pub fn print(&self, grid: Grid) -> (r: Grid)
        requires
            self.wf(),
            grid.wf(),
        ensures
            r.wf(),
            r.width == grid.width,
            r.height == grid.height,
            forall|ix: int, iy: int|
                0 <= ix < grid.width && 0 <= iy < grid.height ==> r.cell(ix, iy) == (if self.covers(
                    ix,
                    iy,
                ) {
                    self.shape.color
                } else {
                    grid.cell(ix, iy)
                }),
    {
        let color = self.shape.color;
        self.stamp(grid, color)
    }

    /// Wipes the piece's cells back to empty. A cell off the board wipes
    /// nothing.
    pub fn clear(&self, grid: Grid) -> (r: Grid)
        requires
            self.wf(),
            grid.wf(),
        ensures
            r.wf(),
            r.width == grid.width,
            r.height == grid.height,
            forall|ix: int, iy: int|
                0 <= ix < grid.width && 0 <= iy < grid.height ==> r.cell(ix, iy) == (if self.covers(
                    ix,
                    iy,
                ) {
                    Color::DefaultColor
                } else {
                    grid.cell(ix, iy)
                }),
    {
        self.stamp(grid, Color::DefaultColor)
    }

    fn stamp(&self, grid: Grid, color: Color) -> (r: Grid)
        requires
            self.wf(),
            grid.wf(),
        ensures
            r.wf(),
            r.width == grid.width,
            r.height == grid.height,
            forall|ix: int, iy: int|
                0 <= ix < grid.width && 0 <= iy < grid.height ==> r.cell(ix, iy) == (if self.covers(
                    ix,
                    iy,
                ) {
                    color
                } else {
                    grid.cell(ix, iy)
                }),
    {
        let mut out = grid;
        let ghost orig = out;
        let n = self.shape.points.len();
        for i in 0..n
            invariant
                n == self.shape.points@.len(),
                self.wf(),
                out.wf(),
                orig.wf(),
                out.width == orig.width,
                out.height == orig.height,
                forall|ix: int, iy: int|
                    0 <= ix < orig.width && 0 <= iy < orig.height ==> out.cell(ix, iy) == (if (
                    exists|k: int|
                        0 <= k < i && self.position.x + #[trigger] self.shape.points@[k].x == ix
                            && self.position.y + self.shape.points@[k].y == iy) {
                        color
                    } else {
                        orig.cell(ix, iy)
                    }),
        {
            let p = &self.shape.points[i];
            let tx = self.position.x as i16 + p.x as i16;
            let ty = self.position.y as i16 + p.y as i16;
            let ghost before = out;
            if 0 <= tx && tx < out.width as i16 && 0 <= ty && ty < out.height as i16 {
                out = out.set(tx as u8, ty as u8, color);
            }
            proof {
                assert forall|ix: int, iy: int|
                    0 <= ix < orig.width && 0 <= iy < orig.height implies out.cell(ix, iy) == (
                if (exists|k: int|
                    0 <= k < i + 1 && self.position.x + #[trigger] self.shape.points@[k].x == ix
                        && self.position.y + self.shape.points@[k].y == iy) {
                    color
                } else {
                    orig.cell(ix, iy)
                }) by {
                    if ix == self.position.x + self.shape.points@[i as int].x && iy
                        == self.position.y + self.shape.points@[i as int].y {
                        assert(0 <= i < i + 1 && self.position.x + self.shape.points@[i as int].x
                            == ix && self.position.y + self.shape.points@[i as int].y == iy);
                    } else {
                        assert(out.cell(ix, iy) == before.cell(ix, iy));
                        if exists|k: int|
                            0 <= k < i && self.position.x + #[trigger] self.shape.points@[k].x
                                == ix && self.position.y + self.shape.points@[k].y == iy {
                            let k = choose|k: int|
                                0 <= k < i && self.position.x + #[trigger] self.shape.points@[k].x
                                    == ix && self.position.y + self.shape.points@[k].y == iy;
                            assert(0 <= k < i + 1 && self.position.x + self.shape.points@[k].x
                                == ix && self.position.y + self.shape.points@[k].y == iy);
                        }
                    }
                }
            }
        }
        out
    }

    /// The piece one row further down.
    pub fn down(&self) -> (r: Piece)
        requires
            self.wf(),
            self.position.y < 125,
        ensures
            r.wf(),
            r.shape.points@ == self.shape.points@,
            r.shape.color == self.shape.color,
            r.position.x == self.position.x,
            r.position.y == self.position.y + 1,
    {
        Piece { shape: clone_shape(&self.shape), position: self.position.down() }
    }

    /// The piece one column to the right.
    pub fn right(&self) -> (r: Piece)
        requires
            self.wf(),
            self.position.x < 125,
        ensures
            r.wf(),
            r.shape.points@ == self.shape.points@,
            r.shape.color == self.shape.color,
            r.position.x == self.position.x + 1,
            r.position.y == self.position.y,
    {
        Piece { shape: clone_shape(&self.shape), position: self.position.right() }
    }

    /// The piece one column to the left.
    pub fn left(&self) -> (r: Piece)
        requires
            self.wf(),
            self.position.x > -125,
        ensures
            r.wf(),
            r.shape.points@ == self.shape.points@,
            r.shape.color == self.shape.color,
            r.position.x == self.position.x - 1,
            r.position.y == self.position.y,
    {
        Piece { shape: clone_shape(&self.shape), position: self.position.left() }
    }

    /// The piece turned a quarter counterclockwise around its pivot.
    pub fn rotate_left(&self) -> (r: Piece)
        requires
            self.wf(),
        ensures
            r.wf(),
            r.position == self.position,
            r.shape.color == self.shape.color,
            r.shape.points@.len() == self.shape.points@.len(),
            forall|i: int|
                0 <= i < r.shape.points@.len() ==> #[trigger] r.shape.points@[i] == (Point {
                    x: self.shape.points@[i].y,
                    y: (-self.shape.points@[i].x) as i8,
                }),
    {
        Piece { shape: self.shape.rotate_left(), position: self.position }
    }

    /// The piece turned a quarter clockwise around its pivot.
    pub fn rotate_right(&self) -> (r: Piece)
        requires
            self.wf(),
        ensures
            r.wf(),
            r.position == self.position,
            r.shape.color == self.shape.color,
            r.shape.points@.len() == self.shape.points@.len(),
            forall|i: int|
                0 <= i < r.shape.points@.len() ==> #[trigger] r.shape.points@[i] == (Point {
                    x: (-self.shape.points@[i].y) as i8,
                    y: self.shape.points@[i].x,
                }),
    {
        Piece { shape: self.shape.rotate_right(), position: self.position }
    }
}

/// The falling-block game: its phase, the settled board (with the falling
/// piece painted onto it), the piece itself, the shape to spawn next, and
/// the score.
#[derive(Debug)]
pub struct Tetris {
    pub state: u8,
    pub grid: Grid,
    pub current_piece: Piece,
    pub next_shape: Shape,
    pub score: u32,
}

/// One of the five tetrominoes.
pub open spec fn one_of_the_shapes(s: Shape) -> bool {
    ||| s.points@ == Shape::spec_o_points()
    ||| s.points@ == Shape::spec_i_points()
    ||| s.points@ == Shape::spec_l_points()
    ||| s.points@ == Shape::spec_s_points()
    ||| s.points@ == Shape::spec_z_points()
}

/// The cell (`ix`, `iy`) of `g` after packing: empty rows on top, then the
/// rows of `g` that still had an empty cell, in order.
pub open spec fn spec_packed_cell(g: Grid, ix: int, iy: int) -> Color {
    let kept = rows_with_space(g.spec_rows());
    let p = g.height - kept.len();
    if iy < p {
        Color::DefaultColor
    } else {
        kept[iy - p][ix]
    }
}

/// How many rows packing `g` drops.
pub open spec fn spec_packed_rows(g: Grid) -> int {
    g.height - rows_with_space(g.spec_rows()).len()
}

impl Tetris {
    /// The board's cell once the falling piece is lifted off it.
    pub open spec fn spec_cleared_cell(self, ix: int, iy: int) -> Color {
        if self.current_piece.covers(ix, iy) {
            Color::DefaultColor
        } else {
            self.grid.cell(ix, iy)
        }
    }

    /// Some cell of a shape pivoted at `pos` lands on a settled cell of the
    /// lifted board.
    pub open spec fn hits_at(self, pts: Seq<Point>, pos: Point) -> bool {
        exists|k: int|
            0 <= k < pts.len() && self.spec_cleared_cell(
                pos.x + #[trigger] pts[k].x,
                pos.y + pts[k].y,
            ) != Color::DefaultColor
    }

    /// Whether the falling piece may rest at row `y` of its column: all its
    /// cells stay on the board and meet nothing settled.
    pub open spec fn spec_down_ok(self, y: int) -> bool {
        let pts = self.current_piece.shape.points@;
        let pos = Point { x: self.current_piece.position.x, y: y as i8 };
        &&& -128 <= y < 128
        &&& !vertical_out_at(pts, pos, self.grid.height as int)
        &&& !self.hits_at(pts, pos)
    }

    /// What a sideways move or a rotation does, given the moved piece's
    /// offsets, color and pivot: outside the falling phase, or when the
    /// moved piece would leave the board or land on something settled,
    /// nothing changes; otherwise the piece is accepted and repainted.
    pub open spec fn spec_mv_result(self, pts: Seq<Point>, color: Color, pos: Point, r: Tetris) -> bool {
        if self.state == STATE_NORMAL {
            if out_at(pts, pos, self.grid.width as int, self.grid.height as int) || self.hits_at(
                pts,
                pos,
            ) {
                Self::same_game(r, self)
            } else {
                &&& r.wf()
                &&& r.state == STATE_NORMAL
                &&& r.score == self.score
                &&& r.current_piece.position == pos
                &&& r.current_piece.shape.points@ == pts
                &&& r.current_piece.shape.color == color
                &&& r.next_shape.points@ == self.next_shape.points@
                &&& r.next_shape.color == self.next_shape.color
                &&& r.grid.width == self.grid.width
                &&& r.grid.height == self.grid.height
                &&& (forall|ix: int, iy: int|
                    0 <= ix < self.grid.width && 0 <= iy < self.grid.height ==> r.grid.cell(ix, iy)
                        == (if covers_at(pts, pos, ix, iy) {
                        color
                    } else {
                        self.spec_cleared_cell(ix, iy)
                    }))
            }
        } else {
            Self::same_game(r, self)
        }
    }

    /// The game is coherent: the board is well-formed and moderate in size,
    /// both shapes are tetromino-shaped, the piece's pivot is in arithmetic
    /// range, its columns lie on the board, and while it is falling (or
    /// about to appear) its rows do too.
    pub open spec fn wf(self) -> bool {
        &&& self.grid.wf()
        &&& 5 <= self.grid.width <= 120
        &&& 5 <= self.grid.height <= 120
        &&& self.current_piece.wf()
        &&& self.current_piece.shape.points@.len() == 4
        &&& self.next_shape.wf()
        &&& self.next_shape.points@.len() == 4
        &&& -3 <= self.current_piece.position.x <= self.grid.width + 2
        &&& -3 <= self.current_piece.position.y <= self.grid.height + 2
        &&& (self.state == STATE_INIT || self.state == STATE_NORMAL || self.state
            == STATE_NEW_PIECE)
        &&& forall|k: int|
            0 <= k < self.current_piece.shape.points@.len() ==> 0 <= self.current_piece.position.x
                + #[trigger] self.current_piece.shape.points@[k].x < self.grid.width
        &&& (self.state == STATE_INIT || self.state == STATE_NORMAL) ==> forall|k: int|
            0 <= k < self.current_piece.shape.points@.len() ==> 0 <= self.current_piece.position.y
                + #[trigger] self.current_piece.shape.points@[k].y < self.grid.height
    }

    /// Everything observable is equal: the phase, the score, every board
    /// cell, and both shapes.
    pub open spec fn same_game(a: Tetris, b: Tetris) -> bool {
        &&& a.state == b.state
        &&& a.score == b.score
        &&& a.grid.width == b.grid.width
        &&& a.grid.height == b.grid.height
        &&& (forall|ix: int, iy: int|
            0 <= ix < a.grid.width && 0 <= iy < a.grid.height ==> a.grid.cell(ix, iy)
                == b.grid.cell(ix, iy))
        &&& a.current_piece.position == b.current_piece.position
        &&& a.current_piece.shape.points@ == b.current_piece.shape.points@
        &&& a.current_piece.shape.color == b.current_piece.shape.color
        &&& a.next_shape.points@ == b.next_shape.points@
        &&& a.next_shape.color == b.next_shape.color
    }

    /// One of the five shapes, drawn uniformly at random.
    fn random_shape(rng: &mut rand::rngs::StdRng) -> (r: Shape)
        ensures
            r.wf(),
            one_of_the_shapes(r),
    {
        let shapes: Vec<Shape> = Shape::shapes();
        let i = rng_below(rng, shapes.len());
        clone_shape(&shapes[i])
    }

    /// A fresh game on an empty board, with a random first piece centered
    /// near the top and a random shape on deck.
    pub fn new(width: u8, height: u8, rng: &mut rand::rngs::StdRng) -> (r: Tetris)
        requires
            5 <= width <= 120,
            5 <= height <= 120,
        ensures
            r.wf(),
            r.state == STATE_INIT,
            r.score == 0,
            r.grid.width == width,
            r.grid.height == height,
            forall|ix: int, iy: int|
                0 <= ix < width && 0 <= iy < height ==> r.grid.cell(ix, iy)
                    == Color::DefaultColor,
            r.current_piece.position == (Point { x: (width / 2) as i8, y: START_Y }),
            one_of_the_shapes(r.current_piece.shape),
            one_of_the_shapes(r.next_shape),
    {
        let shape = Tetris::random_shape(rng);
        let current_piece = Piece { shape, position: Point::new((width / 2) as i8, START_Y) };
        Tetris {
            state: STATE_INIT,
            grid: Grid::new(width, height),
            current_piece,
            next_shape: Tetris::random_shape(rng),
            score: 0,
        }
    }

    /// The score so far.
    pub fn score(&self) -> (r: u32)
        ensures
            r == self.score,
    {
        self.score
    }

    /// Where a fresh piece spawns: centered near the top.
    pub open spec fn spec_spawn_pivot(self) -> Point {
        Point { x: (self.grid.width / 2) as i8, y: START_Y }
    }

    /// Whether the shape on deck, spawned at the spawn pivot, covers the
    /// cell (`ix`, `iy`).
    pub open spec fn spec_spawn_covers(self, ix: int, iy: int) -> bool {
        covers_at(self.next_shape.points@, self.spec_spawn_pivot(), ix, iy)
    }

    /// Whether a fresh piece cannot spawn on `g`: one of its cells is
    /// already settled, which ends the game.
    pub open spec fn spec_spawn_blocked(self, g: Grid) -> bool {
        exists|k: int|
            0 <= k < self.next_shape.points@.len() && g.cell(
                self.spec_spawn_pivot().x + #[trigger] self.next_shape.points@[k].x,
                self.spec_spawn_pivot().y + self.next_shape.points@[k].y,
            ) != Color::DefaultColor
    }

    /// The game after the shape on deck spawned onto `g` with score
    /// `score`: a fresh random shape goes on deck and the spawned piece is
    /// painted.
    pub open spec fn spec_spawned(self, g: Grid, score: u32, t: Tetris) -> bool {
        &&& t.wf()
        &&& t.state == STATE_NORMAL
        &&& t.score == score
        &&& t.grid.width == self.grid.width
        &&& t.grid.height == self.grid.height
        &&& t.current_piece.position == self.spec_spawn_pivot()
        &&& t.current_piece.shape.points@ == self.next_shape.points@
        &&& t.current_piece.shape.color == self.next_shape.color
        &&& one_of_the_shapes(t.next_shape)
        &&& (forall|ix: int, iy: int|
            0 <= ix < self.grid.width && 0 <= iy < self.grid.height ==> t.grid.cell(ix, iy) == (
            if self.spec_spawn_covers(ix, iy) {
                self.next_shape.color
            } else {
                g.cell(ix, iy)
            }))
    }

    /// Spawns the shape on deck onto `g`, or reports the game over when a
    /// settled cell is in the way.
    fn spawn(&self, g: &Grid, score: u32, rng: &mut rand::rngs::StdRng) -> (r: Option<Tetris>)
        requires
            self.wf(),
            g.wf(),
            g.width == self.grid.width,
            g.height == self.grid.height,
        ensures
            match r {
                None => self.spec_spawn_blocked(*g),
                Some(t) => !self.spec_spawn_blocked(*g) && self.spec_spawned(*g, score, t),
            },
    {
        proof {
            assert(2 <= self.grid.width / 2 && self.grid.width / 2 + 2 < self.grid.width)
                by (nonlinear_arith)
                requires
                    5 <= self.grid.width,
            ;
        }
        let current_piece = Piece {
            shape: clone_shape(&self.next_shape),
            position: Point::new((self.grid.width / 2) as i8, START_Y),
        };
        let ghost piv = self.spec_spawn_pivot();

        let points = current_piece.shape.to_points(
            current_piece.position.x,
            current_piece.position.y,
        );
        proof {
            assert forall|i: int| 0 <= i < points@.len() implies (#[trigger] points@[i]).x as int
                == piv.x + self.next_shape.points@[i].x && points@[i].y as int == piv.y
                + self.next_shape.points@[i].y && 0 <= points@[i].x < self.grid.width && 0
                <= points@[i].y < self.grid.height by {
                assert(-2 <= self.next_shape.points@[i].x <= 2 && -2 <= self.next_shape.points@[i].y
                    <= 2);
            }
        }
        if g.any_occupied(&points) {
            proof {
                let i = choose|i: int|
                    0 <= i < points@.len() && g.cell(
                        #[trigger] points@[i].x as int,
                        points@[i].y as int,
                    ) != Color::DefaultColor;
                assert(g.cell(
                    piv.x + self.next_shape.points@[i].x,
                    piv.y + self.next_shape.points@[i].y,
                ) != Color::DefaultColor);
            }
            None
        } else {
            proof {
                assert(!self.spec_spawn_blocked(*g)) by {
                    if self.spec_spawn_blocked(*g) {
                        let k = choose|k: int|
                            0 <= k < self.next_shape.points@.len() && g.cell(
                                piv.x + #[trigger] self.next_shape.points@[k].x,
                                piv.y + self.next_shape.points@[k].y,
                            ) != Color::DefaultColor;
                        assert(g.cell(points@[k].x as int, points@[k].y as int)
                            != Color::DefaultColor);
                    }
                }
            }
            let next_shape = Tetris::random_shape(rng);
            let grid = current_piece.print(clone_grid(g));
            let t = Tetris { state: STATE_NORMAL, current_piece, grid, next_shape, score };
            proof {
                assert forall|ix: int, iy: int|
                    0 <= ix < self.grid.width && 0 <= iy < self.grid.height implies t.grid.cell(
                    ix,
                    iy,
                ) == (if self.spec_spawn_covers(ix, iy) {
                    self.next_shape.color
                } else {
                    g.cell(ix, iy)
                }) by {
                    assert(t.current_piece.covers(ix, iy) == self.spec_spawn_covers(ix, iy));
                }
                assert(t.wf()) by {
                    assert forall|k: int|
                        0 <= k < t.current_piece.shape.points@.len() implies 0
                        <= t.current_piece.position.x + #[trigger] t.current_piece.shape.points@[k].x
                        < t.grid.width && 0 <= t.current_piece.position.y
                        + t.current_piece.shape.points@[k].y < t.grid.height by {
                        assert(-2 <= self.next_shape.points@[k].x <= 2 && -2
                            <= self.next_shape.points@[k].y <= 2);
                    }
                }
            }
            Some(t)
        }
    }

    /// One tick. From setup the first piece is painted and falls from then
    /// on. A falling piece descends one row; when it cannot, the board is
    /// packed, each dropped row scores `ROW_SCORE`, and the shape on deck
    /// spawns — onto a settled cell means the game is over (`None`). From
    /// the landed phase the spawn happens at once.
    pub fn next(&self, rng: &mut rand::rngs::StdRng) -> (r: Option<Tetris>)
        requires
            self.wf(),
            self.score <= u32::MAX - 125_000,
        ensures
            ({
                let pts = self.current_piece.shape.points@;
                let pos = self.current_piece.position;
                let moved = Point { x: pos.x, y: (pos.y + 1) as i8 };
                let landed_score = (self.score + ROW_SCORE * spec_packed_rows(self.grid)) as u32;
                if self.state == STATE_INIT {
                    match r {
                        Some(t) => {
                            &&& t.wf()
                            &&& t.state == STATE_NORMAL
                            &&& t.score == self.score
                            &&& t.current_piece.position == pos
                            &&& t.current_piece.shape.points@ == pts
                            &&& t.current_piece.shape.color == self.current_piece.shape.color
                            &&& t.next_shape.points@ == self.next_shape.points@
                            &&& t.next_shape.color == self.next_shape.color
                            &&& t.grid.width == self.grid.width
                            &&& t.grid.height == self.grid.height
                            &&& (forall|ix: int, iy: int|
                                0 <= ix < self.grid.width && 0 <= iy < self.grid.height
                                    ==> t.grid.cell(ix, iy) == (if covers_at(pts, pos, ix, iy) {
                                    self.current_piece.shape.color
                                } else {
                                    self.grid.cell(ix, iy)
                                }))
                        },
                        None => false,
                    }
                } else if self.state == STATE_NORMAL {
                    if self.spec_down_ok(pos.y + 1) {
                        match r {
                            Some(t) => {
                                &&& t.wf()
                                &&& t.state == STATE_NORMAL
                                &&& t.score == self.score
                                &&& t.current_piece.position == moved
                                &&& t.current_piece.shape.points@ == pts
                                &&& t.current_piece.shape.color == self.current_piece.shape.color
                                &&& t.next_shape.points@ == self.next_shape.points@
                                &&& t.next_shape.color == self.next_shape.color
                                &&& t.grid.width == self.grid.width
                                &&& t.grid.height == self.grid.height
                                &&& (forall|ix: int, iy: int|
                                    0 <= ix < self.grid.width && 0 <= iy < self.grid.height
                                        ==> t.grid.cell(ix, iy) == (if covers_at(
                                        pts,
                                        moved,
                                        ix,
                                        iy,
                                    ) {
                                        self.current_piece.shape.color
                                    } else {
                                        self.spec_cleared_cell(ix, iy)
                                    }))
                            },
                            None => false,
                        }
                    } else {
                        match r {
                            None => exists|k: int|
                                0 <= k < self.next_shape.points@.len() && spec_packed_cell(
                                    self.grid,
                                    self.spec_spawn_pivot().x
                                        + #[trigger] self.next_shape.points@[k].x,
                                    self.spec_spawn_pivot().y + self.next_shape.points@[k].y,
                                ) != Color::DefaultColor,
                            Some(t) => {
                                &&& t.wf()
                                &&& t.state == STATE_NORMAL
                                &&& t.score == landed_score
                                &&& t.current_piece.position == self.spec_spawn_pivot()
                                &&& t.current_piece.shape.points@ == self.next_shape.points@
                                &&& t.current_piece.shape.color == self.next_shape.color
                                &&& one_of_the_shapes(t.next_shape)
                                &&& t.grid.width == self.grid.width
                                &&& t.grid.height == self.grid.height
                                &&& (forall|ix: int, iy: int|
                                    0 <= ix < self.grid.width && 0 <= iy < self.grid.height
                                        ==> t.grid.cell(ix, iy) == (if self.spec_spawn_covers(
                                        ix,
                                        iy,
                                    ) {
                                        self.next_shape.color
                                    } else {
                                        spec_packed_cell(self.grid, ix, iy)
                                    }))
                            },
                        }
                    }
                } else {
                    match r {
                        None => self.spec_spawn_blocked(self.grid),
                        Some(t) => self.spec_spawned(self.grid, self.score, t),
                    }
                }
            }),
    {
        let ghost pts = self.current_piece.shape.points@;
        let ghost pos = self.current_piece.position;
        let ghost w = self.grid.width as int;
        let ghost h = self.grid.height as int;
        if self.state == STATE_INIT {
            let grid = self.current_piece.print(clone_grid(&self.grid));
            let t = Tetris {
                state: STATE_NORMAL,
                current_piece: clone_piece(&self.current_piece),
                grid,
                next_shape: clone_shape(&self.next_shape),
                score: self.score,
            };
            proof {
                assert forall|ix: int, iy: int| 0 <= ix < w && 0 <= iy < h implies t.grid.cell(
                    ix,
                    iy,
                ) == (if covers_at(pts, pos, ix, iy) {
                    self.current_piece.shape.color
                } else {
                    self.grid.cell(ix, iy)
                }) by {
                    assert(self.current_piece.covers(ix, iy) == covers_at(pts, pos, ix, iy));
                }
            }
            Some(t)
        } else if self.state == STATE_NORMAL {
            let grid = self.current_piece.clear(clone_grid(&self.grid));
            let piece = self.current_piece.down();
            let ghost moved = Point { x: pos.x, y: (pos.y + 1) as i8 };
            let points = piece.shape.to_points(piece.position.x, piece.position.y);
            proof {
                assert(piece.position == moved);
                assert(forall|i: int|
                    0 <= i < points@.len() ==> (#[trigger] points@[i]).x as int == moved.x + pts[i].x
                        && points@[i].y as int == moved.y + pts[i].y);
            }
            let vout = grid.any_vertical_out(&points);
            proof {
                assert(vout == vertical_out_at(pts, moved, h)) by {
                    if vout {
                        let i = choose|i: int|
                            0 <= i < points@.len() && (#[trigger] points@[i].y >= grid.height
                                || points@[i].y < 0);
                        assert(!(0 <= moved.y + pts[i].y < h));
                    }
                    if vertical_out_at(pts, moved, h) {
                        let k = choose|k: int|
                            0 <= k < pts.len() && !(0 <= moved.y + #[trigger] pts[k].y < h);
                        assert(points@[k].y >= grid.height || points@[k].y < 0);
                    }
                }
            }
            let blocked = if vout {
                true
            } else {
                let hit = grid.any_occupied(&points);
                proof {
                    assert(hit == self.hits_at(pts, moved)) by {
                        if hit {
                            let i = choose|i: int|
                                0 <= i < points@.len() && grid.cell(
                                    #[trigger] points@[i].x as int,
                                    points@[i].y as int,
                                ) != Color::DefaultColor;
                            assert(self.spec_cleared_cell(moved.x + pts[i].x, moved.y + pts[i].y)
                                != Color::DefaultColor);
                        }
                        if self.hits_at(pts, moved) {
                            let k = choose|k: int|
                                0 <= k < pts.len() && self.spec_cleared_cell(
                                    moved.x + #[trigger] pts[k].x,
                                    moved.y + pts[k].y,
                                ) != Color::DefaultColor;
                            assert(grid.cell(points@[k].x as int, points@[k].y as int)
                                != Color::DefaultColor);
                        }
                    }
                }
                hit
            };
            proof {
                assert(blocked == !self.spec_down_ok(pos.y + 1));
            }
            if blocked {
                let (packed, new_grid) = self.grid.pack();
                proof {
                    lemma_pack_pointwise(self.grid, new_grid, packed);
                }
                let score = self.score + ROW_SCORE * packed as u32;
                let r = self.spawn(&new_grid, score, rng);
                proof {
                    let piv = self.spec_spawn_pivot();
                    if r is None {
                        let k = choose|k: int|
                            0 <= k < self.next_shape.points@.len() && new_grid.cell(
                                piv.x + #[trigger] self.next_shape.points@[k].x,
                                piv.y + self.next_shape.points@[k].y,
                            ) != Color::DefaultColor;
                        assert(2 <= self.grid.width / 2 && self.grid.width / 2 + 2
                            < self.grid.width) by (nonlinear_arith)
                            requires
                                5 <= self.grid.width,
                        ;
                        assert(-2 <= self.next_shape.points@[k].x <= 2 && -2
                            <= self.next_shape.points@[k].y <= 2);
                        assert(spec_packed_cell(
                            self.grid,
                            piv.x + self.next_shape.points@[k].x,
                            piv.y + self.next_shape.points@[k].y,
                        ) != Color::DefaultColor);
                    }
                }
                r
            } else {
                let t = Tetris {
                    state: STATE_NORMAL,
                    current_piece: clone_piece(&piece),
                    grid: piece.print(grid),
                    next_shape: clone_shape(&self.next_shape),
                    score: self.score,
                };
                proof {
                    assert forall|ix: int, iy: int| 0 <= ix < w && 0 <= iy < h implies t.grid.cell(
                        ix,
                        iy,
                    ) == (if covers_at(pts, moved, ix, iy) {
                        self.current_piece.shape.color
                    } else {
                        self.spec_cleared_cell(ix, iy)
                    }) by {
                        assert(piece.covers(ix, iy) == covers_at(pts, moved, ix, iy));
                    }
                    assert(t.wf()) by {
                        assert(0 <= pos.y + pts[0].y < h);
                        assert(-2 <= pts[0].y <= 2);
                        assert forall|k: int|
                            0 <= k < t.current_piece.shape.points@.len() implies 0
                            <= t.current_piece.position.x
                            + #[trigger] t.current_piece.shape.points@[k].x < t.grid.width && 0
                            <= t.current_piece.position.y + t.current_piece.shape.points@[k].y
                            < t.grid.height by {
                            assert(!(0 <= moved.y + pts[k].y < h) ==> vertical_out_at(
                                pts,
                                moved,
                                h,
                            ));
                        }
                    }
                }
                Some(t)
            }
        } else {
            self.spawn(&self.grid, self.score, rng)
        }
    }

    /// The piece nudged one column right, if nothing is in the way.
    pub fn right(&self) -> (r: Tetris)
        requires
            self.wf(),
        ensures
            self.spec_mv_result(
                self.current_piece.shape.points@,
                self.current_piece.shape.color,
                Point { x: (self.current_piece.position.x + 1) as i8, y: self.current_piece.position.y },
                r,
            ),
            r.wf(),
    {
        self.mv(self.current_piece.right())
    }

    /// The piece nudged one column left, if nothing is in the way.
    pub fn left(&self) -> (r: Tetris)
        requires
            self.wf(),
        ensures
            self.spec_mv_result(
                self.current_piece.shape.points@,
                self.current_piece.shape.color,
                Point { x: (self.current_piece.position.x - 1) as i8, y: self.current_piece.position.y },
                r,
            ),
            r.wf(),
    {
        self.mv(self.current_piece.left())
    }

    /// The piece turned a quarter counterclockwise, if nothing is in the
    /// way.
    pub fn rotate_left(&self) -> (r: Tetris)
        requires
            self.wf(),
        ensures
            self.spec_mv_result(
                self.current_piece.shape.points@.map_values(
                    |p: Point| Point { x: p.y, y: (-p.x) as i8 },
                ),
                self.current_piece.shape.color,
                self.current_piece.position,
                r,
            ),
            r.wf(),
    {
        let turned = self.current_piece.rotate_left();
        proof {
            assert(turned.shape.points@ =~= self.current_piece.shape.points@.map_values(
                |p: Point| Point { x: p.y, y: (-p.x) as i8 },
            ));
        }
        self.mv(turned)
    }

    /// The piece turned a quarter clockwise, if nothing is in the way.
    pub fn rotate_right(&self) -> (r: Tetris)
        requires
            self.wf(),
        ensures
            self.spec_mv_result(
                self.current_piece.shape.points@.map_values(
                    |p: Point| Point { x: (-p.y) as i8, y: p.x },
                ),
                self.current_piece.shape.color,
                self.current_piece.position,
                r,
            ),
            r.wf(),
    {
        let turned = self.current_piece.rotate_right();
        proof {
            assert(turned.shape.points@ =~= self.current_piece.shape.points@.map_values(
                |p: Point| Point { x: (-p.y) as i8, y: p.x },
            ));
        }
        self.mv(turned)
    }

    /// Tries `piece` as the falling piece's next placement, keeping the
    /// game unchanged when it will not fit.
    fn mv(&self, piece: Piece) -> (r: Tetris)
        requires
            self.wf(),
            piece.wf(),
            piece.shape.points@.len() == 4,
        ensures
            self.spec_mv_result(piece.shape.points@, piece.shape.color, piece.position, r),
            r.wf(),
    {
        let ghost pts = piece.shape.points@;
        let ghost pos = piece.position;
        let ghost w = self.grid.width as int;
        let ghost h = self.grid.height as int;
        if self.state == STATE_NORMAL {
            let grid = self.current_piece.clear(clone_grid(&self.grid));
            let points = piece.shape.to_points(piece.position.x, piece.position.y);
            proof {
                assert(forall|i: int|
                    0 <= i < points@.len() ==> (#[trigger] points@[i]).x as int == pos.x + pts[i].x
                        && points@[i].y as int == pos.y + pts[i].y);
            }
            let out = grid.any_out(&points);
            proof {
                assert(out == out_at(pts, pos, w, h)) by {
                    if out {
                        let i = choose|i: int|
                            0 <= i < points@.len() && (#[trigger] points@[i].x >= grid.width
                                || points@[i].y >= grid.height || points@[i].x < 0 || points@[i].y
                                < 0);
                        assert(!(0 <= pos.x + pts[i].x < w && 0 <= pos.y + pts[i].y < h));
                    }
                    if out_at(pts, pos, w, h) {
                        let k = choose|k: int|
                            0 <= k < pts.len() && !(0 <= pos.x + #[trigger] pts[k].x < w && 0
                                <= pos.y + pts[k].y < h);
                        assert(points@[k].x >= grid.width || points@[k].y >= grid.height
                            || points@[k].x < 0 || points@[k].y < 0);
                    }
                }
            }
            let blocked = if out {
                true
            } else {
                let hit = grid.any_occupied(&points);
                proof {
                    assert(hit == self.hits_at(pts, pos)) by {
                        if hit {
                            let i = choose|i: int|
                                0 <= i < points@.len() && grid.cell(
                                    #[trigger] points@[i].x as int,
                                    points@[i].y as int,
                                ) != Color::DefaultColor;
                            assert(self.spec_cleared_cell(pos.x + pts[i].x, pos.y + pts[i].y)
                                != Color::DefaultColor);
                        }
                        if self.hits_at(pts, pos) {
                            let k = choose|k: int|
                                0 <= k < pts.len() && self.spec_cleared_cell(
                                    pos.x + #[trigger] pts[k].x,
                                    pos.y + pts[k].y,
                                ) != Color::DefaultColor;
                            assert(grid.cell(points@[k].x as int, points@[k].y as int)
                                != Color::DefaultColor);
                        }
                    }
                }
                hit
            };
            if blocked {
                self.duplicate()
            } else {
                let t = Tetris {
                    state: STATE_NORMAL,
                    current_piece: clone_piece(&piece),
                    grid: piece.print(grid),
                    next_shape: clone_shape(&self.next_shape),
                    score: self.score,
                };
                proof {
                    assert forall|ix: int, iy: int|
                        0 <= ix < w && 0 <= iy < h implies t.grid.cell(ix, iy) == (if covers_at(
                        pts,
                        pos,
                        ix,
                        iy,
                    ) {
                        piece.shape.color
                    } else {
                        self.spec_cleared_cell(ix, iy)
                    }) by {
                        assert(piece.covers(ix, iy) == covers_at(pts, pos, ix, iy));
                    }
                    assert(t.wf()) by {
                        assert(0 <= pos.x + pts[0].x < w && 0 <= pos.y + pts[0].y < h);
                        assert(-2 <= pts[0].x <= 2 && -2 <= pts[0].y <= 2);
                        assert forall|k: int|
                            0 <= k < t.current_piece.shape.points@.len() implies 0
                            <= t.current_piece.position.x
                            + #[trigger] t.current_piece.shape.points@[k].x < t.grid.width && 0
                            <= t.current_piece.position.y + t.current_piece.shape.points@[k].y
                            < t.grid.height by {
                            assert(!(0 <= pos.x + pts[k].x < w && 0 <= pos.y + pts[k].y < h)
                                ==> out_at(pts, pos, w, h));
                        }
                    }
                }
                t
            }
        } else {
            self.duplicate()
        }
    }

    /// Describes where the falling piece comes to rest under `fall` and
    /// what the game looks like then: `n` rows further down — the last
    /// placement that fits — with the board repainted and packed, and
    /// `g` the board as it stood just before packing.
    pub open spec fn spec_fall_lands(self, r: Tetris, n: int, g: Grid) -> bool {
        let y0 = self.current_piece.position.y as int;
        let pts = self.current_piece.shape.points@;
        let rest = Point { x: self.current_piece.position.x, y: (y0 + n) as i8 };
        &&& 0 <= n
        &&& (forall|m: int| 1 <= m <= n ==> #[trigger] self.spec_down_ok(y0 + m))
        &&& !self.spec_down_ok(y0 + n + 1)
        &&& g.wf()
        &&& g.width == self.grid.width
        &&& g.height == self.grid.height
        &&& (forall|ix: int, iy: int|
            0 <= ix < self.grid.width && 0 <= iy < self.grid.height ==> g.cell(ix, iy) == (
            if covers_at(pts, rest, ix, iy) {
                self.current_piece.shape.color
            } else {
                self.spec_cleared_cell(ix, iy)
            }))
        &&& r.state == STATE_NEW_PIECE
        &&& r.score == self.score + ROW_SCORE * spec_packed_rows(g)
        &&& r.grid.width == self.grid.width
        &&& r.grid.height == self.grid.height
        &&& (forall|ix: int, iy: int|
            0 <= ix < self.grid.width && 0 <= iy < self.grid.height ==> r.grid.cell(ix, iy)
                == spec_packed_cell(g, ix, iy))
        &&& r.current_piece.position == rest
        &&& r.current_piece.shape.points@ == pts
        &&& r.current_piece.shape.color == self.current_piece.shape.color
        &&& r.next_shape.points@ == self.next_shape.points@
        &&& r.next_shape.color == self.next_shape.color
    }

    /// Drops the falling piece straight down to the last placement that
    /// fits, paints it there, packs the board, and scores the packed rows.
    pub fn fall(&self) -> (r: Tetris)
        requires
            self.wf(),
            self.state == STATE_NORMAL,
            self.score <= u32::MAX - 125_000,
        ensures
            r.wf(),
            exists|n: int, g: Grid| #[trigger] self.spec_fall_lands(r, n, g),
    {
        let mut piece = clone_piece(&self.current_piece);
        let grid = self.current_piece.clear(clone_grid(&self.grid));

        let ghost y0 = self.current_piece.position.y as int;
        let ghost pts = self.current_piece.shape.points@;
        proof {
            assert(0 <= self.current_piece.position.y + pts[0].y < self.grid.height);
            assert(-2 <= pts[0].y <= 2);
        }
        let mut done = false;
        while !done
            invariant
                self.wf(),
                self.state == STATE_NORMAL,
                grid.wf(),
                grid.width == self.grid.width,
                grid.height == self.grid.height,
                forall|ix: int, iy: int|
                    0 <= ix < self.grid.width && 0 <= iy < self.grid.height ==> grid.cell(ix, iy)
                        == self.spec_cleared_cell(ix, iy),
                piece.wf(),
                pts == self.current_piece.shape.points@,
                piece.shape.points@ == self.current_piece.shape.points@,
                piece.shape.color == self.current_piece.shape.color,
                piece.position.x == self.current_piece.position.x,
                y0 == self.current_piece.position.y as int,
                piece.position.y >= y0,
                piece.position.y <= self.grid.height + 1,
                forall|m: int|
                    1 <= m <= piece.position.y - y0 ==> #[trigger] self.spec_down_ok(y0 + m),
                done ==> !self.spec_down_ok(piece.position.y + 1),
            decreases 2 * (self.grid.height + 2 - piece.position.y) + (if done {
                0int
            } else {
                1int
            }),
        {
            let piece_down = piece.down();
            let ghost dpos = piece_down.position;
            let ghost h = self.grid.height as int;
            let points = piece_down.shape.to_points(piece_down.position.x, piece_down.position.y);
            proof {
                assert(forall|i: int|
                    0 <= i < points@.len() ==> (#[trigger] points@[i]).x as int == dpos.x + pts[i].x
                        && points@[i].y as int == dpos.y + pts[i].y);
            }
            let vout = grid.any_vertical_out(&points);
            proof {
                assert(vout == vertical_out_at(pts, dpos, h)) by {
                    if vout {
                        let i = choose|i: int|
                            0 <= i < points@.len() && (#[trigger] points@[i].y >= grid.height
                                || points@[i].y < 0);
                        assert(!(0 <= dpos.y + pts[i].y < h));
                    }
                    if vertical_out_at(pts, dpos, h) {
                        let k = choose|k: int|
                            0 <= k < pts.len() && !(0 <= dpos.y + #[trigger] pts[k].y < h);
                        assert(points@[k].y >= grid.height || points@[k].y < 0);
                    }
                }
            }
            let blocked = if vout {
                true
            } else {
                let hit = grid.any_occupied(&points);
                proof {
                    assert(hit == self.hits_at(pts, dpos)) by {
                        if hit {
                            let i = choose|i: int|
                                0 <= i < points@.len() && grid.cell(
                                    #[trigger] points@[i].x as int,
                                    points@[i].y as int,
                                ) != Color::DefaultColor;
                            assert(self.spec_cleared_cell(dpos.x + pts[i].x, dpos.y + pts[i].y)
                                != Color::DefaultColor);
                        }
                        if self.hits_at(pts, dpos) {
                            let k = choose|k: int|
                                0 <= k < pts.len() && self.spec_cleared_cell(
                                    dpos.x + #[trigger] pts[k].x,
                                    dpos.y + pts[k].y,
                                ) != Color::DefaultColor;
                            assert(grid.cell(points@[k].x as int, points@[k].y as int)
                                != Color::DefaultColor);
                        }
                    }
                }
                hit
            };
            proof {
                assert(blocked == !self.spec_down_ok(dpos.y as int));
            }
            if blocked {
                done = true;
            } else {
                proof {
                    assert(0 <= dpos.y + pts[0].y < h);
                    assert(-2 <= pts[0].y <= 2);
                }
                piece = piece_down;
            }
        }

        let ghost n = piece.position.y as int - y0;
        let painted = piece.print(grid);
        let (packed, new_grid) = painted.pack();
        proof {
            lemma_pack_pointwise(painted, new_grid, packed);
        }
        let score = self.score + ROW_SCORE * packed as u32;
        let r = Tetris {
            state: STATE_NEW_PIECE,
            current_piece: piece,
            grid: new_grid,
            next_shape: clone_shape(&self.next_shape),
            score,
        };
        proof {
            assert(self.spec_fall_lands(r, n, painted));
        }
        r
    }

    /// A fresh game equal to this one in everything observable.
    fn duplicate(&self) -> (r: Tetris)
        requires
            self.wf(),
        ensures
            Self::same_game(r, *self),
            r.wf(),
            r.state == self.state,
    {
        Tetris {
            state: self.state,
            grid: clone_grid(&self.grid),
            current_piece: clone_piece(&self.current_piece),
            next_shape: clone_shape(&self.next_shape),
            score: self.score,
        }
    }
}

/// A fresh piece with the same shape and pivot.
fn clone_piece(piece: &Piece) -> (r: Piece)
    ensures
        r.shape.points@ == piece.shape.points@,
        r.shape.color == piece.shape.color,
        r.position == piece.position,
{
    Piece { shape: clone_shape(&piece.shape), position: piece.position }
}

/// A fresh board with the same cells.
fn clone_grid(g: &Grid) -> (r: Grid)
    requires
        g.wf(),
    ensures
        r.wf(),
        r.width == g.width,
        r.height == g.height,
        forall|ix: int, iy: int|
            0 <= ix < g.width && 0 <= iy < g.height ==> r.cell(ix, iy) == g.cell(ix, iy),
{
    let mut cells: Vec<Vec<Color>> = Vec::new();
    let height = g.height;
    let width = g.width;
    for iy in 0..height as usize
        invariant
            g.wf(),
            height == g.height,
            width == g.width,
            cells@.len() == iy,
            forall|i: int| 0 <= i < iy ==> cells@[i]@.len() == width,
            forall|i: int, j: int|
                0 <= i < iy && 0 <= j < width ==> #[trigger] cells@[i]@[j] == g.cell(j, i),
    {
        let mut row: Vec<Color> = Vec::new();
        for ix in 0..width as usize
            invariant
                g.wf(),
                height == g.height,
                width == g.width,
                iy < height,
                row@.len() == ix,
                forall|j: int| 0 <= j < ix ==> #[trigger] row@[j] == g.cell(j, iy as int),
        {
            row.push(g.cells[iy][ix]);
        }
        cells.push(row);
    }
    Grid { width: g.width, height: g.height, cells }
}

/// Packing's postconditions, restated cell by cell.
proof fn lemma_pack_pointwise(g: Grid, pg: Grid, packed: u8)
    requires
        g.wf(),
        pg.wf(),
        pg.width == g.width,
        pg.height == g.height,
        packed as int == g.height - rows_with_space(g.spec_rows()).len(),
        pg.spec_rows().skip(packed as int) == rows_with_space(g.spec_rows()),
        forall|i: int, j: int|
            0 <= i < packed && 0 <= j < g.width ==> #[trigger] pg.cell(j, i)
                == Color::DefaultColor,
    ensures
        forall|ix: int, iy: int|
            0 <= ix < g.width && 0 <= iy < g.height ==> pg.cell(ix, iy) == spec_packed_cell(
                g,
                ix,
                iy,
            ),
{
    let kept = rows_with_space(g.spec_rows());
    let p = g.height - kept.len();
    assert forall|ix: int, iy: int|
        0 <= ix < g.width && 0 <= iy < g.height implies pg.cell(ix, iy) == spec_packed_cell(
        g,
        ix,
        iy,
    ) by {
        if iy >= p {
            assert(pg.spec_rows().len() == pg.height);
            assert(pg.spec_rows().skip(p)[iy - p] == kept[iy - p]);
            assert(pg.spec_rows()[iy] == kept[iy - p]);
            assert(pg.spec_rows()[iy] == pg.cells@[iy]@);
        }
    }
}

/// A fresh shape with the same points and color.
fn clone_shape(shape: &Shape) -> (r: Shape)
    ensures
        r.points@ == shape.points@,
        r.color == shape.color,
{
    let mut points: Vec<Point> = Vec::new();
    let n = shape.points.len();
    for i in 0..n
        invariant
            n == shape.points@.len(),
            points@ == shape.points@.take(i as int),
    {
        points.push(shape.points[i]);
        proof {
            assert(points@ =~= shape.points@.take(i as int + 1));
        }
    }
    proof {
        assert(shape.points@.take(n as int) =~= shape.points@);
    }
    Shape { points, color: shape.color }
}

} // verus!
