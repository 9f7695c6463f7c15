use vstd::prelude::*;

use crate::console::Color;
use crate::point::Point;

verus! {

/// A rectangular board of colored cells, used by the falling-block game.
/// `DefaultColor` cells are empty; every operation returns a fresh board.
#[derive(Clone, Debug)]
pub struct Grid {
    pub width: u8,
    pub height: u8,
    pub cells: Vec<Vec<Color>>,
}

/// True when a row still has at least one empty cell, so packing keeps it.
pub open spec fn row_has_space(row: Seq<Color>) -> bool {
    exists|j: int| 0 <= j < row.len() && row[j] == Color::DefaultColor
}

/// The rows of `rows` that still have an empty cell, in order.
pub open spec fn rows_with_space(rows: Seq<Seq<Color>>) -> Seq<Seq<Color>>
    decreases rows.len(),
{
    if rows.len() == 0 {
        Seq::empty()
    } else {
        rows_with_space(rows.drop_last())
            + (if row_has_space(rows.last()) { seq![rows.last()] } else { Seq::empty() })
    }
}

proof fn lemma_rows_with_space_len(rows: Seq<Seq<Color>>)
    ensures
        rows_with_space(rows).len() <= rows.len(),
    decreases rows.len(),
{
    if rows.len() > 0 {
        lemma_rows_with_space_len(rows.drop_last());
    }
}

impl Grid {
    /// All the rows of the board, each as a sequence of colors.
    pub open spec fn spec_rows(self) -> Seq<Seq<Color>> {
        Seq::new(self.cells@.len() as nat, |i: int| self.cells@[i]@)
    }

    /// The board really is `height` rows of `width` cells.
    pub open spec fn wf(self) -> bool {
        &&& self.cells@.len() == self.height
        &&& forall|i: int| 0 <= i < self.height ==> self.cells@[i]@.len() == self.width
    }

    /// The color at column `x` of row `y`.
    pub open spec fn cell(self, x: int, y: int) -> Color {
        self.cells@[y]@[x]
    }

    pub fn new(width: u8, height: u8) -> (r: Grid)
        ensures
            r.wf(),
            r.width == width,
            r.height == height,
            forall|x: int, y: int|
                0 <= x < width && 0 <= y < height ==> r.cell(x, y) == Color::DefaultColor,
    {
        let mut cells: Vec<Vec<Color>> = Vec::new();

        for _y in 0..height
            invariant
                cells@.len() == _y,
                forall|i: int| 0 <= i < _y ==> cells@[i]@.len() == width,
                forall|i: int, j: int|
                    0 <= i < _y && 0 <= j < width ==> #[trigger] cells@[i]@[j]
                        == Color::DefaultColor,
        {
            let row = Grid::create_empty_row(width);
            cells.push(row);
        }
        Grid { width, height, cells }
    }

    fn create_empty_row(width: u8) -> (row: Vec<Color>)
        ensures
            row@.len() == width,
            forall|j: int| 0 <= j < width ==> row@[j] == Color::DefaultColor,
    {
        let mut row: Vec<Color> = Vec::new();
        for _x in 0..width
            invariant
                row@.len() == _x,
                forall|j: int| 0 <= j < _x ==> row@[j] == Color::DefaultColor,
        {
            row.push(Color::DefaultColor);
        }
        row
    }

    /// A copy of the board with cell (`x`, `y`) set to `color`. A coordinate
    /// off the board changes nothing, as no cell matches it.
    pub fn set(&self, x: u8, y: u8, color: Color) -> (r: Grid)
        requires
            self.wf(),
        ensures
            r.wf(),
            r.width == self.width,
            r.height == self.height,
            forall|ix: int, iy: int|
                0 <= ix < self.width && 0 <= iy < self.height ==> r.cell(ix, iy) == (if ix == x
                    && iy == y {
                    color
                } else {
                    self.cell(ix, iy)
                }),
    {
        let mut new_cells: Vec<Vec<Color>> = Vec::new();

        let height = self.height;
        let width = self.width;

        for iy in 0..height as usize
            invariant
                self.wf(),
                height == self.height,
                width == self.width,
                new_cells@.len() == iy,
                forall|i: int| 0 <= i < iy ==> new_cells@[i]@.len() == width,
                forall|i: int, j: int|
                    0 <= i < iy && 0 <= j < width ==> #[trigger] new_cells@[i]@[j] == (if j == x
                        && i == y {
                        color
                    } else {
                        self.cell(j, i)
                    }),
        {
            let mut new_row: Vec<Color> = Vec::new();
            for ix in 0..width as usize
                invariant
                    self.wf(),
                    height == self.height,
                    width == self.width,
                    iy < height,
                    new_row@.len() == ix,
                    forall|j: int|
                        0 <= j < ix ==> #[trigger] new_row@[j] == (if j == x && iy == y {
                            color
                        } else {
                            self.cell(j, iy as int)
                        }),
            {
                if ix == x as usize && iy == y as usize {
                    new_row.push(color);
                } else {
                    new_row.push(self.cells[iy][ix]);
                }
            }
            new_cells.push(new_row);
        }
        Grid { width: self.width, height: self.height, cells: new_cells }
    }

    /// Whether any of the given on-board points sits on a non-empty cell.
    pub fn any_occupied(&self, points: &Vec<Point>) -> (r: bool)
        requires
            self.wf(),
            forall|i: int|
                0 <= i < points@.len() ==> 0 <= #[trigger] points@[i].x < self.width && 0
                    <= points@[i].y < self.height,
        ensures
            r == exists|i: int|
                #![trigger points@[i]]
                0 <= i < points@.len() && self.cell(points@[i].x as int, points@[i].y as int)
                    != Color::DefaultColor,
    {
        let n = points.len();
        for i in 0..n
            invariant
                n == points@.len(),
                self.wf(),
                forall|k: int|
                    0 <= k < points@.len() ==> 0 <= #[trigger] points@[k].x < self.width && 0
                        <= points@[k].y < self.height,
                forall|k: int|
                    #![trigger points@[k]]
                    0 <= k < i ==> self.cell(points@[k].x as int, points@[k].y as int)
                        == Color::DefaultColor,
        {
            let p = &points[i];
            if self.cells[p.y as usize][p.x as usize] != Color::DefaultColor {
                return true;
            }
        }
        false
    }

    /// Whether any point falls off the board to the left or right.
    pub fn any_horizontal_out(&self, points: &Vec<Point>) -> (r: bool)
        ensures
            r == exists|i: int|
                0 <= i < points@.len() && (#[trigger] points@[i].x >= self.width || points@[i].x
                    < 0),
    {
        let n = points.len();
        for i in 0..n
            invariant
                n == points@.len(),
                forall|k: int|
                    0 <= k < i ==> 0 <= #[trigger] points@[k].x < self.width,
        {
            let p = &points[i];
            if p.x as i16 >= self.width as i16 || p.x < 0 {
                return true;
            }
        }
        false
    }

    /// Whether any point falls off the board above or below.
    pub fn any_vertical_out(&self, points: &Vec<Point>) -> (r: bool)
        ensures
            r == exists|i: int|
                0 <= i < points@.len() && (#[trigger] points@[i].y >= self.height || points@[i].y
                    < 0),
    {
        let n = points.len();
        for i in 0..n
            invariant
                n == points@.len(),
                forall|k: int|
                    0 <= k < i ==> 0 <= #[trigger] points@[k].y < self.height,
        {
            let p = &points[i];
            if p.y as i16 >= self.height as i16 || p.y < 0 {
                return true;
            }
        }
        false
    }

    /// Whether any point falls off the board on any side.
    pub fn any_out(&self, points: &Vec<Point>) -> (r: bool)
        ensures
            r == exists|i: int|
                0 <= i < points@.len() && (#[trigger] points@[i].x >= self.width || points@[i].y
                    >= self.height || points@[i].x < 0 || points@[i].y < 0),
    {
        let n = points.len();
        for i in 0..n
            invariant
                n == points@.len(),
                forall|k: int|
                    0 <= k < i ==> 0 <= #[trigger] points@[k].x < self.width && 0 <= points@[k].y
                        < self.height,
        {
            let p = &points[i];
            if p.x as i16 >= self.width as i16 || p.y as i16 >= self.height as i16 || p.x < 0
                || p.y < 0 {
                return true;
            }
        }
        false
    }

    /// Drops every completely filled row, slides the rest down, and tops the
    /// board up with empty rows. Returns how many rows were dropped together
    /// with the packed board.
    pub fn pack(&self) -> (r: (u8, Grid))
        requires
            self.wf(),
        ensures
            r.1.wf(),
            r.1.width == self.width,
            r.1.height == self.height,
            r.0 as int == self.height - rows_with_space(self.spec_rows()).len(),
            r.1.spec_rows().skip(r.0 as int) == rows_with_space(self.spec_rows()),
            forall|i: int, j: int|
                0 <= i < r.0 && 0 <= j < self.width ==> #[trigger] r.1.cell(j, i)
                    == Color::DefaultColor,
    {
        let mut new_cells: Vec<Vec<Color>> = Vec::new();

        let height = self.height;
        let width = self.width;

        for iy in 0..height as usize
            invariant
                self.wf(),
                height == self.height,
                width == self.width,
                new_cells@.len() <= iy,
                forall|i: int| 0 <= i < new_cells@.len() ==> new_cells@[i]@.len() == width,
                Seq::new(new_cells@.len() as nat, |i: int| new_cells@[i]@) == rows_with_space(
                    self.spec_rows().take(iy as int),
                ),
        {
            let ghost prev = Seq::new(new_cells@.len() as nat, |i: int| new_cells@[i]@);
            proof {
                assert(self.spec_rows().take(iy as int + 1).drop_last() == self.spec_rows().take(
                    iy as int,
                ));
                assert(self.spec_rows().take(iy as int + 1).last() == self.cells@[iy as int]@);
            }
            if Grid::row_has_empty_cell(&self.cells[iy]) {
                new_cells.push(self.cells[iy].clone());
                proof {
                    assert(Seq::new(new_cells@.len() as nat, |i: int| new_cells@[i]@)
                        =~= prev + seq![self.cells@[iy as int]@]);
                }
            } else {
                proof {
                    assert(Seq::new(new_cells@.len() as nat, |i: int| new_cells@[i]@) =~= prev);
                }
            }
        }

        proof {
            assert(self.spec_rows().take(height as int) == self.spec_rows());
            lemma_rows_with_space_len(self.spec_rows());
        }

        let ghost kept = rows_with_space(self.spec_rows());

        let mut packed: u8 = 0;
        while new_cells.len() != height as usize
            invariant
                height == self.height,
                width == self.width,
                kept == rows_with_space(self.spec_rows()),
                kept.len() <= height,
                new_cells@.len() == kept.len() + packed,
                new_cells@.len() <= height,
                forall|i: int| 0 <= i < new_cells@.len() ==> new_cells@[i]@.len() == width,
                Seq::new(new_cells@.len() as nat, |i: int| new_cells@[i]@).skip(packed as int)
                    == kept,
                forall|i: int, j: int|
                    0 <= i < packed && 0 <= j < width ==> #[trigger] new_cells@[i]@[j]
                        == Color::DefaultColor,
            decreases height as int - new_cells@.len(),
        {
            let ghost prev = Seq::new(new_cells@.len() as nat, |i: int| new_cells@[i]@);
            packed = packed + 1;
            new_cells.insert(0, Grid::create_empty_row(width));
            proof {
                let cur = Seq::new(new_cells@.len() as nat, |i: int| new_cells@[i]@);
                assert(cur.skip(1) =~= prev);
                assert(cur.skip(packed as int) =~= prev.skip(packed as int - 1));
            }
        }

        let g = Grid { width: self.width, height: self.height, cells: new_cells };
        proof {
            assert(g.spec_rows().skip(packed as int) == rows_with_space(self.spec_rows()));
        }
        (packed, g)
    }

    /// Whether the row has at least one empty cell.
    fn row_has_empty_cell(row: &Vec<Color>) -> (r: bool)
        ensures
            r == row_has_space(row@),
    {
        let n = row.len();
        for j in 0..n
            invariant
                n == row@.len(),
                forall|k: int| 0 <= k < j ==> row@[k] != Color::DefaultColor,
        {
            if row[j] == Color::DefaultColor {
                return true;
            }
        }
        false
    }
}

} // verus!
