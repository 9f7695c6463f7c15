use vstd::prelude::*;

use crate::point::Direction;
use crate::rng::rng_below;

verus! {

/// A fish reproduces when its age passes this many ticks.
pub const FISH_REPRODUCTION_TIME: u16 = 50;

/// A shark reproduces when its age passes this many ticks.
pub const SHARK_REPRODUCTION_TIME: u16 = 100;

/// The energy a newly created shark starts with.
pub const SHARK_INITIAL_ENERGY: u16 = 100;

/// The energy a shark gains by eating a fish.
pub const ENERGY_GAIN_ON_EAT: u16 = 10;

/// A fish: prey. `life` counts ticks since creation or last reproduction.
#[derive(Clone, Copy, Debug, PartialEq, Eq, Structural)]
pub struct Fish {
    pub life: u16,
}

/// A shark: predator. `life` as for fish; `energy` falls by one every tick
/// and rises on eating, and the shark starves when it reaches zero.
#[derive(Clone, Copy, Debug, PartialEq, Eq, Structural)]
pub struct Shark {
    pub life: u16,
    pub energy: u16,
}

/// One of the two kinds of agent that can occupy a cell.
#[derive(Clone, Copy, Debug, PartialEq, Eq, Structural)]
pub enum Specie {
    Fish(Fish),
    Shark(Shark),
}

/// What an agent decided for this tick: the agent's own next state (`None`
/// when it starves), the direction it moves in (`None` when it stays), and
/// whether it reproduces.
pub struct MvResult {
    pub specie: Option<Specie>,
    pub direction: Option<Direction>,
    pub child: bool,
}

/// The neighbor that lies one step in direction `d`.
pub open spec fn neighbor_of(
    n: Option<Specie>,
    s: Option<Specie>,
    e: Option<Specie>,
    w: Option<Specie>,
    d: Direction,
) -> Option<Specie> {
    match d {
        Direction::North => n,
        Direction::South => s,
        Direction::East => e,
        Direction::West => w,
    }
}

/// At least one neighbor cell is free to move into.
pub open spec fn any_empty(
    n: Option<Specie>,
    s: Option<Specie>,
    e: Option<Specie>,
    w: Option<Specie>,
) -> bool {
    n is None || s is None || e is None || w is None
}

/// At least one neighbor is a fish a shark could eat.
pub open spec fn any_edible(
    n: Option<Specie>,
    s: Option<Specie>,
    e: Option<Specie>,
    w: Option<Specie>,
) -> bool {
    is_fish(n) || is_fish(s) || is_fish(e) || is_fish(w)
}

/// An agent's age after one tick: one more, or zero again once it passes
/// the reproduction threshold.
pub open spec fn next_life(life: u16, threshold: u16) -> u16 {
    if life + 1 > threshold {
        0
    } else {
        (life + 1) as u16
    }
}

/// A shark's energy after its tick's decrement and an eating bonus, capped
/// at the type's maximum rather than wrapping.
pub open spec fn energy_after_eating(energy: u16) -> u16 {
    if energy - 1 + ENERGY_GAIN_ON_EAT <= u16::MAX {
        (energy - 1 + ENERGY_GAIN_ON_EAT) as u16
    } else {
        u16::MAX
    }
}

/// A stored agent is within its bounds: ages never exceed the reproduction
/// threshold, since crossing it resets them, and a shark that survived its
/// tick has energy left.
pub open spec fn cell_wf(c: Option<Specie>) -> bool {
    match c {
        Some(Specie::Fish(f)) => f.life <= FISH_REPRODUCTION_TIME,
        Some(Specie::Shark(s)) => s.life <= SHARK_REPRODUCTION_TIME && s.energy >= 1,
        None => true,
    }
}

pub open spec fn is_fish(c: Option<Specie>) -> bool {
    c matches Some(Specie::Fish(_))
}

pub open spec fn is_shark(c: Option<Specie>) -> bool {
    c matches Some(Specie::Shark(_))
}

/// A shark that will starve this tick: its energy is down to one, so the
/// tick's decrement exhausts it.
pub open spec fn is_starving_shark(c: Option<Specie>) -> bool {
    c matches Some(Specie::Shark(s)) && s.energy == 1
}

/// An empty cell or a just-created agent, as initial placement leaves them.
pub open spec fn is_new_agent(c: Option<Specie>) -> bool {
    match c {
        Some(Specie::Fish(f)) => f.life == 0,
        Some(Specie::Shark(s)) => s.life == 0 && s.energy == SHARK_INITIAL_ENERGY,
        None => true,
    }
}

/// What a moving agent looks like when it lands on an empty cell: one
/// tick older (or reset by reproduction), and for a shark the tick's
/// energy already paid — there was no meal on an empty cell.
pub open spec fn carried_forward(a: Specie) -> Specie {
    match a {
        Specie::Fish(f) => Specie::Fish(Fish { life: next_life(f.life, FISH_REPRODUCTION_TIME) }),
        Specie::Shark(k) => Specie::Shark(
            Shark { life: next_life(k.life, SHARK_REPRODUCTION_TIME), energy: (k.energy - 1) as u16 },
        ),
    }
}

/// What a fish cell looks like after a tick in which the fish stayed put:
/// the fish, one tick older (or reset by reproduction). Other cells are
/// left as they are.
pub open spec fn aged_fish(c: Option<Specie>) -> Option<Specie> {
    match c {
        Some(Specie::Fish(f)) => Some(
            Specie::Fish(Fish { life: next_life(f.life, FISH_REPRODUCTION_TIME) }),
        ),
        _ => c,
    }
}

pub open spec fn occ_weight(c: Option<Specie>) -> nat {
    if c is Some {
        1
    } else {
        0
    }
}

pub open spec fn empty_weight(c: Option<Specie>) -> nat {
    if c is None {
        1
    } else {
        0
    }
}

pub open spec fn fish_weight(c: Option<Specie>) -> nat {
    if is_fish(c) {
        1
    } else {
        0
    }
}

pub open spec fn shark_weight(c: Option<Specie>) -> nat {
    if is_shark(c) {
        1
    } else {
        0
    }
}

/// An agent that reproduces this tick if it also moves: its age is about to
/// pass its threshold, and a shark must survive the tick's energy decrement.
pub open spec fn ripe_weight(c: Option<Specie>) -> nat {
    match c {
        Some(Specie::Fish(f)) => if f.life + 1 > FISH_REPRODUCTION_TIME {
            1
        } else {
            0
        },
        Some(Specie::Shark(s)) => if s.energy > 1 && s.life + 1 > SHARK_REPRODUCTION_TIME {
            1
        } else {
            0
        },
        None => 0,
    }
}

/// As `ripe_weight`, but counting sharks alone.
pub open spec fn ripe_shark_weight(c: Option<Specie>) -> nat {
    match c {
        Some(Specie::Shark(s)) => if s.energy > 1 && s.life + 1 > SHARK_REPRODUCTION_TIME {
            1
        } else {
            0
        },
        _ => 0,
    }
}

/// The weightings above, as function values for `count_cells`. Each is
/// defined once, so every mention denotes the same function.
pub open spec fn occ_fn() -> spec_fn(Option<Specie>) -> nat {
    |c: Option<Specie>| occ_weight(c)
}

pub open spec fn empty_fn() -> spec_fn(Option<Specie>) -> nat {
    |c: Option<Specie>| empty_weight(c)
}

pub open spec fn fish_fn() -> spec_fn(Option<Specie>) -> nat {
    |c: Option<Specie>| fish_weight(c)
}

pub open spec fn shark_fn() -> spec_fn(Option<Specie>) -> nat {
    |c: Option<Specie>| shark_weight(c)
}

pub open spec fn ripe_fn() -> spec_fn(Option<Specie>) -> nat {
    |c: Option<Specie>| ripe_weight(c)
}

pub open spec fn ripe_shark_fn() -> spec_fn(Option<Specie>) -> nat {
    |c: Option<Specie>| ripe_shark_weight(c)
}

/// The total weight of a row of cells under the weighting `w`.
pub open spec fn count_cells(s: Seq<Option<Specie>>, w: spec_fn(Option<Specie>) -> nat) -> nat
    decreases s.len(),
{
    if s.len() == 0 {
        0
    } else {
        count_cells(s.drop_last(), w) + w(s.last())
    }
}

/// Overwriting one cell changes a count by the difference of the weights.
pub proof fn lemma_count_update(
    s: Seq<Option<Specie>>,
    w: spec_fn(Option<Specie>) -> nat,
    i: int,
    v: Option<Specie>,
)
    requires
        0 <= i < s.len(),
    ensures
        count_cells(s.update(i, v), w) + w(s[i]) == count_cells(s, w) + w(v),
    decreases s.len(),
{
    let t = s.update(i, v);
    if i == s.len() - 1 {
        assert(t.drop_last() =~= s.drop_last());
    } else {
        assert(t.drop_last() =~= s.drop_last().update(i, v));
        lemma_count_update(s.drop_last(), w, i, v);
    }
}

/// Counting one more cell of a prefix adds that cell's weight.
pub proof fn lemma_count_take_step(
    s: Seq<Option<Specie>>,
    w: spec_fn(Option<Specie>) -> nat,
    i: int,
)
    requires
        0 <= i < s.len(),
    ensures
        count_cells(s.take(i + 1), w) == count_cells(s.take(i), w) + w(s[i]),
{
    assert(s.take(i + 1).drop_last() =~= s.take(i));
    assert(s.take(i + 1).last() == s[i]);
}

/// A pointwise smaller weighting never counts more.
pub proof fn lemma_count_mono(
    s: Seq<Option<Specie>>,
    w1: spec_fn(Option<Specie>) -> nat,
    w2: spec_fn(Option<Specie>) -> nat,
)
    requires
        forall|c: Option<Specie>| #[trigger] w1(c) <= w2(c),
    ensures
        count_cells(s, w1) <= count_cells(s, w2),
    decreases s.len(),
{
    if s.len() > 0 {
        lemma_count_mono(s.drop_last(), w1, w2);
    }
}

/// Occupied and empty cells together make up the whole grid.
pub proof fn lemma_count_complement(s: Seq<Option<Specie>>)
    ensures
        count_cells(s, occ_fn()) + count_cells(s, empty_fn()) == s.len(),
    decreases s.len(),
{
    if s.len() > 0 {
        lemma_count_complement(s.drop_last());
    }
}

/// Every cell holds at most one agent, so the census of fishes and sharks
/// adds up to the occupied cells and never exceeds the number of cells.
pub proof fn lemma_census_bounded(s: Seq<Option<Specie>>)
    ensures
        count_cells(s, fish_fn()) + count_cells(s, shark_fn()) == count_cells(s, occ_fn()),
        count_cells(s, occ_fn()) <= s.len(),
    decreases s.len(),
{
    if s.len() > 0 {
        lemma_census_bounded(s.drop_last());
    }
}

/// One wraparound correction on a torus axis of length `n`: a coordinate one
/// step outside either edge comes back in on the other side.
pub open spec fn spec_wrap(v: int, n: int) -> int {
    if v < 0 {
        v + n
    } else if v >= n {
        v - n
    } else {
        v
    }
}

/// A single wrapped step is undone by the wrapped step back: adjacency on
/// the torus is symmetric.
proof fn lemma_wrap_inverse(v: int, d: int, n: int)
    requires
        1 <= n,
        0 <= v < n,
        -1 <= d <= 1,
    ensures
        spec_wrap(spec_wrap(v + d, n) - d, n) == v,
{
}

/// A row-major index determines its coordinate: two in-range coordinates
/// with the same index are the same cell.
proof fn lemma_row_major_unique(x1: int, y1: int, x2: int, y2: int, w: int)
    requires
        0 <= x1 < w,
        0 <= x2 < w,
        y1 * w + x1 == y2 * w + x2,
        0 <= y1,
        0 <= y2,
    ensures
        x1 == x2,
        y1 == y2,
{
    assert(x1 == x2 && y1 == y2) by (nonlinear_arith)
        requires
            0 <= x1 < w,
            0 <= x2 < w,
            y1 * w + x1 == y2 * w + x2,
            0 <= y1,
            0 <= y2,
    ;
}

/// Wrapping one step off either edge of an axis lands on the opposite edge:
/// the torus has no boundary.
pub proof fn lemma_wraparound(n: int)
    requires
        n >= 1,
    ensures
        spec_wrap(-1, n) == spec_wrap(n - 1, n),
        spec_wrap(n, n) == spec_wrap(0, n),
{
}

/// All four wrapped neighbor indices of an in-range cell lie within the
/// grid.
proof fn lemma_neighbor_index_bounds(g: Wator, x: int, y: int)
    requires
        1 <= g.width,
        1 <= g.height,
        g.population@.len() == g.spec_len(),
        0 <= x < g.width,
        0 <= y < g.height,
    ensures
        0 <= g.spec_index_of(x, y - 1) < g.population@.len(),
        0 <= g.spec_index_of(x, y + 1) < g.population@.len(),
        0 <= g.spec_index_of(x + 1, y) < g.population@.len(),
        0 <= g.spec_index_of(x - 1, y) < g.population@.len(),
{
    let w = g.width as int;
    let h = g.height as int;
    lemma_row_major_index_bound(spec_wrap(x, w), spec_wrap(y - 1, h), w, h);
    lemma_row_major_index_bound(spec_wrap(x, w), spec_wrap(y + 1, h), w, h);
    lemma_row_major_index_bound(spec_wrap(x + 1, w), spec_wrap(y, h), w, h);
    lemma_row_major_index_bound(spec_wrap(x - 1, w), spec_wrap(y, h), w, h);
}

/// The toroidal world: a `width` by `height` grid of cells, row-major, each
/// holding at most one agent.
pub struct Wator {
    pub width: u8,
    pub height: u8,
    pub population: Vec<Option<Specie>>,
}

impl Wator {
    /// The number of cells.
    pub open spec fn spec_len(self) -> int {
        self.width as int * self.height as int
    }

    /// The grid is non-degenerate, the backing vector covers it exactly,
    /// and every stored agent is within its bounds.
    pub open spec fn wf(self) -> bool {
        &&& self.width >= 1
        &&& self.height >= 1
        &&& self.population@.len() == self.spec_len()
        &&& forall|i: int|
            0 <= i < self.population@.len() ==> cell_wf(#[trigger] self.population@[i])
    }

    /// The backing index of the wrapped coordinate (`x`, `y`).
    pub open spec fn spec_index_of(self, x: int, y: int) -> int {
        spec_wrap(y, self.height as int) * self.width as int + spec_wrap(x, self.width as int)
    }

    /// The cell (`x`, `y`) has at least one empty wrapped neighbor in this
    /// (pre-tick) grid.
    pub open spec fn spec_has_empty_neighbor(self, x: int, y: int) -> bool {
        ||| self.population@[self.spec_index_of(x, y - 1)] is None
        ||| self.population@[self.spec_index_of(x, y + 1)] is None
        ||| self.population@[self.spec_index_of(x + 1, y)] is None
        ||| self.population@[self.spec_index_of(x - 1, y)] is None
    }

    /// The cell (`x`, `y`) has at least one fish on a wrapped neighbor in
    /// this (pre-tick) grid.
    pub open spec fn spec_has_fish_neighbor(self, x: int, y: int) -> bool {
        ||| is_fish(self.population@[self.spec_index_of(x, y - 1)])
        ||| is_fish(self.population@[self.spec_index_of(x, y + 1)])
        ||| is_fish(self.population@[self.spec_index_of(x + 1, y)])
        ||| is_fish(self.population@[self.spec_index_of(x - 1, y)])
    }

    /// The cell (`x`, `y`) has at least one shark on a wrapped neighbor in
    /// this (pre-tick) grid.
    pub open spec fn spec_has_shark_neighbor(self, x: int, y: int) -> bool {
        ||| is_shark(self.population@[self.spec_index_of(x, y - 1)])
        ||| is_shark(self.population@[self.spec_index_of(x, y + 1)])
        ||| is_shark(self.population@[self.spec_index_of(x + 1, y)])
        ||| is_shark(self.population@[self.spec_index_of(x - 1, y)])
    }

    /// What the cell a shark occupies when the tick begins holds when it
    /// ends. No agent ever moves onto a cell that held a shark in the
    /// snapshot, and whether a shark moves does not depend on the random
    /// draw, so the outcome is fully determined: a starving shark leaves
    /// its cell empty; a shark with somewhere to go (a fish to eat or an
    /// empty cell) vacates it, leaving a newborn exactly when its age
    /// passes the threshold; a shark boxed in by other sharks stays, aged
    /// and one energy poorer.
    pub open spec fn spec_shark_origin_after(self, k: Shark, x: int, y: int) -> Option<Specie> {
        if k.energy <= 1 {
            None
        } else if self.spec_has_fish_neighbor(x, y) || self.spec_has_empty_neighbor(x, y) {
            if k.life + 1 > SHARK_REPRODUCTION_TIME {
                Some(Specie::Shark(Shark { life: 0, energy: SHARK_INITIAL_ENERGY }))
            } else {
                None
            }
        } else {
            Some(
                Specie::Shark(
                    Shark { life: next_life(k.life, SHARK_REPRODUCTION_TIME), energy: (k.energy - 1) as u16 },
                ),
            )
        }
    }

    /// What the cell a fish occupies when the tick begins holds when it
    /// ends, unless a shark ate its way onto it: a fish with an empty
    /// neighbor swims away, leaving a newborn exactly when its age passes
    /// the threshold; a fish with no empty neighbor stays, aged (or reset
    /// by a stationary reproduction).
    pub open spec fn spec_fish_origin_after(self, f: Fish, x: int, y: int) -> Option<Specie> {
        if self.spec_has_empty_neighbor(x, y) {
            if f.life + 1 > FISH_REPRODUCTION_TIME {
                Some(Specie::Fish(Fish { life: 0 }))
            } else {
                None
            }
        } else {
            Some(Specie::Fish(Fish { life: next_life(f.life, FISH_REPRODUCTION_TIME) }))
        }
    }

    /// The agent on (`x`, `y`) will move onto an empty cell this tick: a
    /// fish with an empty neighbor, or a shark with energy left, nothing
    /// to eat, and an empty neighbor. Such a move happens whatever the
    /// random draw; only the destination is the draw's to pick.
    pub open spec fn spec_moves_to_empty(self, x: int, y: int) -> bool {
        match self.population@[y * (self.width as int) + x] {
            Some(Specie::Fish(_)) => self.spec_has_empty_neighbor(x, y),
            Some(Specie::Shark(k)) => k.energy > 1 && !self.spec_has_fish_neighbor(x, y)
                && self.spec_has_empty_neighbor(x, y),
            None => false,
        }
    }

    /// The wrapped neighbor at (`sx`, `sy`) was empty in the snapshot and
    /// is occupied in `res`: somebody's move landed there.
    pub open spec fn spec_landing_at(self, res: Seq<Option<Specie>>, sx: int, sy: int) -> bool {
        &&& self.population@[self.spec_index_of(sx, sy)] is None
        &&& res[self.spec_index_of(sx, sy)] is Some
    }

    /// Some snapshot-empty wrapped neighbor of (`x`, `y`) ends the tick
    /// occupied — by the agent that left (`x`, `y`), or by whichever later
    /// commit claimed the same destination.
    pub open spec fn spec_landed_near(self, res: Seq<Option<Specie>>, x: int, y: int) -> bool {
        ||| self.spec_landing_at(res, x, y - 1)
        ||| self.spec_landing_at(res, x, y + 1)
        ||| self.spec_landing_at(res, x + 1, y)
        ||| self.spec_landing_at(res, x - 1, y)
    }

    /// The snapshot holds an agent on the wrapped neighbor (`sx`, `sy`) of
    /// (`x`, `y`), and `res` holds exactly that agent's carried-forward
    /// state on (`x`, `y`).
    pub open spec fn spec_arrived_from(
        self,
        res: Seq<Option<Specie>>,
        x: int,
        y: int,
        sx: int,
        sy: int,
    ) -> bool {
        match self.population@[self.spec_index_of(sx, sy)] {
            Some(a) => res[y * (self.width as int) + x] == Some(carried_forward(a)),
            None => false,
        }
    }

    /// Provenance of a snapshot-empty cell: it stays empty, or it received
    /// the carried-forward state of an agent that stood on one of its
    /// wrapped neighbors when the tick began. Agents appear from nowhere
    /// on no cell.
    pub open spec fn spec_empty_cell_ok(self, res: Seq<Option<Specie>>, x: int, y: int) -> bool {
        self.population@[y * (self.width as int) + x] is None ==> {
            ||| res[y * (self.width as int) + x] is None
            ||| self.spec_arrived_from(res, x, y, x, y - 1)
            ||| self.spec_arrived_from(res, x, y, x, y + 1)
            ||| self.spec_arrived_from(res, x, y, x + 1, y)
            ||| self.spec_arrived_from(res, x, y, x - 1, y)
        }
    }

    /// The fate of the cell (`x`, `y`) across one tick, determined by the
    /// frozen snapshot: a shark origin is exact; a fish origin is exact
    /// unless a shark standing on a wrapped neighbor ate its way onto it;
    /// and an empty cell either stays empty or receives exactly the
    /// carried-forward state of one of its snapshot neighbors.
    pub open spec fn spec_cell_fate(self, res: Seq<Option<Specie>>, x: int, y: int) -> bool {
        match self.population@[y * (self.width as int) + x] {
            Some(Specie::Shark(k)) => res[y * (self.width as int) + x]
                == self.spec_shark_origin_after(k, x, y),
            Some(Specie::Fish(f)) => res[y * (self.width as int) + x]
                == self.spec_fish_origin_after(f, x, y) || (is_shark(
                res[y * (self.width as int) + x],
            ) && self.spec_has_shark_neighbor(x, y)),
            None => {
                ||| res[y * (self.width as int) + x] is None
                ||| self.spec_arrived_from(res, x, y, x, y - 1)
                ||| self.spec_arrived_from(res, x, y, x, y + 1)
                ||| self.spec_arrived_from(res, x, y, x + 1, y)
                ||| self.spec_arrived_from(res, x, y, x - 1, y)
            },
        }
    }

    /// What one scanned cell owes mid-tick: its origin value as the fate
    /// clause demands, and, when its agent moves onto an empty cell, an
    /// occupied landing spot among its snapshot-empty neighbors.
    pub open spec fn spec_scanned_cell_ok(self, res: Seq<Option<Specie>>, x: int, y: int) -> bool {
        &&& (match self.population@[y * (self.width as int) + x] {
            Some(Specie::Shark(k)) => res[y * (self.width as int) + x]
                == self.spec_shark_origin_after(k, x, y),
            Some(Specie::Fish(f)) => res[y * (self.width as int) + x]
                == self.spec_fish_origin_after(f, x, y) || (is_shark(
                res[y * (self.width as int) + x],
            ) && self.spec_has_shark_neighbor(x, y)),
            None => true,
        })
        &&& (self.spec_moves_to_empty(x, y) ==> self.spec_landed_near(res, x, y))
    }

    /// A fish whose four wrapped neighbors are all fish: it cannot move,
    /// and nothing can move or eat its way onto its cell.
    pub open spec fn spec_boxed_fish(self, x: int, y: int) -> bool {
        &&& is_fish(self.population@[y * (self.width as int) + x])
        &&& is_fish(self.population@[self.spec_index_of(x, y - 1)])
        &&& is_fish(self.population@[self.spec_index_of(x, y + 1)])
        &&& is_fish(self.population@[self.spec_index_of(x + 1, y)])
        &&& is_fish(self.population@[self.spec_index_of(x - 1, y)])
    }

    /// Maps a coordinate one step off the grid back onto it, one wraparound
    /// correction per axis: the contract says each axis wraps as
    /// `spec_wrap` does, and `lemma_wraparound` states the law that one
    /// step off either edge lands on the opposite edge.
    pub fn safe_position(&self, x: i16, y: i16) -> (r: (u8, u8))
        requires
            1 <= self.width,
            1 <= self.height,
            -(self.width as i16) <= x < 2 * (self.width as i16),
            -(self.height as i16) <= y < 2 * (self.height as i16),
        ensures
            r.0 as int == spec_wrap(x as int, self.width as int),
            r.1 as int == spec_wrap(y as int, self.height as int),
            r.0 < self.width,
            r.1 < self.height,
    {
        let w = self.width as i16;
        let h = self.height as i16;
        let ix = if x < 0 {
            x + w
        } else if x >= w {
            x - w
        } else {
            x
        };
        let iy = if y < 0 {
            y + h
        } else if y >= h {
            y - h
        } else {
            y
        };
        (ix as u8, iy as u8)
    }

    /// The agent on `population` at the wrapped coordinate, if any.
    fn safe_get(&self, x: i16, y: i16, population: &Vec<Option<Specie>>) -> (r: Option<Specie>)
        requires
            1 <= self.width,
            1 <= self.height,
            population@.len() == self.spec_len(),
            -(self.width as i16) <= x < 2 * (self.width as i16),
            -(self.height as i16) <= y < 2 * (self.height as i16),
        ensures
            r == population@[self.spec_index_of(x as int, y as int)],
            0 <= self.spec_index_of(x as int, y as int) < population@.len(),
    {
        let (ix, iy) = self.safe_position(x, y);
        proof {
            lemma_row_major_index_bound(
                ix as int,
                iy as int,
                self.width as int,
                self.height as int,
            );
        }
        let idx = iy as usize * self.width as usize + ix as usize;
        population[idx]
    }

    /// Writes `specie` to `population` at the wrapped coordinate,
    /// overwriting whatever was there.
    fn safe_put(&self, x: i16, y: i16, population: &mut Vec<Option<Specie>>, specie: Specie)
        requires
            1 <= self.width,
            1 <= self.height,
            old(population)@.len() == self.spec_len(),
            -(self.width as i16) <= x < 2 * (self.width as i16),
            -(self.height as i16) <= y < 2 * (self.height as i16),
        ensures
            final(population)@ == old(population)@.update(
                self.spec_index_of(x as int, y as int),
                Some(specie),
            ),
            0 <= self.spec_index_of(x as int, y as int) < old(population)@.len(),
    {
        let (ix, iy) = self.safe_position(x, y);
        proof {
            lemma_row_major_index_bound(
                ix as int,
                iy as int,
                self.width as int,
                self.height as int,
            );
        }
        let idx = iy as usize * self.width as usize + ix as usize;
        population[idx] = Some(specie);
    }

    /// A fresh world with the asked-for numbers of fishes and sharks, each
    /// placed on its own cell drawn uniformly at random among the cells
    /// still empty.
    pub fn new(width: u8, height: u8, fishes: u16, sharks: u16, rng: &mut rand::rngs::StdRng) -> (r:
        Wator)
        requires
            1 <= width,
            1 <= height,
            fishes as int + sharks as int <= width as int * height as int,
        ensures
            r.wf(),
            r.width == width,
            r.height == height,
            count_cells(r.population@, fish_fn()) == fishes,
            count_cells(r.population@, shark_fn()) == sharks,
            forall|i: int|
                0 <= i < r.population@.len() ==> is_new_agent(#[trigger] r.population@[i]),
    {
        proof {
            assert(width as int * height as int <= 0xffff) by (nonlinear_arith)
                requires
                    width <= 255,
                    height <= 255,
            ;
        }
        let total = width as usize * height as usize;

        let mut population: Vec<Option<Specie>> = Vec::new();
        for _i in 0..total
            invariant
                population@.len() == _i,
                count_cells(population@, fish_fn()) == 0,
                count_cells(population@, shark_fn()) == 0,
                count_cells(population@, occ_fn()) == 0,
                forall|j: int| 0 <= j < population@.len() ==> #[trigger] population@[j] is None,
        {
            let ghost prev = population@;
            population.push(None);
            proof {
                assert(population@.drop_last() =~= prev);
            }
        }

        let mut placed_fish: u16 = 0;
        while placed_fish < fishes
            invariant
                1 <= width,
                1 <= height,
                fishes as int + sharks as int <= width as int * height as int,
                total == width as int * height as int,
                population@.len() == total,
                placed_fish <= fishes,
                count_cells(population@, fish_fn()) == placed_fish,
                count_cells(population@, shark_fn()) == 0,
                count_cells(population@, occ_fn()) == placed_fish,
                forall|j: int|
                    0 <= j < population@.len() ==> is_new_agent(#[trigger] population@[j]),
            decreases fishes - placed_fish,
        {
            proof {
                lemma_count_complement(population@);
            }
            let empties = total - placed_fish as usize;
            let slot = rng_below(rng, empties);
            let i = nth_empty(&population, slot);
            let ghost prev = population@;
            population[i] = Some(Specie::Fish(Fish { life: 0 }));
            proof {
                lemma_count_update(prev, fish_fn(), i as int, Some(Specie::Fish(Fish { life: 0 })));
                lemma_count_update(prev, shark_fn(), i as int, Some(Specie::Fish(Fish { life: 0 })));
                lemma_count_update(prev, occ_fn(), i as int, Some(Specie::Fish(Fish { life: 0 })));
            }
            placed_fish = placed_fish + 1;
        }

        let mut placed_sharks: u16 = 0;
        while placed_sharks < sharks
            invariant
                1 <= width,
                1 <= height,
                fishes as int + sharks as int <= width as int * height as int,
                total == width as int * height as int,
                population@.len() == total,
                placed_sharks <= sharks,
                count_cells(population@, fish_fn()) == fishes,
                count_cells(population@, shark_fn()) == placed_sharks,
                count_cells(population@, occ_fn()) == fishes + placed_sharks,
                forall|j: int|
                    0 <= j < population@.len() ==> is_new_agent(#[trigger] population@[j]),
            decreases sharks - placed_sharks,
        {
            proof {
                lemma_count_complement(population@);
            }
            let empties = total - fishes as usize - placed_sharks as usize;
            let slot = rng_below(rng, empties);
            let i = nth_empty(&population, slot);
            let ghost prev = population@;
            let newborn = Specie::Shark(Shark { life: 0, energy: SHARK_INITIAL_ENERGY });
            population[i] = Some(newborn);
            proof {
                lemma_count_update(prev, fish_fn(), i as int, Some(newborn));
                lemma_count_update(prev, shark_fn(), i as int, Some(newborn));
                lemma_count_update(prev, occ_fn(), i as int, Some(newborn));
            }
            placed_sharks = placed_sharks + 1;
        }

        Wator { width, height, population }
    }

    /// One generation: every agent occupying a cell when the tick begins
    /// decides from the frozen pre-tick snapshot, and the decisions are
    /// committed in row-major order to the next grid: the agent's origin
    /// cell is cleared, a newborn takes it when the agent both reproduces
    /// and moves, and the agent lands on its target cell, eating whatever
    /// sat there. Commits follow the scan order, and a later commit may
    /// overwrite or clear an earlier one: two agents that pick the same
    /// empty destination collapse to the later one, and an eater vanishes
    /// when its prey is scanned after it and recommits its cell. That is
    /// this crate's resolution of the double-buffered commit; each cell
    /// still holds at most one agent at every point, by construction.
    ///
    /// What the contract pins down for every outcome of the random
    /// tie-breaks: the shape is kept and every stored agent stays within
    /// its bounds; the population grows at most by the number of agents
    /// that were ripe to reproduce; sharks arise only from sharks, so a
    /// shark-free sea stays shark-free; a shark that began the tick with
    /// its last unit of energy has starved, leaving its cell empty; every
    /// cell's fate follows `spec_cell_fate` — shark origins are exact,
    /// fish origins are exact unless a neighboring shark ate its way on,
    /// and an empty cell stays empty or receives exactly the
    /// carried-forward state of a snapshot neighbor, so no agent appears
    /// from nowhere; every agent due to move onto an empty cell leaves an
    /// occupied landing spot among its empty neighbors; and a fish boxed
    /// in by four fish survives in place, exactly aged.
    #[verifier::rlimit(100)]
    pub fn next(&self, rng: &mut rand::rngs::StdRng) -> (r: Wator)
        requires
            self.wf(),
        ensures
            r.wf(),
            r.width == self.width,
            r.height == self.height,
            count_cells(r.population@, occ_fn()) <= count_cells(self.population@, occ_fn())
                + count_cells(self.population@, ripe_fn()),
            count_cells(r.population@, fish_fn()) + count_cells(r.population@, shark_fn())
                <= count_cells(self.population@, fish_fn()) + count_cells(
                self.population@,
                shark_fn(),
            ) + count_cells(self.population@, ripe_fn()),
            count_cells(r.population@, shark_fn()) <= count_cells(self.population@, shark_fn())
                + count_cells(self.population@, ripe_shark_fn()),
            count_cells(self.population@, shark_fn()) == 0 ==> count_cells(
                r.population@,
                shark_fn(),
            ) == 0,
            forall|i: int|
                0 <= i < self.population@.len() && is_starving_shark(#[trigger] self.population@[i])
                    ==> r.population@[i] is None,
            forall|x: int, y: int|
                0 <= x < self.width && 0 <= y < self.height && #[trigger] self.spec_boxed_fish(
                    x,
                    y,
                ) ==> r.population@[y * (self.width as int) + x] == aged_fish(
                    self.population@[y * (self.width as int) + x],
                ),
            forall|x: int, y: int|
                #![trigger self.spec_cell_fate(r.population@, x, y)]
                0 <= x < self.width && 0 <= y < self.height ==> self.spec_cell_fate(
                    r.population@,
                    x,
                    y,
                ),
            forall|x: int, y: int|
                0 <= x < self.width && 0 <= y < self.height && #[trigger] self.spec_moves_to_empty(
                    x,
                    y,
                ) ==> self.spec_landed_near(r.population@, x, y),
    {
        proof {
            assert(self.width as int * self.height as int <= 0xffff) by (nonlinear_arith)
                requires
                    self.width <= 255,
                    self.height <= 255,
            ;
        }
        let w = self.width as usize;
        let h = self.height as usize;
        let total = w * h;

        let ghost cur = self.population@;

        let mut population: Vec<Option<Specie>> = Vec::new();
        for i in 0..total
            invariant
                total == cur.len(),
                cur == self.population@,
                population@ == cur.take(i as int),
        {
            population.push(self.population[i]);
            proof {
                assert(population@ =~= cur.take(i as int + 1));
            }
        }
        proof {
            assert(cur.take(total as int) =~= cur);
        }

        let mut x: usize = 0;
        let mut y: usize = 0;
        let mut idx: usize = 0;
        while idx < total
            invariant
                self.wf(),
                w == self.width as int,
                h == self.height as int,
                total == w * h,
                total == cur.len(),
                cur == self.population@,
                population@.len() == cur.len(),
                idx == y * w + x,
                x < w,
                y <= h,
                y == h ==> x == 0,
                idx <= total,
                forall|j: int| 0 <= j < population@.len() ==> cell_wf(#[trigger] population@[j]),
                forall|j: int|
                    idx <= j < cur.len() && (#[trigger] cur[j]) is Some ==> population@[j] is Some,
                forall|j: int|
                    idx <= j < cur.len() && is_shark(#[trigger] cur[j]) ==> population@[j] == cur[j],
                forall|j: int|
                    0 <= j < idx && is_starving_shark(#[trigger] cur[j]) ==> population@[j] is None,
                count_cells(population@, occ_fn()) <= count_cells(cur, occ_fn()) + count_cells(
                    cur.take(idx as int),
                    ripe_fn(),
                ),
                count_cells(population@, shark_fn()) <= count_cells(cur, shark_fn()) + count_cells(
                    cur.take(idx as int),
                    ripe_shark_fn(),
                ),
                forall|bx: int, by: int|
                    #![trigger self.spec_scanned_cell_ok(population@, bx, by)]
                    0 <= bx < w && 0 <= by < h && by * w + bx < idx ==> self.spec_scanned_cell_ok(
                        population@,
                        bx,
                        by,
                    ),
                forall|bx: int, by: int|
                    #![trigger self.spec_empty_cell_ok(population@, bx, by)]
                    0 <= bx < w && 0 <= by < h ==> self.spec_empty_cell_ok(population@, bx, by),
            decreases total - idx,
        {
            let ghost p_head = population@;
            proof {
                assert(y < h) by (nonlinear_arith)
                    requires
                        idx == y * w + x,
                        idx < total,
                        total == w * h,
                        x < w,
                        y <= h,
                ;
                lemma_count_take_step(cur, ripe_fn(), idx as int);
                lemma_count_take_step(cur, ripe_shark_fn(), idx as int);
            }
            let cur_cell = self.population[idx];
            if let Some(specie) = cur_cell {
                let xi = x as i16;
                let yi = y as i16;
                let north = self.safe_get(xi, yi - 1, &self.population);
                let south = self.safe_get(xi, yi + 1, &self.population);
                let east = self.safe_get(xi + 1, yi, &self.population);
                let west = self.safe_get(xi - 1, yi, &self.population);
                proof {
                    assert(self.spec_has_empty_neighbor(x as int, y as int) == any_empty(
                        north,
                        south,
                        east,
                        west,
                    ));
                    assert(self.spec_has_fish_neighbor(x as int, y as int) == any_edible(
                        north,
                        south,
                        east,
                        west,
                    ));
                }

                let res = specie.mv(north, south, east, west, rng);

                let ghost p0 = population@;
                population[idx] = None;
                proof {
                    lemma_count_update(p0, occ_fn(), idx as int, None);
                    lemma_count_update(p0, shark_fn(), idx as int, None);
                }

                if let Some(me) = res.specie {
                    match res.direction {
                        None => {
                            let ghost p1 = population@;
                            population[idx] = Some(me);
                            proof {
                                lemma_count_update(p1, occ_fn(), idx as int, Some(me));
                                lemma_count_update(p1, shark_fn(), idx as int, Some(me));
                                assert(self.spec_scanned_cell_ok(
                                    population@,
                                    x as int,
                                    y as int,
                                ));
                            }
                        },
                        Some(dir) => {
                            if res.child {
                                let ghost p1 = population@;
                                let baby = specie.child();
                                population[idx] = Some(baby);
                                proof {
                                    lemma_count_update(p1, occ_fn(), idx as int, Some(baby));
                                    lemma_count_update(p1, shark_fn(), idx as int, Some(baby));
                                }
                            }
                            let ghost p2 = population@;
                            let (dx, dy): (i16, i16) = match dir {
                                Direction::North => (xi, yi - 1),
                                Direction::South => (xi, yi + 1),
                                Direction::West => (xi - 1, yi),
                                Direction::East => (xi + 1, yi),
                            };
                            let ghost (ux, uy): (int, int) = match dir {
                                Direction::North => (0int, -1int),
                                Direction::South => (0int, 1int),
                                Direction::West => (-1int, 0int),
                                Direction::East => (1int, 0int),
                            };
                            self.safe_put(dx, dy, &mut population, me);
                            proof {
                                let dest = self.spec_index_of(dx as int, dy as int);
                                assert(cur[dest] == neighbor_of(north, south, east, west, dir));
                                lemma_count_update(p2, occ_fn(), dest, Some(me));
                                lemma_count_update(p2, shark_fn(), dest, Some(me));
                                assert(dx as int == x + ux && dy as int == y + uy);
                                assert(dest != idx);
                                assert(self.spec_scanned_cell_ok(
                                    population@,
                                    x as int,
                                    y as int,
                                ));
                                assert forall|bx: int, by: int|
                                    #![trigger self.spec_empty_cell_ok(population@, bx, by)]
                                    0 <= bx < w && 0 <= by < h implies self.spec_empty_cell_ok(
                                    population@,
                                    bx,
                                    by,
                                ) && (by * w + bx == dest && is_fish(cur[by * w + bx])
                                    ==> is_shark(population@[by * w + bx])
                                    && self.spec_has_shark_neighbor(bx, by)) by {
                                    lemma_row_major_index_bound(bx, by, w as int, h as int);
                                    lemma_neighbor_index_bounds(*self, bx, by);
                                    assert(self.spec_empty_cell_ok(p_head, bx, by));
                                    if by * w + bx == dest {
                                        lemma_row_major_unique(
                                            bx,
                                            by,
                                            spec_wrap(x + ux, w as int),
                                            spec_wrap(y + uy, h as int),
                                            w as int,
                                        );
                                        lemma_wrap_inverse(x as int, ux, w as int);
                                        lemma_wrap_inverse(y as int, uy, h as int);
                                        assert(self.spec_index_of(bx - ux, by - uy) == idx);
                                        if cur[dest] is None {
                                            assert(me == carried_forward(specie));
                                            assert(self.spec_arrived_from(
                                                population@,
                                                bx,
                                                by,
                                                bx - ux,
                                                by - uy,
                                            ));
                                        } else {
                                            assert(is_fish(cur[dest]));
                                            assert(is_shark(Some(me)));
                                            assert(is_shark(
                                                cur[self.spec_index_of(bx - ux, by - uy)],
                                            ));
                                        }
                                    }
                                }
                            }
                        },
                    }
                } else {
                    proof {
                        assert(self.spec_scanned_cell_ok(population@, x as int, y as int));
                    }
                }
            }
            proof {
                assert forall|bx: int, by: int|
                    0 <= bx < w && 0 <= by < h implies self.spec_empty_cell_ok(
                    population@,
                    bx,
                    by,
                ) by {
                    lemma_row_major_index_bound(bx, by, w as int, h as int);
                    lemma_neighbor_index_bounds(*self, bx, by);
                    assert(self.spec_empty_cell_ok(p_head, bx, by));
                }
                assert forall|bx: int, by: int|
                    0 <= bx < w && 0 <= by < h && by * w + bx < idx + 1 implies
                    self.spec_scanned_cell_ok(population@, bx, by) by {
                    lemma_row_major_index_bound(bx, by, w as int, h as int);
                    lemma_neighbor_index_bounds(*self, bx, by);
                    assert(self.spec_empty_cell_ok(population@, bx, by));
                    if by * w + bx < idx {
                        assert(self.spec_scanned_cell_ok(p_head, bx, by));
                    } else {
                        lemma_row_major_unique(bx, by, x as int, y as int, w as int);
                    }
                }
            }
            x = x + 1;
            idx = idx + 1;
            if x == w {
                x = 0;
                y = y + 1;
                proof {
                    assert((y as int) * (w as int) == (y as int - 1) * (w as int) + w as int)
                        by (nonlinear_arith);
                }
            }
        }

        proof {
            assert(cur.take(total as int) =~= cur);
            if count_cells(cur, shark_fn()) == 0 {
                lemma_count_mono(cur, ripe_shark_fn(), shark_fn());
            }
            lemma_census_bounded(cur);
            lemma_census_bounded(population@);
            assert forall|bx: int, by: int|
                #![trigger self.spec_cell_fate(population@, bx, by)]
                0 <= bx < self.width && 0 <= by < self.height implies self.spec_cell_fate(
                population@,
                bx,
                by,
            ) by {
                lemma_row_major_index_bound(bx, by, self.width as int, self.height as int);
                assert(self.spec_scanned_cell_ok(population@, bx, by));
                assert(self.spec_empty_cell_ok(population@, bx, by));
            }
            assert forall|bx: int, by: int|
                #![trigger self.spec_moves_to_empty(bx, by)]
                0 <= bx < self.width && 0 <= by < self.height && self.spec_moves_to_empty(bx, by)
                    implies self.spec_landed_near(population@, bx, by) by {
                lemma_row_major_index_bound(bx, by, self.width as int, self.height as int);
                assert(self.spec_scanned_cell_ok(population@, bx, by));
            }
            assert forall|bx: int, by: int|
                0 <= bx < self.width && 0 <= by < self.height && #[trigger] self.spec_boxed_fish(
                    bx,
                    by,
                ) implies population@[by * (self.width as int) + bx] == aged_fish(
                cur[by * (self.width as int) + bx],
            ) by {
                lemma_row_major_index_bound(bx, by, self.width as int, self.height as int);
                lemma_neighbor_index_bounds(*self, bx, by);
                assert(!self.spec_has_shark_neighbor(bx, by));
                assert(!self.spec_has_empty_neighbor(bx, by));
                assert(self.spec_scanned_cell_ok(population@, bx, by));
            }
        }

        Wator { width: self.width, height: self.height, population }
    }

    /// The census: how many fishes and how many sharks live on the grid.
    pub fn count(&self) -> (r: (u16, u16))
        requires
            self.wf(),
        ensures
            r.0 == count_cells(self.population@, fish_fn()),
            r.1 == count_cells(self.population@, shark_fn()),
    {
        let mut fishes: u16 = 0;
        let mut sharks: u16 = 0;

        let total = self.population.len();
        proof {
            assert(self.width as int * self.height as int <= 0xffff) by (nonlinear_arith)
                requires
                    self.width <= 255,
                    self.height <= 255,
            ;
        }
        for idx in 0..total
            invariant
                total == self.population@.len(),
                total <= 0xffff,
                fishes == count_cells(self.population@.take(idx as int), fish_fn()),
                sharks == count_cells(self.population@.take(idx as int), shark_fn()),
                fishes + sharks <= idx,
        {
            proof {
                lemma_count_take_step(self.population@, fish_fn(), idx as int);
                lemma_count_take_step(self.population@, shark_fn(), idx as int);
            }
            match self.population[idx] {
                Some(Specie::Fish(_)) => {
                    fishes = fishes + 1;
                },
                Some(Specie::Shark(_)) => {
                    sharks = sharks + 1;
                },
                None => (),
            }
        }
        proof {
            assert(self.population@.take(total as int) =~= self.population@);
        }
        (fishes, sharks)
    }

    /// A read-only look at the agent on cell (`x`, `y`), for rendering.
    pub fn agent_at(&self, x: u8, y: u8) -> (r: Option<Specie>)
        requires
            self.wf(),
            x < self.width,
            y < self.height,
        ensures
            r == self.population@[y as int * self.width as int + x as int],
    {
        proof {
            lemma_row_major_index_bound(x as int, y as int, self.width as int, self.height as int);
        }
        self.population[y as usize * self.width as usize + x as usize]
    }
}

/// The index of the cell holding the `r`-th empty cell, counting empties
/// from the start of the grid.
fn nth_empty(population: &Vec<Option<Specie>>, r: usize) -> (i: usize)
    requires
        r < count_cells(population@, empty_fn()),
    ensures
        i < population@.len(),
        population@[i as int] is None,
{
    let mut seen: usize = 0;
    let n = population.len();
    for idx in 0..n
        invariant
            n == population@.len(),
            seen == count_cells(population@.take(idx as int), empty_fn()),
            seen <= r < count_cells(population@, empty_fn()),
    {
        proof {
            lemma_count_take_step(population@, empty_fn(), idx as int);
        }
        if population[idx].is_none() {
            if seen == r {
                return idx;
            }
            seen = seen + 1;
        }
    }
    proof {
        assert(population@.take(n as int) =~= population@);
        assert(false);
    }
    0
}

/// A row-major index from an in-range coordinate lies within the grid, and
/// a grid of byte-sized dimensions fits the index in sixteen bits.
proof fn lemma_row_major_index_bound(x: int, y: int, w: int, h: int)
    requires
        0 <= x < w <= 255,
        0 <= y < h <= 255,
    ensures
        0 <= y * w + x < w * h,
        w * h <= 0xffff,
{
    assert(y * w + x < w * h && w * h <= 0xffff) by (nonlinear_arith)
        requires
            0 <= x < w <= 255,
            0 <= y < h <= 255,
    ;
    assert(y * w + x >= 0) by (nonlinear_arith)
        requires
            0 <= x,
            0 <= y,
            w >= 1,
    ;
}

impl Fish {
    pub fn new() -> (r: Fish)
        ensures
            r.life == 0,
    {
        Fish { life: 0 }
    }
}

impl Shark {
    pub fn new() -> (r: Shark)
        ensures
            r.life == 0,
            r.energy == SHARK_INITIAL_ENERGY,
    {
        Shark { life: 0, energy: SHARK_INITIAL_ENERGY }
    }
}

impl Specie {
    /// The glyph the renderer draws for this agent.
    pub fn c(&self) -> (r: char)
        ensures
            r == (if self is Fish {
                '.'
            } else {
                '#'
            }),
    {
        match self {
            Specie::Fish(_) => '.',
            Specie::Shark(_) => '#',
        }
    }

    /// Only fish can be eaten.
    pub fn can_be_eaten(&self) -> (r: bool)
        ensures
            r == (self is Fish),
    {
        match self {
            Specie::Fish(_) => true,
            Specie::Shark(_) => false,
        }
    }

    /// A newborn of the same kind.
    pub fn child(&self) -> (r: Specie)
        ensures
            r == (if self is Fish {
                Specie::Fish(Fish { life: 0 })
            } else {
                Specie::Shark(Shark { life: 0, energy: SHARK_INITIAL_ENERGY })
            }),
            cell_wf(Some(r)),
    {
        match self {
            Specie::Fish(_) => Specie::Fish(Fish::new()),
            Specie::Shark(_) => Specie::Shark(Shark::new()),
        }
    }

    /// One agent's decision for this tick, given its four neighbors as they
    /// stood when the tick began.
    ///
    /// A fish ages, reproduces as its age passes the threshold, and moves to
    /// an empty neighbor cell picked at random, staying put when boxed in.
    /// Reproduction takes effect only together with a move: a parent that
    /// stays put merely resets its own age, while a moving parent leaves a
    /// newborn behind on the cell it vacates.
    /// A shark first pays one energy and starves if none is left; otherwise
    /// it ages like a fish, and prefers eating: it picks at random among the
    /// fish next to it, gaining energy — the bonus saturates at the energy
    /// type's maximum rather than wrapping — and only failing fish moves
    /// like a fish. Ties are broken uniformly at random.
    #[verifier::rlimit(100)]
    pub fn mv(
        &self,
        north: Option<Specie>,
        south: Option<Specie>,
        east: Option<Specie>,
        west: Option<Specie>,
        rng: &mut rand::rngs::StdRng,
    ) -> (r: MvResult)
        requires
            cell_wf(Some(*self)),
        ensures
            cell_wf(r.specie),
            (match *self {
                Specie::Fish(f) => {
                    &&& r.child == (f.life + 1 > FISH_REPRODUCTION_TIME)
                    &&& r.specie == Some(
                        Specie::Fish(Fish { life: next_life(f.life, FISH_REPRODUCTION_TIME) }),
                    )
                    &&& (match r.direction {
                        Some(d) => neighbor_of(north, south, east, west, d) is None,
                        None => !any_empty(north, south, east, west),
                    })
                },
                Specie::Shark(k) => {
                    if k.energy <= 1 {
                        &&& r.specie is None
                        &&& r.direction is None
                        &&& r.child == false
                    } else {
                        &&& r.child == (k.life + 1 > SHARK_REPRODUCTION_TIME)
                        &&& (if any_edible(north, south, east, west) {
                            &&& r.specie == Some(
                                Specie::Shark(
                                    Shark {
                                        life: next_life(k.life, SHARK_REPRODUCTION_TIME),
                                        energy: energy_after_eating(k.energy),
                                    },
                                ),
                            )
                            &&& (match r.direction {
                                Some(d) => is_fish(neighbor_of(north, south, east, west, d)),
                                None => false,
                            })
                        } else {
                            &&& r.specie == Some(
                                Specie::Shark(
                                    Shark {
                                        life: next_life(k.life, SHARK_REPRODUCTION_TIME),
                                        energy: (k.energy - 1) as u16,
                                    },
                                ),
                            )
                            &&& (match r.direction {
                                Some(d) => neighbor_of(north, south, east, west, d) is None,
                                None => !any_empty(north, south, east, west),
                            })
                        })
                    }
                },
            }),
    {
        match self {
            Specie::Fish(f) => {
                let mut life = f.life + 1;

                let child = life > FISH_REPRODUCTION_TIME;

                if child {
                    life = 0;
                }

                let mut possible: Vec<Direction> = Vec::new();

                if north.is_none() {
                    possible.push(Direction::North);
                }
                if south.is_none() {
                    possible.push(Direction::South);
                }
                if west.is_none() {
                    possible.push(Direction::West);
                }
                if east.is_none() {
                    possible.push(Direction::East);
                }

                proof {
                    assert(forall|k: int|
                        0 <= k < possible@.len() ==> neighbor_of(
                            north,
                            south,
                            east,
                            west,
                            #[trigger] possible@[k],
                        ) is None);
                }

                let movement = if possible.len() == 0 {
                    None
                } else {
                    let i = rng_below(rng, possible.len());
                    Some(possible[i])
                };

                MvResult { specie: Some(Specie::Fish(Fish { life })), direction: movement, child }
            },
            Specie::Shark(k) => {
                let mut life = k.life + 1;

                let child = life > SHARK_REPRODUCTION_TIME;

                if child {
                    life = 0;
                }

                if k.energy <= 1 {
                    return MvResult { specie: None, direction: None, child: false };
                }
                let mut energy = k.energy - 1;

                let mut possible: Vec<Direction> = Vec::new();
                let mut eats: Vec<Direction> = Vec::new();

                match north {
                    None => possible.push(Direction::North),
                    Some(Specie::Fish(_)) => eats.push(Direction::North),
                    _ => (),
                }
                match south {
                    None => possible.push(Direction::South),
                    Some(Specie::Fish(_)) => eats.push(Direction::South),
                    _ => (),
                }
                match west {
                    None => possible.push(Direction::West),
                    Some(Specie::Fish(_)) => eats.push(Direction::West),
                    _ => (),
                }
                match east {
                    None => possible.push(Direction::East),
                    Some(Specie::Fish(_)) => eats.push(Direction::East),
                    _ => (),
                }

                proof {
                    assert(forall|k2: int|
                        0 <= k2 < possible@.len() ==> neighbor_of(
                            north,
                            south,
                            east,
                            west,
                            #[trigger] possible@[k2],
                        ) is None);
                    assert(forall|k2: int|
                        0 <= k2 < eats@.len() ==> is_fish(
                            neighbor_of(north, south, east, west, #[trigger] eats@[k2]),
                        ));
                }

                let mut movement: Option<Direction> = None;

                if eats.len() == 0 {
                    if possible.len() > 0 {
                        let i = rng_below(rng, possible.len());
                        movement = Some(possible[i]);
                    }
                } else {
                    energy = if energy <= u16::MAX - ENERGY_GAIN_ON_EAT {
                        energy + ENERGY_GAIN_ON_EAT
                    } else {
                        u16::MAX
                    };
                    let i = rng_below(rng, eats.len());
                    movement = Some(eats[i]);
                }

                MvResult {
                    specie: Some(Specie::Shark(Shark { life, energy })),
                    direction: movement,
                    child,
                }
            },
        }
    }
}

} // verus!
