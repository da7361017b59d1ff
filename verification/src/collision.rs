//! The collision grid: every vehicle and armed torpedo marks the square of
//! grid cells around its own cell, and a cell shared by a vehicle and a
//! torpedo (or by both vehicles) is a collision.

use vstd::prelude::*;

use crate::torpedo::{armed, is_armed};
use std::collections::HashMap;

verus! {

/// Half-width, in cells, of the square a vehicle occupies.
pub const VEHICLE_REACH: i32 = 10;
/// Half-width, in cells, of the square an armed torpedo occupies.
pub const TORPEDO_REACH: i32 = 5;

/// A grid cell read as a pair of mathematical integers.
pub open spec fn cell_of(c: (i32, i32)) -> (int, int) {
    (c.0 as int, c.1 as int)
}

/// The square of side `2 * reach` whose cells run from `center - reach`
/// (included) to `center + reach` (excluded) on both axes.
pub open spec fn in_square(center: (int, int), reach: int, k: (int, int)) -> bool {
    &&& center.0 - reach <= k.0 < center.0 + reach
    &&& center.1 - reach <= k.1 < center.1 + reach
}

/// Every cell of the square around `center` fits in `i32`.
pub open spec fn square_fits(center: (i32, i32), reach: i32) -> bool {
    &&& 0 <= reach
    &&& i32::MIN <= center.0 - reach
    &&& center.0 + reach <= i32::MAX + 1
    &&& i32::MIN <= center.1 - reach
    &&& center.1 + reach <= i32::MAX + 1
}

/// What one cell of the grid records.
pub struct Occupancy {
    pub player_one: bool,
    pub player_two: bool,
    /// Indices of the torpedoes that entered the cell after it existed.
    pub torps: Vec<usize>,
}

/// The mathematical content of an [`Occupancy`].
pub struct OccupancyView {
    pub player_one: bool,
    pub player_two: bool,
    pub torps: Seq<usize>,
}

impl View for Occupancy {
    type V = OccupancyView;

    open spec fn view(&self) -> OccupancyView {
        OccupancyView { player_one: self.player_one, player_two: self.player_two, torps: self.torps@ }
    }
}

/// Who marks a cell.
#[derive(Clone, Copy, Debug, PartialEq, Eq, Structural)]
pub enum Occupant {
    PlayerOne,
    PlayerTwo,
    /// The torpedo at this index of the frame's torpedo list.
    Torp(usize),
}

/// A cell that already exists after `who` enters it: the player's flag is
/// set, or the torpedo's index is appended.
pub open spec fn entered(cell: OccupancyView, who: Occupant) -> OccupancyView {
    match who {
        Occupant::PlayerOne => OccupancyView { player_one: true, ..cell },
        Occupant::PlayerTwo => OccupancyView { player_two: true, ..cell },
        Occupant::Torp(t) => OccupancyView { torps: cell.torps.push(t), ..cell },
    }
}

/// A cell created by `who`: a player's cell starts with that player's flag;
/// a torpedo creates an empty cell and does not record itself in it.
pub open spec fn fresh(who: Occupant) -> OccupancyView {
    match who {
        Occupant::PlayerOne => OccupancyView { player_one: true, player_two: false, torps: Seq::empty() },
        Occupant::PlayerTwo => OccupancyView { player_one: false, player_two: true, torps: Seq::empty() },
        Occupant::Torp(_) => OccupancyView { player_one: false, player_two: false, torps: Seq::empty() },
    }
}

/// Cell `k` of `grid` after `who` marks it.
pub open spec fn touched(grid: Map<(int, int), OccupancyView>, who: Occupant, k: (int, int)) -> OccupancyView {
    if grid.contains_key(k) {
        entered(grid[k], who)
    } else {
        fresh(who)
    }
}

/// `grid` after `who` marks every cell of the square around `center`.
pub open spec fn after_square(
    grid: Map<(int, int), OccupancyView>,
    who: Occupant,
    center: (int, int),
    reach: int,
) -> Map<(int, int), OccupancyView> {
    Map::new(
        |k: (int, int)| grid.contains_key(k) || in_square(center, reach, k),
        |k: (int, int)|
            if in_square(center, reach, k) {
                touched(grid, who, k)
            } else {
                grid[k]
            },
    )
}

/// Cell `k` of `grid` while a square is being marked, with the rows before
/// `row` and the cells of `row` before `col` (offsets from `center`) done.
pub open spec fn square_progress(
    start: Map<(int, int), OccupancyView>,
    grid: Map<(int, int), OccupancyView>,
    who: Occupant,
    center: (int, int),
    reach: int,
    row: int,
    col: int,
    k: (int, int),
) -> bool {
    let done = in_square(center, reach, k) && (k.0 - center.0 < row || (k.0 - center.0 == row
        && k.1 - center.1 < col));
    if done {
        grid.contains_key(k) && grid[k] == touched(start, who, k)
    } else {
        &&& grid.contains_key(k) == start.contains_key(k)
        &&& start.contains_key(k) ==> grid[k] == start[k]
    }
}

/// The outcome of one frame's collision scan.
#[derive(Clone, Copy, Debug, PartialEq, Eq, Structural)]
pub struct CollisionReport {
    /// A cell holds player one and at least one torpedo.
    pub player_one_hit: bool,
    /// A cell holds player two and at least one torpedo.
    pub player_two_hit: bool,
    /// A cell holds both vehicles.
    pub vehicles_collide: bool,
}

/// Some cell of `grid` holds player one and a torpedo.
pub open spec fn shows_player_one_hit(grid: Map<(int, int), OccupancyView>) -> bool {
    exists|k: (int, int)| grid.contains_key(k) && #[trigger] grid[k].player_one && grid[k].torps.len() > 0
}

/// Some cell of `grid` holds player two and a torpedo.
pub open spec fn shows_player_two_hit(grid: Map<(int, int), OccupancyView>) -> bool {
    exists|k: (int, int)| grid.contains_key(k) && #[trigger] grid[k].player_two && grid[k].torps.len() > 0
}

/// Some cell of `grid` holds both vehicles.
pub open spec fn shows_vehicle_collision(grid: Map<(int, int), OccupancyView>) -> bool {
    exists|k: (int, int)| grid.contains_key(k) && #[trigger] grid[k].player_one && grid[k].player_two
}

/// The number `packed(k)` that keys cell `k` in the grid's hash table: the
/// two coordinates, each shifted to be non-negative, side by side in one
/// 64-bit word.
pub open spec fn packed(k: (int, int)) -> int {
    (k.0 + 0x8000_0000) * 0x1_0000_0000 + (k.1 + 0x8000_0000)
}

/// Both coordinates of `k` fit in `i32`.
pub open spec fn cell_in_i32(k: (int, int)) -> bool {
    &&& i32::MIN <= k.0 <= i32::MAX
    &&& i32::MIN <= k.1 <= i32::MAX
}

/// The hash-table key of a grid cell.
pub open spec fn key_of(c: (i32, i32)) -> u64 {
    packed(cell_of(c)) as u64
}

/// Distinct cells have distinct keys.
proof fn lemma_packed_injective(a: (int, int), b: (int, int))
    requires
        cell_in_i32(a),
        cell_in_i32(b),
        packed(a) == packed(b),
    ensures
        a == b,
{
}

/// The hash-table key of cell `c`.
fn pack_cell(c: (i32, i32)) -> (key: u64)
    ensures
        key as int == packed(cell_of(c)),
        key == key_of(c),
{
    let hi: u64 = (c.0 as i64 + 0x8000_0000i64) as u64;
    let lo: u64 = (c.1 as i64 + 0x8000_0000i64) as u64;
    hi * 0x1_0000_0000u64 + lo
}

/// The collision grid: cells in a hash table keyed by their packed
/// coordinates, with the cells also listed in the order they were created.
pub struct CollisionGrid {
    created: Vec<(i32, i32)>,
    table: HashMap<u64, Occupancy>,
}

impl View for CollisionGrid {
    type V = Map<(int, int), OccupancyView>;

    closed spec fn view(&self) -> Map<(int, int), OccupancyView> {
        Map::new(
            |k: (int, int)| cell_in_i32(k) && self.table@.contains_key(packed(k) as u64),
            |k: (int, int)| self.table@[packed(k) as u64]@,
        )
    }
}

impl CollisionGrid {
    /// The grid's internal invariant: each created cell is listed once, and
    /// the listed cells are exactly the keys of the table.
    pub closed spec fn wf(&self) -> bool {
        &&& forall|i: int, j: int|
            0 <= i < j < self.created@.len() ==> self.created@[i] != self.created@[j]
        &&& forall|i: int|
            0 <= i < self.created@.len() ==> #[trigger] self.table@.contains_key(key_of(self.created@[i]))
        &&& forall|u: u64|
            #[trigger] self.table@.contains_key(u) ==> exists|i: int|
                0 <= i < self.created@.len() && key_of(self.created@[i]) == u
    }

    closed spec fn entry(&self, m: int) -> OccupancyView {
        self.table@[key_of(self.created@[m])]@
    }

    /// An empty grid.
    pub fn new() -> (grid: CollisionGrid)
        ensures
            grid.wf(),
            grid@ == Map::<(int, int), OccupancyView>::empty(),
    {
        let grid = CollisionGrid { created: Vec::new(), table: HashMap::new() };
        assert(grid@ =~= Map::<(int, int), OccupancyView>::empty());
        grid
    }

    /// `who` marks the cell `key`: an existing cell records `who`, a missing
    /// one is created as `who` creates it.
    pub fn mark(&mut self, who: Occupant, key: (i32, i32))
        requires
            old(self).wf(),
        ensures
            final(self).wf(),
            final(self)@ == old(self)@.insert(cell_of(key), touched(old(self)@, who, cell_of(key))),
            final(self)@.contains_key(cell_of(key)),
            final(self)@[cell_of(key)].player_one == ((old(self)@.contains_key(cell_of(key)) && old(
                self,
            )@[cell_of(key)].player_one) || who == Occupant::PlayerOne),
            final(self)@[cell_of(key)].player_two == ((old(self)@.contains_key(cell_of(key)) && old(
                self,
            )@[cell_of(key)].player_two) || who == Occupant::PlayerTwo),
            final(self)@[cell_of(key)].torps == (if old(self)@.contains_key(cell_of(key)) {
                match who {
                    Occupant::Torp(t) => old(self)@[cell_of(key)].torps.push(t),
                    _ => old(self)@[cell_of(key)].torps,
                }
            } else {
                Seq::<usize>::empty()
            }),
            forall|q: (int, int)|
                q != cell_of(key) ==> (#[trigger] final(self)@.contains_key(q) == old(self)@.contains_key(q))
                    && (old(self)@.contains_key(q) ==> final(self)@[q] == old(self)@[q]),
    {
        broadcast use vstd::std_specs::hash::group_hash_axioms;

        let ghost g0 = self@;
        let ghost t0 = self.table@;
        let ghost k = cell_of(key);
        let u = pack_cell(key);
        let removed = self.table.remove(&u);
        let ghost was_new = removed is None;
        match removed {
            Some(cell) => {
                let mut cell = cell;
                assert(g0.contains_key(k) && g0[k] == cell@);
                match who {
                    Occupant::PlayerOne => {
                        cell.player_one = true;
                    },
                    Occupant::PlayerTwo => {
                        cell.player_two = true;
                    },
                    Occupant::Torp(t) => {
                        cell.torps.push(t);
                    },
                }
                assert(cell@ == touched(g0, who, k));
                self.table.insert(u, cell);
            },
            None => {
                assert(!g0.contains_key(k));
                let cell = match who {
                    Occupant::PlayerOne => Occupancy { player_one: true, player_two: false, torps: Vec::new() },
                    Occupant::PlayerTwo => Occupancy { player_one: false, player_two: true, torps: Vec::new() },
                    Occupant::Torp(_) => Occupancy { player_one: false, player_two: false, torps: Vec::new() },
                };
                assert(cell@ == touched(g0, who, k));
                self.table.insert(u, cell);
                let ghost old_created = self.created@;
                self.created.push(key);
                proof {
                    assert forall|a: int, b: int| 0 <= a < b < self.created@.len() implies self.created@[a] != self.created@[b] by {
                        if b == old_created.len() {
                            assert(t0.contains_key(key_of(self.created@[a])));
                        }
                    }
                    assert forall|u2: u64| #[trigger] self.table@.contains_key(u2) implies exists|i: int|
                        0 <= i < self.created@.len() && key_of(self.created@[i]) == u2 by {
                        if u2 == u {
                            assert(key_of(self.created@[old_created.len() as int]) == u2);
                        } else {
                            assert(t0.contains_key(u2));
                            let i = choose|i: int| 0 <= i < old_created.len() && key_of(old_created[i]) == u2;
                            assert(self.created@[i] == old_created[i]);
                        }
                    }
                }
            },
        }
        proof {
            assert(self.table@ == t0.insert(u, self.table@[u]));
            assert forall|q: (int, int)| q != k && cell_in_i32(q) implies packed(q) as u64 != u by {
                if packed(q) as u64 == u {
                    lemma_packed_injective(q, k);
                }
            }
            assert(self@ =~= g0.insert(k, touched(g0, who, k)));
        }
    }

    /// `who` marks every cell of the square around `center`, row by row as
    /// the grid scan does: offsets `-reach .. reach` on both axes.
    pub fn mark_square(&mut self, who: Occupant, center: (i32, i32), reach: i32)
        requires
            old(self).wf(),
            square_fits(center, reach),
        ensures
            final(self).wf(),
            final(self)@ == after_square(old(self)@, who, cell_of(center), reach as int),
            forall|k: (int, int)|
                in_square(cell_of(center), reach as int, k) ==> #[trigger] final(self)@.contains_key(k)
                    && final(self)@[k] == (if old(self)@.contains_key(k) {
                    entered(old(self)@[k], who)
                } else {
                    fresh(who)
                }),
            forall|k: (int, int)|
                !in_square(cell_of(center), reach as int, k) ==> (#[trigger] final(self)@.contains_key(k)
                    == old(self)@.contains_key(k)) && (old(self)@.contains_key(k) ==> final(self)@[k] == old(
                    self,
                )@[k]),
    {
        let ghost g0 = self@;
        let ghost c = cell_of(center);
        let mut i: i32 = -reach;
        while i < reach
            invariant
                self.wf(),
                square_fits(center, reach),
                c == cell_of(center),
                -reach <= i <= reach,
                forall|k: (int, int)|
                    #![trigger self@.contains_key(k)]
                    #![trigger g0.contains_key(k)]
                    square_progress(g0, self@, who, c, reach as int, i as int, -reach as int, k),
            decreases reach - i,
        {
            let mut j: i32 = -reach;
            while j < reach
                invariant
                    self.wf(),
                    square_fits(center, reach),
                    c == cell_of(center),
                    -reach <= i < reach,
                    -reach <= j <= reach,
                    forall|k: (int, int)|
                        #![trigger self@.contains_key(k)]
                        #![trigger g0.contains_key(k)]
                        square_progress(g0, self@, who, c, reach as int, i as int, j as int, k),
                decreases reach - j,
            {
                let key = (center.0 + i, center.1 + j);
                let ghost before = self@;
                self.mark(who, key);
                proof {
                    let nk = cell_of(key);
                    assert(square_progress(g0, before, who, c, reach as int, i as int, j as int, nk));
                    assert forall|k: (int, int)|
                        #![trigger self@.contains_key(k)]
                        #![trigger g0.contains_key(k)]
                        square_progress(g0, self@, who, c, reach as int, i as int, j + 1, k) by {
                        assert(square_progress(g0, before, who, c, reach as int, i as int, j as int, k));
                    }
                }
                j = j + 1;
            }
            proof {
                assert forall|k: (int, int)|
                    #![trigger self@.contains_key(k)]
                    #![trigger g0.contains_key(k)]
                    square_progress(g0, self@, who, c, reach as int, i + 1, -reach as int, k) by {
                    assert(square_progress(g0, self@, who, c, reach as int, i as int, reach as int, k));
                }
            }
            i = i + 1;
        }
        proof {
            assert forall|k: (int, int)| #[trigger] self@.contains_key(k) == after_square(g0, who, c, reach as int).contains_key(k) by {
                assert(square_progress(g0, self@, who, c, reach as int, reach as int, -reach as int, k));
            }
            assert forall|k: (int, int)| #[trigger] self@.contains_key(k) implies self@[k] == after_square(g0, who, c, reach as int)[k] by {
                assert(square_progress(g0, self@, who, c, reach as int, reach as int, -reach as int, k));
            }
            assert(self@ =~= after_square(g0, who, c, reach as int));
        }
    }


    /// What the grid shows once every occupant has marked it.
    pub fn detect(&self) -> (report: CollisionReport)
        requires
            self.wf(),
        ensures
            report.player_one_hit == shows_player_one_hit(self@),
            report.player_two_hit == shows_player_two_hit(self@),
            report.vehicles_collide == shows_vehicle_collision(self@),
    {
        broadcast use vstd::std_specs::hash::group_hash_axioms;

        let mut one = false;
        let mut two = false;
        let mut both = false;
        let mut n: usize = 0;
        while n < self.created.len()
            invariant
                self.wf(),
                n <= self.created@.len(),
                one == exists|m: int| 0 <= m < n && #[trigger] self.entry(m).player_one && self.entry(m).torps.len() > 0,
                two == exists|m: int| 0 <= m < n && #[trigger] self.entry(m).player_two && self.entry(m).torps.len() > 0,
                both == exists|m: int| 0 <= m < n && #[trigger] self.entry(m).player_one && self.entry(m).player_two,
            decreases self.created@.len() - n,
        {
            let u = pack_cell(self.created[n]);
            assert(self.table@.contains_key(key_of(self.created@[n as int])));
            if let Some(cell) = self.table.get(&u) {
                assert(self.entry(n as int) == cell@);
                let has_torps = cell.torps.len() > 0;
                assert(has_torps == (self.entry(n as int).torps.len() > 0));
                assert(self.entry(n as int).player_one == cell.player_one);
                assert(self.entry(n as int).player_two == cell.player_two);
                if cell.player_one && has_torps {
                    one = true;
                }
                if cell.player_two && has_torps {
                    two = true;
                }
                if cell.player_one && cell.player_two {
                    both = true;
                }
            }
            n = n + 1;
        }
        proof {
            let g = self@;
            assert forall|m: int| 0 <= m < self.created@.len() implies #[trigger] g.contains_key(cell_of(self.created@[m]))
                && g[cell_of(self.created@[m])] == self.entry(m) by {
                assert(self.table@.contains_key(key_of(self.created@[m])));
            }
            assert forall|k: (int, int)| #[trigger] g.contains_key(k) implies exists|m: int|
                0 <= m < self.created@.len() && cell_of(self.created@[m]) == k by {
                let u = packed(k) as u64;
                assert(self.table@.contains_key(u));
                let m = choose|m: int| 0 <= m < self.created@.len() && key_of(self.created@[m]) == u;
                lemma_packed_injective(cell_of(self.created@[m]), k);
            }
            if one {
                let m = choose|m: int| 0 <= m < n && #[trigger] self.entry(m).player_one && self.entry(m).torps.len() > 0;
                let k = cell_of(self.created@[m]);
                assert(g.contains_key(k) && g[k].player_one);
            }
            if shows_player_one_hit(g) {
                let k = choose|k: (int, int)| g.contains_key(k) && #[trigger] g[k].player_one && g[k].torps.len() > 0;
                let m = choose|m: int| 0 <= m < self.created@.len() && cell_of(self.created@[m]) == k;
                assert(self.entry(m).player_one && self.entry(m).torps.len() > 0);
            }
            if two {
                let m = choose|m: int| 0 <= m < n && #[trigger] self.entry(m).player_two && self.entry(m).torps.len() > 0;
                let k = cell_of(self.created@[m]);
                assert(g.contains_key(k) && g[k].player_two);
            }
            if shows_player_two_hit(g) {
                let k = choose|k: (int, int)| g.contains_key(k) && #[trigger] g[k].player_two && g[k].torps.len() > 0;
                let m = choose|m: int| 0 <= m < self.created@.len() && cell_of(self.created@[m]) == k;
                assert(self.entry(m).player_two && self.entry(m).torps.len() > 0);
            }
            if both {
                let m = choose|m: int| 0 <= m < n && #[trigger] self.entry(m).player_one && self.entry(m).player_two;
                let k = cell_of(self.created@[m]);
                assert(g.contains_key(k) && g[k].player_one);
            }
            if shows_vehicle_collision(g) {
                let k = choose|k: (int, int)| g.contains_key(k) && #[trigger] g[k].player_one && g[k].player_two;
                let m = choose|m: int| 0 <= m < self.created@.len() && cell_of(self.created@[m]) == k;
                assert(self.entry(m).player_one && self.entry(m).player_two);
            }
        }
        CollisionReport { player_one_hit: one, player_two_hit: two, vehicles_collide: both }
    }

}


/// A torpedo as the collision scan sees it: its grid cell and the
/// milliseconds since it was fired.
#[derive(Clone, Copy, Debug)]
pub struct TorpedoProbe {
    pub cell: (i32, i32),
    pub age_ms: u128,
}

/// `a` and `b` differ by less than `reach` on both axes.
pub open spec fn within(a: (int, int), b: (int, int), reach: int) -> bool {
    &&& -reach < a.0 - b.0 < reach
    &&& -reach < a.1 - b.1 < reach
}

/// Some armed torpedo of `torps` lies within reach of the vehicle at
/// `vehicle`: their squares share a cell.
pub open spec fn torpedo_hits(vehicle: (i32, i32), torps: Seq<TorpedoProbe>) -> bool {
    exists|i: int|
        0 <= i < torps.len() && armed(torps[i].age_ms) && #[trigger] within(
            cell_of(vehicle),
            cell_of(torps[i].cell),
            VEHICLE_REACH + TORPEDO_REACH,
        )
}

/// Every square the scan marks fits in `i32`.
pub open spec fn scan_fits(player_one: (i32, i32), player_two: (i32, i32), torps: Seq<TorpedoProbe>) -> bool {
    &&& square_fits(player_one, VEHICLE_REACH)
    &&& square_fits(player_two, VEHICLE_REACH)
    &&& forall|i: int|
        0 <= i < torps.len() && armed(#[trigger] torps[i].age_ms) ==> square_fits(torps[i].cell, TORPEDO_REACH)
}

/// Torpedo `j` is armed and its square covers cell `k`.
pub open spec fn reaches(torps: Seq<TorpedoProbe>, j: int, k: (int, int)) -> bool {
    armed(torps[j].age_ms) && in_square(cell_of(torps[j].cell), TORPEDO_REACH as int, k)
}

/// The vehicle flags of `grid` are exactly the two vehicle squares, and
/// every cell of those squares exists.
pub open spec fn tracks_vehicles(grid: Map<(int, int), OccupancyView>, c1: (int, int), c2: (int, int)) -> bool {
    &&& forall|k: (int, int)|
        #[trigger] grid.contains_key(k) ==> {
            &&& grid[k].player_one == in_square(c1, VEHICLE_REACH as int, k)
            &&& grid[k].player_two == in_square(c2, VEHICLE_REACH as int, k)
        }
    &&& forall|k: (int, int)|
        in_square(c1, VEHICLE_REACH as int, k) || in_square(c2, VEHICLE_REACH as int, k)
            ==> #[trigger] grid.contains_key(k)
}

/// After the first `n` torpedoes have marked `grid`: a cell holds a torpedo
/// only where one of them reaches, and every vehicle cell that one of them
/// reaches holds a torpedo.
pub open spec fn tracks_torps(
    grid: Map<(int, int), OccupancyView>,
    c1: (int, int),
    c2: (int, int),
    torps: Seq<TorpedoProbe>,
    n: int,
) -> bool {
    &&& forall|k: (int, int)|
        #[trigger] grid.contains_key(k) && grid[k].torps.len() > 0 ==> exists|j: int|
            0 <= j < n && #[trigger] reaches(torps, j, k)
    &&& forall|j: int, k: (int, int)|
        0 <= j < n && #[trigger] reaches(torps, j, k) && (in_square(c1, VEHICLE_REACH as int, k)
            || in_square(c2, VEHICLE_REACH as int, k)) ==> grid.contains_key(k) && grid[k].torps.len() > 0
}

proof fn lemma_vehicles_marked(c1: (int, int), c2: (int, int), torps: Seq<TorpedoProbe>)
    ensures
        ({
            let g1 = after_square(Map::empty(), Occupant::PlayerOne, c1, VEHICLE_REACH as int);
            let g2 = after_square(g1, Occupant::PlayerTwo, c2, VEHICLE_REACH as int);
            tracks_vehicles(g2, c1, c2) && tracks_torps(g2, c1, c2, torps, 0)
        }),
{
    let g1 = after_square(Map::empty(), Occupant::PlayerOne, c1, VEHICLE_REACH as int);
    let g2 = after_square(g1, Occupant::PlayerTwo, c2, VEHICLE_REACH as int);
    assert forall|k: (int, int)| #[trigger] g2.contains_key(k) implies {
        &&& g2[k].player_one == in_square(c1, VEHICLE_REACH as int, k)
        &&& g2[k].player_two == in_square(c2, VEHICLE_REACH as int, k)
        &&& g2[k].torps.len() == 0
    } by {
        if in_square(c1, VEHICLE_REACH as int, k) {
            assert(g1.contains_key(k));
        }
    }
    assert forall|k: (int, int)|
        in_square(c1, VEHICLE_REACH as int, k) || in_square(c2, VEHICLE_REACH as int, k)
            implies #[trigger] g2.contains_key(k) by {
        if in_square(c1, VEHICLE_REACH as int, k) {
            assert(g1.contains_key(k));
        }
    }
}

proof fn lemma_torp_marked(
    grid: Map<(int, int), OccupancyView>,
    c1: (int, int),
    c2: (int, int),
    torps: Seq<TorpedoProbe>,
    n: int,
)
    requires
        0 <= n < torps.len(),
        tracks_vehicles(grid, c1, c2),
        tracks_torps(grid, c1, c2, torps, n),
    ensures
        armed(torps[n].age_ms) ==> ({
            let next = after_square(grid, Occupant::Torp(n as usize), cell_of(torps[n].cell), TORPEDO_REACH as int);
            tracks_vehicles(next, c1, c2) && tracks_torps(next, c1, c2, torps, n + 1)
        }),
        !armed(torps[n].age_ms) ==> tracks_torps(grid, c1, c2, torps, n + 1),
{
    let t = cell_of(torps[n].cell);
    let next = after_square(grid, Occupant::Torp(n as usize), t, TORPEDO_REACH as int);
    if armed(torps[n].age_ms) {
        assert forall|k: (int, int)| #[trigger] next.contains_key(k) implies {
            &&& next[k].player_one == in_square(c1, VEHICLE_REACH as int, k)
            &&& next[k].player_two == in_square(c2, VEHICLE_REACH as int, k)
        } by {
            if grid.contains_key(k) {
            } else {
                assert(!(in_square(c1, VEHICLE_REACH as int, k) || in_square(c2, VEHICLE_REACH as int, k)));
            }
        }
        assert forall|k: (int, int)|
            in_square(c1, VEHICLE_REACH as int, k) || in_square(c2, VEHICLE_REACH as int, k)
                implies #[trigger] next.contains_key(k) by {
            assert(grid.contains_key(k));
        }
        assert forall|k: (int, int)|
            #[trigger] next.contains_key(k) && next[k].torps.len() > 0 implies exists|j: int|
                0 <= j < n + 1 && #[trigger] reaches(torps, j, k) by {
            if in_square(t, TORPEDO_REACH as int, k) {
                assert(reaches(torps, n, k));
            } else {
                assert(grid.contains_key(k) && grid[k].torps.len() > 0);
            }
        }
        assert forall|j: int, k: (int, int)|
            0 <= j < n + 1 && #[trigger] reaches(torps, j, k) && (in_square(c1, VEHICLE_REACH as int, k)
                || in_square(c2, VEHICLE_REACH as int, k)) implies next.contains_key(k)
                && next[k].torps.len() > 0 by {
            assert(grid.contains_key(k));
            if j < n {
                assert(grid[k].torps.len() > 0);
            }
        }
    }
}

proof fn lemma_squares_meet(c1: (int, int), r1: int, c2: (int, int), r2: int)
    requires
        0 < r1,
        0 < r2,
    ensures
        within(c1, c2, r1 + r2) ==> ({
            let k = (
                if c1.0 - r1 >= c2.0 - r2 { c1.0 - r1 } else { c2.0 - r2 },
                if c1.1 - r1 >= c2.1 - r2 { c1.1 - r1 } else { c2.1 - r2 },
            );
            in_square(c1, r1, k) && in_square(c2, r2, k)
        }),
        forall|k: (int, int)| in_square(c1, r1, k) && in_square(c2, r2, k) ==> within(c1, c2, r1 + r2),
{
}

proof fn lemma_scan_outcome(
    grid: Map<(int, int), OccupancyView>,
    v1: (i32, i32),
    v2: (i32, i32),
    torps: Seq<TorpedoProbe>,
)
    requires
        tracks_vehicles(grid, cell_of(v1), cell_of(v2)),
        tracks_torps(grid, cell_of(v1), cell_of(v2), torps, torps.len() as int),
    ensures
        shows_player_one_hit(grid) == torpedo_hits(v1, torps),
        shows_player_two_hit(grid) == torpedo_hits(v2, torps),
        shows_vehicle_collision(grid) == within(cell_of(v1), cell_of(v2), VEHICLE_REACH + VEHICLE_REACH),
{
    let c1 = cell_of(v1);
    let c2 = cell_of(v2);
    let vr = VEHICLE_REACH as int;
    let tr = TORPEDO_REACH as int;
    lemma_squares_meet(c1, vr, c2, vr);
    if shows_player_one_hit(grid) {
        let k = choose|k: (int, int)| grid.contains_key(k) && #[trigger] grid[k].player_one && grid[k].torps.len() > 0;
        let j = choose|j: int| 0 <= j < torps.len() && #[trigger] reaches(torps, j, k);
        lemma_squares_meet(c1, vr, cell_of(torps[j].cell), tr);
        assert(within(c1, cell_of(torps[j].cell), VEHICLE_REACH + TORPEDO_REACH));
    }
    if torpedo_hits(v1, torps) {
        let i = choose|i: int|
            0 <= i < torps.len() && armed(torps[i].age_ms) && #[trigger] within(
                c1,
                cell_of(torps[i].cell),
                VEHICLE_REACH + TORPEDO_REACH,
            );
        let t = cell_of(torps[i].cell);
        lemma_squares_meet(c1, vr, t, tr);
        let k = (
            if c1.0 - vr >= t.0 - tr { c1.0 - vr } else { t.0 - tr },
            if c1.1 - vr >= t.1 - tr { c1.1 - vr } else { t.1 - tr },
        );
        assert(reaches(torps, i, k));
        assert(grid.contains_key(k));
        assert(grid[k].player_one);
    }
    if shows_player_two_hit(grid) {
        let k = choose|k: (int, int)| grid.contains_key(k) && #[trigger] grid[k].player_two && grid[k].torps.len() > 0;
        let j = choose|j: int| 0 <= j < torps.len() && #[trigger] reaches(torps, j, k);
        lemma_squares_meet(c2, vr, cell_of(torps[j].cell), tr);
        assert(within(c2, cell_of(torps[j].cell), VEHICLE_REACH + TORPEDO_REACH));
    }
    if torpedo_hits(v2, torps) {
        let i = choose|i: int|
            0 <= i < torps.len() && armed(torps[i].age_ms) && #[trigger] within(
                c2,
                cell_of(torps[i].cell),
                VEHICLE_REACH + TORPEDO_REACH,
            );
        let t = cell_of(torps[i].cell);
        lemma_squares_meet(c2, vr, t, tr);
        let k = (
            if c2.0 - vr >= t.0 - tr { c2.0 - vr } else { t.0 - tr },
            if c2.1 - vr >= t.1 - tr { c2.1 - vr } else { t.1 - tr },
        );
        assert(reaches(torps, i, k));
        assert(grid.contains_key(k));
        assert(grid[k].player_two);
    }
    if shows_vehicle_collision(grid) {
        let k = choose|k: (int, int)| grid.contains_key(k) && #[trigger] grid[k].player_one && grid[k].player_two;
        assert(in_square(c1, vr, k) && in_square(c2, vr, k));
    }
    if within(c1, c2, VEHICLE_REACH + VEHICLE_REACH) {
        let k = (
            if c1.0 - vr >= c2.0 - vr { c1.0 - vr } else { c2.0 - vr },
            if c1.1 - vr >= c2.1 - vr { c1.1 - vr } else { c2.1 - vr },
        );
        assert(grid.contains_key(k));
        assert(grid[k].player_one);
    }
}

/// One frame's collision scan. Player one marks the square of half-width
/// ten around its cell, then player two does, then each armed torpedo marks
/// the square of half-width five around its cell (recording itself only
/// in cells that already exist); a cell holding a vehicle and a torpedo is a
/// hit on that vehicle, and one holding both vehicles is a vehicle
/// collision.
pub fn resolve_collisions(
    player_one: (i32, i32),
    player_two: (i32, i32),
    torps: &Vec<TorpedoProbe>,
) -> (report: CollisionReport)
    requires
        scan_fits(player_one, player_two, torps@),
    ensures
        report.player_one_hit == torpedo_hits(player_one, torps@),
        report.player_two_hit == torpedo_hits(player_two, torps@),
        report.vehicles_collide == within(cell_of(player_one), cell_of(player_two), VEHICLE_REACH + VEHICLE_REACH),
{
    let ghost c1 = cell_of(player_one);
    let ghost c2 = cell_of(player_two);
    let mut grid = CollisionGrid::new();
    grid.mark_square(Occupant::PlayerOne, player_one, VEHICLE_REACH);
    grid.mark_square(Occupant::PlayerTwo, player_two, VEHICLE_REACH);
    proof {
        lemma_vehicles_marked(c1, c2, torps@);
    }
    let mut idx: usize = 0;
    while idx < torps.len()
        invariant
            grid.wf(),
            idx <= torps@.len(),
            scan_fits(player_one, player_two, torps@),
            c1 == cell_of(player_one),
            c2 == cell_of(player_two),
            tracks_vehicles(grid@, c1, c2),
            tracks_torps(grid@, c1, c2, torps@, idx as int),
        decreases torps@.len() - idx,
    {
        let probe = torps[idx];
        proof {
            lemma_torp_marked(grid@, c1, c2, torps@, idx as int);
        }
        if is_armed(probe.age_ms) {
            grid.mark_square(Occupant::Torp(idx), probe.cell, TORPEDO_REACH);
        }
        idx = idx + 1;
    }
    proof {
        lemma_scan_outcome(grid@, player_one, player_two, torps@);
    }
    grid.detect()
}


/// A torpedo that is not yet armed changes no vehicle's fate: removing it
/// from the frame's torpedoes leaves every hit as it was.
pub proof fn lemma_unarmed_torpedo_harmless(vehicle: (i32, i32), torps: Seq<TorpedoProbe>, i: int)
    requires
        0 <= i < torps.len(),
        !armed(torps[i].age_ms),
    ensures
        torpedo_hits(vehicle, torps) == torpedo_hits(vehicle, torps.remove(i)),
{
    let rest = torps.remove(i);
    let reach = VEHICLE_REACH + TORPEDO_REACH;
    if torpedo_hits(vehicle, torps) {
        let j = choose|j: int|
            0 <= j < torps.len() && armed(torps[j].age_ms) && #[trigger] within(cell_of(vehicle), cell_of(torps[j].cell), reach);
        if j < i {
            assert(rest[j] == torps[j]);
            assert(within(cell_of(vehicle), cell_of(rest[j].cell), reach));
        } else {
            assert(rest[j - 1] == torps[j]);
            assert(within(cell_of(vehicle), cell_of(rest[j - 1].cell), reach));
        }
    }
    if torpedo_hits(vehicle, rest) {
        let j = choose|j: int|
            0 <= j < rest.len() && armed(rest[j].age_ms) && #[trigger] within(cell_of(vehicle), cell_of(rest[j].cell), reach);
        if j < i {
            assert(within(cell_of(vehicle), cell_of(torps[j].cell), reach));
        } else {
            assert(within(cell_of(vehicle), cell_of(torps[j + 1].cell), reach));
        }
    }
}

/// More torpedoes never undo a hit.
pub proof fn lemma_hits_persist_with_more_torps(vehicle: (i32, i32), torps: Seq<TorpedoProbe>, more: Seq<TorpedoProbe>)
    requires
        torpedo_hits(vehicle, torps),
    ensures
        torpedo_hits(vehicle, torps + more),
{
    let reach = VEHICLE_REACH + TORPEDO_REACH;
    let j = choose|j: int|
        0 <= j < torps.len() && armed(torps[j].age_ms) && #[trigger] within(cell_of(vehicle), cell_of(torps[j].cell), reach);
    assert((torps + more)[j] == torps[j]);
    assert(within(cell_of(vehicle), cell_of((torps + more)[j].cell), reach));
}

/// The vehicles collide with each other or not whichever is called player
/// one.
pub proof fn lemma_vehicle_collision_symmetric(a: (i32, i32), b: (i32, i32))
    ensures
        within(cell_of(a), cell_of(b), VEHICLE_REACH + VEHICLE_REACH) == within(
            cell_of(b),
            cell_of(a),
            VEHICLE_REACH + VEHICLE_REACH,
        ),
{
}


/// How many consecutive cells two runs of `width` cells share when they
/// start at `a` and at `b`: `max(0, width - |a - b|)`.
pub open spec fn run_overlap(a: int, b: int, width: int) -> int {
    let d = if a >= b { a - b } else { b - a };
    if d < width {
        width - d
    } else {
        0
    }
}

/// The cells that lie in both vehicles' squares.
pub open spec fn shared_cells(player_one: (i32, i32), player_two: (i32, i32)) -> Set<(int, int)> {
    Set::new(
        |k: (int, int)|
            in_square(cell_of(player_one), VEHICLE_REACH as int, k) && in_square(
                cell_of(player_two),
                VEHICLE_REACH as int,
                k,
            ),
    )
}

/// The cells of the rectangle `[x0, x1) x [y0, y1)`.
pub open spec fn rectangle(x0: int, x1: int, y0: int, y1: int) -> Set<(int, int)> {
    Set::new(|k: (int, int)| x0 <= k.0 < x1 && y0 <= k.1 < y1)
}

proof fn lemma_rectangle_size(x0: int, x1: int, y0: int, y1: int)
    requires
        x0 <= x1,
        y0 <= y1,
    ensures
        rectangle(x0, x1, y0, y1).finite(),
        rectangle(x0, x1, y0, y1).len() == (x1 - x0) * (y1 - y0),
    decreases x1 - x0,
{
    if x1 == x0 {
        assert(rectangle(x0, x1, y0, y1) =~= Set::<(int, int)>::empty());
    } else {
        lemma_rectangle_size(x0, x1 - 1, y0, y1);
        let column = vstd::set_lib::set_int_range(y0, y1);
        let f = |y: int| (x1 - 1, y);
        let row = column.map(f);
        vstd::set_lib::lemma_int_range(y0, y1);
        assert(row =~= Set::new(|k: (int, int)| k.0 == x1 - 1 && y0 <= k.1 < y1)) by {
            assert forall|k: (int, int)| k.0 == x1 - 1 && y0 <= k.1 < y1 implies row.contains(k) by {
                assert(column.contains(k.1) && f(k.1) == k);
            }
        }
        assert(vstd::relations::injective_on(f, column));
        vstd::set_lib::lemma_map_size(column, row, f);
        let rest = rectangle(x0, x1 - 1, y0, y1);
        assert(rest.disjoint(row));
        vstd::set_lib::lemma_set_disjoint_lens(rest, row);
        assert(rectangle(x0, x1, y0, y1) =~= rest + row);
        assert((x1 - x0) * (y1 - y0) == (x1 - 1 - x0) * (y1 - y0) + (y1 - y0)) by (nonlinear_arith);
    }
}

/// The cells in both vehicle squares form a rectangle whose sides are the
/// overlaps of the squares on each axis.
proof fn lemma_shared_cells_count(player_one: (i32, i32), player_two: (i32, i32))
    ensures
        shared_cells(player_one, player_two).finite(),
        shared_cells(player_one, player_two).len() == run_overlap(player_one.0 as int, player_two.0 as int, 20)
            * run_overlap(player_one.1 as int, player_two.1 as int, 20),
{
    let a = cell_of(player_one);
    let b = cell_of(player_two);
    let lo0 = if a.0 >= b.0 { a.0 - 10 } else { b.0 - 10 };
    let hi0 = if a.0 >= b.0 { b.0 + 10 } else { a.0 + 10 };
    let lo1 = if a.1 >= b.1 { a.1 - 10 } else { b.1 - 10 };
    let hi1 = if a.1 >= b.1 { b.1 + 10 } else { a.1 + 10 };
    let x1 = if hi0 >= lo0 { hi0 } else { lo0 };
    let y1 = if hi1 >= lo1 { hi1 } else { lo1 };
    assert(shared_cells(player_one, player_two) =~= rectangle(lo0, x1, lo1, y1));
    lemma_rectangle_size(lo0, x1, lo1, y1);
}

fn run_overlap_width(a: i32, b: i32) -> (w: u32)
    ensures
        w == run_overlap(a as int, b as int, 20),
        w <= 20,
{
    let d: i64 = if a >= b { a as i64 - b as i64 } else { b as i64 - a as i64 };
    if d < 20 {
        (20 - d) as u32
    } else {
        0
    }
}

/// How many grid cells the two vehicle squares share: one "vehicle
/// collision" is reported per such cell, `max(0, 20 - |dx|) * max(0, 20 -
/// |dy|)` for cells `dx` and `dy` apart. It is positive exactly when the
/// vehicles collide.
pub fn shared_vehicle_cells(player_one: (i32, i32), player_two: (i32, i32)) -> (count: u32)
    ensures
        count == run_overlap(player_one.0 as int, player_two.0 as int, 20) * run_overlap(
            player_one.1 as int,
            player_two.1 as int,
            20,
        ),
        count == shared_cells(player_one, player_two).len(),
        count > 0 <==> within(cell_of(player_one), cell_of(player_two), VEHICLE_REACH + VEHICLE_REACH),
{
    let wx = run_overlap_width(player_one.0, player_two.0);
    let wy = run_overlap_width(player_one.1, player_two.1);
    assert(wx * wy <= 400 && (wx * wy > 0 <==> (wx > 0 && wy > 0))) by (nonlinear_arith)
        requires
            wx <= 20,
            wy <= 20,
    ;
    proof {
        lemma_shared_cells_count(player_one, player_two);
    }
    wx * wy
}


/// Whether every cell of the square around `center` fits in `i32`.
pub fn square_in_range(center: (i32, i32), reach: i32) -> (fits: bool)
    ensures
        fits == square_fits(center, reach),
{
    let lo = i32::MIN as i64;
    let hi = i32::MAX as i64 + 1;
    let r = reach as i64;
    0 <= r && lo <= center.0 as i64 - r && center.0 as i64 + r <= hi && lo <= center.1 as i64 - r
        && center.1 as i64 + r <= hi
}

/// Whether every square the collision scan marks fits in `i32`, which
/// [`resolve_collisions`] requires.
pub fn scan_in_range(player_one: (i32, i32), player_two: (i32, i32), torps: &Vec<TorpedoProbe>) -> (fits: bool)
    ensures
        fits == scan_fits(player_one, player_two, torps@),
{
    if !square_in_range(player_one, VEHICLE_REACH) || !square_in_range(player_two, VEHICLE_REACH) {
        return false;
    }
    let mut i: usize = 0;
    while i < torps.len()
        invariant
            i <= torps@.len(),
            forall|j: int|
                0 <= j < i && armed(#[trigger] torps@[j].age_ms) ==> square_fits(torps@[j].cell, TORPEDO_REACH),
        decreases torps@.len() - i,
    {
        let probe = torps[i];
        if is_armed(probe.age_ms) && !square_in_range(probe.cell, TORPEDO_REACH) {
            return false;
        }
        i = i + 1;
    }
    true
}


/// Entering a cell only adds to it: a vehicle sets its own flag and keeps
/// every other record, and a torpedo appends its index after the indices
/// already there, keeping both flags.
pub proof fn lemma_entering_keeps_records(cell: OccupancyView, who: Occupant)
    ensures
        entered(cell, who).player_one == (cell.player_one || who == Occupant::PlayerOne),
        entered(cell, who).player_two == (cell.player_two || who == Occupant::PlayerTwo),
        entered(cell, who).torps.len() == cell.torps.len() + (if who is Torp { 1int } else { 0int }),
        entered(cell, who).torps.subrange(0, cell.torps.len() as int) == cell.torps,
        who matches Occupant::Torp(t) ==> entered(cell, who).torps.last() == t,
{
    assert(entered(cell, who).torps.subrange(0, cell.torps.len() as int) =~= cell.torps);
}

/// In a cell that already exists, the order in which two occupants enter
/// changes neither flag nor how many torpedoes it records, so the scan's
/// findings on that cell do not depend on it.
pub proof fn lemma_entering_order_irrelevant(cell: OccupancyView, a: Occupant, b: Occupant)
    ensures
        entered(entered(cell, a), b).player_one == entered(entered(cell, b), a).player_one,
        entered(entered(cell, a), b).player_two == entered(entered(cell, b), a).player_two,
        entered(entered(cell, a), b).torps.len() == entered(entered(cell, b), a).torps.len(),
{
    lemma_entering_keeps_records(cell, a);
    lemma_entering_keeps_records(cell, b);
    lemma_entering_keeps_records(entered(cell, a), b);
    lemma_entering_keeps_records(entered(cell, b), a);
}

/// A new cell records only the vehicle that creates it; a torpedo creates
/// an empty cell.
pub proof fn lemma_fresh_cells(who: Occupant)
    ensures
        fresh(who).player_one == (who == Occupant::PlayerOne),
        fresh(who).player_two == (who == Occupant::PlayerTwo),
        fresh(who).torps.len() == 0,
{
}

} // verus!
