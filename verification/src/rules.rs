//! The neighbour rule: counting live Moore neighbours against a snapshot of
//! the live positions, and deciding each cell's next state from it.

use crate::grid::{Cell, GridView, Index};
use crate::store::{CellStore, StoreView};
use vstd::prelude::*;

verus! {

/// One if `(x, y)` is live, zero otherwise.
pub open spec fn lives_at(alive: Set<(int, int)>, x: int, y: int) -> nat {
    if alive.contains((x, y)) {
        1
    } else {
        0
    }
}

/// How many of the eight positions around `c` are live. Nothing wraps
/// around: a position off the board is simply never in `alive`.
pub open spec fn live_count(c: (int, int), alive: Set<(int, int)>) -> nat {
    lives_at(alive, c.0 - 1, c.1 - 1)
        + lives_at(alive, c.0, c.1 - 1)
        + lives_at(alive, c.0 + 1, c.1 - 1)
        + lives_at(alive, c.0 - 1, c.1)
        + lives_at(alive, c.0 + 1, c.1)
        + lives_at(alive, c.0 - 1, c.1 + 1)
        + lives_at(alive, c.0, c.1 + 1)
        + lives_at(alive, c.0 + 1, c.1 + 1)
}

/// Conway's rule: a live cell survives on two or three live neighbours, a
/// dead cell comes to life on exactly three.
pub open spec fn conway(alive: bool, neighbours: nat) -> bool {
    if alive {
        neighbours == 2 || neighbours == 3
    } else {
        neighbours == 3
    }
}

/// Whether the cell at `c` is live in the generation after `alive`.
pub open spec fn next_alive(c: (int, int), alive: Set<(int, int)>) -> bool {
    conway(alive.contains(c), live_count(c, alive))
}

/// The generation after `alive` on `grid`: every cell of the grid judged
/// against the same set.
pub open spec fn next_generation(grid: GridView, alive: Set<(int, int)>) -> Set<(int, int)> {
    Set::new(|p: (int, int)| grid.contains(p) && next_alive(p, alive))
}

/// The eight positions around `c`.
pub open spec fn neighbours(c: (int, int)) -> Set<(int, int)> {
    Set::new(
        |p: (int, int)| p != c && c.0 - 1 <= p.0 <= c.0 + 1 && c.1 - 1 <= p.1 <= c.1 + 1,
    )
}

/// One if `(x, y)` lies on `grid`, zero otherwise.
pub open spec fn on_grid(grid: GridView, x: int, y: int) -> nat {
    if grid.contains((x, y)) {
        1
    } else {
        0
    }
}

/// How many of the eight positions around `c` lie on `grid`.
pub open spec fn neighbours_on_grid(grid: GridView, c: (int, int)) -> nat {
    on_grid(grid, c.0 - 1, c.1 - 1)
        + on_grid(grid, c.0, c.1 - 1)
        + on_grid(grid, c.0 + 1, c.1 - 1)
        + on_grid(grid, c.0 - 1, c.1)
        + on_grid(grid, c.0 + 1, c.1)
        + on_grid(grid, c.0 - 1, c.1 + 1)
        + on_grid(grid, c.0, c.1 + 1)
        + on_grid(grid, c.0 + 1, c.1 + 1)
}

/// The positions that occur in `entries`.
pub open spec fn positions_of(entries: Seq<Index>) -> Set<(int, int)> {
    Set::new(
        |p: (int, int)| exists|i: int| 0 <= i < entries.len() && (#[trigger] entries[i])@ == p,
    )
}

/// A snapshot of the live positions, taken before a generation is computed.
#[derive(Debug)]
pub struct AliveSet {
    cells: Vec<Index>,
}

impl View for AliveSet {
    type V = Set<(int, int)>;

    closed spec fn view(&self) -> Set<(int, int)> {
        positions_of(self.cells@)
    }
}

impl AliveSet {
    /// The empty snapshot.
    pub fn new() -> (set: Self)
        ensures
            set@ == Set::<(int, int)>::empty(),
    {
        AliveSet { cells: Vec::new() }
    }

    /// The snapshot that holds exactly the entries of `cells`.
    pub fn from_vec(cells: Vec<Index>) -> (set: Self)
        ensures
            set@ == positions_of(cells@),
    {
        AliveSet { cells }
    }

    /// Adds `index` to the snapshot.
    pub fn insert(&mut self, index: Index)
        ensures
            final(self)@ == old(self)@.insert(index@),
    {
        self.cells.push(index);
        proof {
            let before = old(self).cells@;
            let after = self.cells@;
            assert forall|p: (int, int)|
                self@.contains(p) <==> old(self)@.insert(index@).contains(p) by {
                if old(self)@.contains(p) {
                    let i = choose|i: int| 0 <= i < before.len() && (#[trigger] before[i])@ == p;
                    assert(after[i]@ == p);
                }
                if p == index@ {
                    assert(after[before.len() as int]@ == p);
                }
            }
        }
    }

    /// Whether nothing is live.
    pub fn is_empty(&self) -> (empty: bool)
        ensures
            empty <==> self@ == Set::<(int, int)>::empty(),
    {
        proof {
            if self.cells.len() > 0 {
                assert(self@.contains(self.cells[0]@));
            } else {
                assert(self@ =~= Set::<(int, int)>::empty());
            }
        }
        self.cells.len() == 0
    }

    /// Whether the position `(x, y)` is live.
    pub fn contains_at(&self, x: i64, y: i64) -> (found: bool)
        ensures
            found == self@.contains((x as int, y as int)),
    {
        let mut i: usize = 0;
        while i < self.cells.len()
            invariant
                i <= self.cells.len(),
                forall|j: int| 0 <= j < i ==> (#[trigger] self.cells[j])@ != (x as int, y as int),
            decreases self.cells.len() - i,
        {
            let entry = self.cells[i];
            if entry.x as i64 == x && entry.y as i64 == y {
                return true;
            }
            i += 1;
        }
        false
    }

    /// Whether `index` is live.
    pub fn contains(&self, index: Index) -> (found: bool)
        ensures
            found == self@.contains(index@),
    {
        self.contains_at(index.x as i64, index.y as i64)
    }

    /// One if `(x, y)` is live, zero otherwise.
    fn lives_at(&self, x: i64, y: i64) -> (n: u8)
        ensures
            n == lives_at(self@, x as int, y as int),
    {
        if self.contains_at(x, y) {
            1
        } else {
            0
        }
    }

    /// Number of live positions among the eight around `cell`.
    pub fn live_count(&self, cell: Index) -> (n: u8)
        ensures
            n == live_count(cell@, self@),
            n <= 8,
    {
        let x = cell.x as i64;
        let y = cell.y as i64;
        self.lives_at(x - 1, y - 1) + self.lives_at(x, y - 1) + self.lives_at(x + 1, y - 1)
            + self.lives_at(x - 1, y) + self.lives_at(x + 1, y) + self.lives_at(x - 1, y + 1)
            + self.lives_at(x, y + 1) + self.lives_at(x + 1, y + 1)
    }

    /// Whether the cell at `cell` is live in the next generation.
    pub fn next_alive(&self, cell: Index) -> (alive: bool)
        ensures
            alive == next_alive(cell@, self@),
    {
        let n = self.live_count(cell);
        if self.contains(cell) {
            n == 2 || n == 3
        } else {
            n == 3
        }
    }
}

/// Applies the rule to one cell in place: its `alive` flag becomes its state
/// in the next generation, judged from the flag it has now and from the
/// snapshot `alive`.
pub fn check_rules(cell: &mut Cell, alive: &AliveSet)
    ensures
        final(cell).alive == conway(old(cell).alive, live_count(old(cell).index@, alive@)),
        final(cell).hovered == old(cell).hovered,
        final(cell).coord == old(cell).coord,
        final(cell).index == old(cell).index,
{
    let n = alive.live_count(cell.index);
    if cell.alive {
        cell.alive = n == 2 || n == 3;
    } else {
        cell.alive = n == 3;
    }
}

impl StoreView {
    /// The store one generation later. Hover marks are not touched.
    pub open spec fn step(self) -> StoreView {
        StoreView { alive: next_generation(self.grid, self.alive), ..self }
    }
}

/// Computes one generation: takes a snapshot of the live positions, judges
/// every cell against that one snapshot and writes the results back. Tells
/// whether any cell is live afterwards.
pub fn advance(store: &mut CellStore) -> (any_alive: bool)
    ensures
        final(store)@ == old(store)@.step(),
        any_alive == (final(store)@.alive != Set::<(int, int)>::empty()),
{
    let ghost before = store@;
    proof {
        use_type_invariant(&*store);
    }
    let snapshot = store.snapshot_alive();
    let n = store.len();
    let mut any_alive = false;
    let ghost mut witness: (int, int) = (0, 0);
    let mut k: usize = 0;
    while k < n
        invariant
            k <= n,
            n == before.grid.cell_count(),
            before.wf(),
            snapshot@ == before.alive,
            store@.grid == before.grid,
            store@.viewport_height == before.viewport_height,
            store@.hovered == before.hovered,
            store@.wf(),
            forall|p: (int, int)|
                #![trigger store@.alive.contains(p)]
                before.grid.contains(p) && before.grid.slot(p) < k ==> store@.alive.contains(p)
                    == next_alive(p, before.alive),
            forall|p: (int, int)|
                #![trigger store@.alive.contains(p)]
                before.grid.contains(p) && before.grid.slot(p) >= k ==> store@.alive.contains(p)
                    == before.alive.contains(p),
            any_alive ==> before.grid.contains(witness) && before.grid.slot(witness) < k
                && next_alive(witness, before.alive),
            !any_alive ==> forall|p: (int, int)|
                #![trigger next_alive(p, before.alive)]
                before.grid.contains(p) && before.grid.slot(p) < k
                    ==> !next_alive(p, before.alive),
        decreases n - k,
    {
        let mut cell = store.cells()[k];
        proof {
            let g = before.grid;
            g.lemma_index_slot(k as int);
            assert forall|p: (int, int)| g.contains(p) && p != cell.index@ implies g.slot(p)
                != k by {
                g.lemma_slot_index(p);
            }
        }
        check_rules(&mut cell, &snapshot);
        store.set_alive(cell.index, cell.alive);
        if cell.alive {
            any_alive = true;
            proof {
                witness = cell.index@;
            }
        }
        proof {
            use_type_invariant(&*store);
        }
        k += 1;
    }
    proof {
        let after = store@;
        let expected = before.step();
        assert forall|p: (int, int)| before.grid.contains(p) implies before.grid.slot(p) < n by {
            before.grid.lemma_slot_index(p);
        }
        assert(after.alive =~= expected.alive);
        if any_alive {
            assert(after.alive.contains(witness));
        } else {
            assert(after.alive =~= Set::<(int, int)>::empty());
        }
    }
    any_alive
}

/// A generation lives on the grid: whatever was live before, only cells of
/// the grid are live afterwards, and a well-formed store stays well formed.
pub proof fn lemma_step_preserves_wf(store: StoreView)
    requires
        store.wf(),
    ensures
        store.step().wf(),
        next_generation(store.grid, store.alive).subset_of(store.grid.positions()),
{
}

/// The rule spelled out: a live cell with two or three live neighbours
/// stays alive and any other live cell dies; a dead cell with exactly three
/// live neighbours comes to life and any other dead cell stays dead.
pub proof fn lemma_rule_cases(c: (int, int), alive: Set<(int, int)>)
    ensures
        alive.contains(c) && (live_count(c, alive) == 2 || live_count(c, alive) == 3)
            ==> next_alive(c, alive),
        alive.contains(c) && (live_count(c, alive) < 2 || live_count(c, alive) > 3)
            ==> !next_alive(c, alive),
        !alive.contains(c) && live_count(c, alive) == 3 ==> next_alive(c, alive),
        !alive.contains(c) && live_count(c, alive) != 3 ==> !next_alive(c, alive),
{
}

/// Positions off the board never count. When every live position lies on
/// `grid`, no cell has more live neighbours than it has neighbours on the
/// grid: at most three for a corner cell, at most five for a cell on an
/// edge.
pub proof fn lemma_boundary_live_count(grid: GridView, c: (int, int), alive: Set<(int, int)>)
    requires
        grid.wf(),
        alive.subset_of(grid.positions()),
    ensures
        live_count(c, alive) <= neighbours_on_grid(grid, c),
        (c.0 == 0 || c.0 == grid.rows - 1) && (c.1 == 0 || c.1 == grid.cols - 1)
            ==> live_count(c, alive) <= 3,
        (c.0 == 0 || c.0 == grid.rows - 1) || (c.1 == 0 || c.1 == grid.cols - 1)
            ==> live_count(c, alive) <= 5,
{
    assert forall|x: int, y: int| lives_at(alive, x, y) <= on_grid(grid, x, y) by {}
}

/// The count is a cardinality: the live neighbours of `c` are as many as
/// the positions that are both around `c` and live.
pub proof fn lemma_live_count_is_cardinality(c: (int, int), alive: Set<(int, int)>)
    ensures
        neighbours(c).finite(),
        neighbours(c).len() == 8,
        live_count(c, alive) == neighbours(c).intersect(alive).len(),
{
    let s0 = Set::<(int, int)>::empty();
    let s1 = s0.insert((c.0 - 1, c.1 - 1));
    let s2 = s1.insert((c.0, c.1 - 1));
    let s3 = s2.insert((c.0 + 1, c.1 - 1));
    let s4 = s3.insert((c.0 - 1, c.1));
    let s5 = s4.insert((c.0 + 1, c.1));
    let s6 = s5.insert((c.0 - 1, c.1 + 1));
    let s7 = s6.insert((c.0, c.1 + 1));
    let s8 = s7.insert((c.0 + 1, c.1 + 1));
    assert(s0.intersect(alive) =~= s0);
    lemma_count_one_more(s0, alive, (c.0 - 1, c.1 - 1));
    lemma_count_one_more(s1, alive, (c.0, c.1 - 1));
    lemma_count_one_more(s2, alive, (c.0 + 1, c.1 - 1));
    lemma_count_one_more(s3, alive, (c.0 - 1, c.1));
    lemma_count_one_more(s4, alive, (c.0 + 1, c.1));
    lemma_count_one_more(s5, alive, (c.0 - 1, c.1 + 1));
    lemma_count_one_more(s6, alive, (c.0, c.1 + 1));
    lemma_count_one_more(s7, alive, (c.0 + 1, c.1 + 1));
    assert(neighbours(c) =~= s8);
}

/// Adding a new position to a finite set adds one to what it shares with
/// `alive` exactly when that position is live.
proof fn lemma_count_one_more(s: Set<(int, int)>, alive: Set<(int, int)>, p: (int, int))
    requires
        s.finite(),
        !s.contains(p),
    ensures
        s.insert(p).finite(),
        s.insert(p).len() == s.len() + 1,
        s.insert(p).intersect(alive).len()
            == s.intersect(alive).len() + lives_at(alive, p.0, p.1),
{
    if alive.contains(p) {
        assert(s.insert(p).intersect(alive) =~= s.intersect(alive).insert(p));
    } else {
        assert(s.insert(p).intersect(alive) =~= s.intersect(alive));
    }
}

/// The board after `n` generations.
pub open spec fn generations(grid: GridView, alive: Set<(int, int)>, n: nat) -> Set<(int, int)>
    decreases n,
{
    if n == 0 {
        alive
    } else {
        next_generation(grid, generations(grid, alive, (n - 1) as nat))
    }
}

/// The two-by-two block whose corner with the smallest coordinates is `c`.
pub open spec fn block(c: (int, int)) -> Set<(int, int)> {
    Set::new(|p: (int, int)| c.0 <= p.0 <= c.0 + 1 && c.1 <= p.1 <= c.1 + 1)
}

/// Three cells in a line along the first axis, centred at `c`.
pub open spec fn bar_along_x(c: (int, int)) -> Set<(int, int)> {
    Set::new(|p: (int, int)| c.0 - 1 <= p.0 <= c.0 + 1 && p.1 == c.1)
}

/// Three cells in a line along the second axis, centred at `c`.
pub open spec fn bar_along_y(c: (int, int)) -> Set<(int, int)> {
    Set::new(|p: (int, int)| p.0 == c.0 && c.1 - 1 <= p.1 <= c.1 + 1)
}

/// A block on the grid is a still life: it is its own next generation, and
/// so stays as it is through any number of generations.
pub proof fn lemma_block_is_still(grid: GridView, c: (int, int), n: nat)
    requires
        block(c).subset_of(grid.positions()),
    ensures
        next_generation(grid, block(c)) == block(c),
        generations(grid, block(c), n) == block(c),
    decreases n,
{
    let b = block(c);
    assert forall|p: (int, int)| next_generation(grid, b).contains(p) == b.contains(p) by {
        lemma_block_cell(c, p);
    }
    if n > 0 {
        lemma_block_is_still(grid, c, (n - 1) as nat);
    }
}

/// A bar of three with room around its centre oscillates with period two:
/// it turns by a quarter on every generation.
pub proof fn lemma_bar_oscillates(grid: GridView, c: (int, int))
    requires
        bar_along_x(c).subset_of(grid.positions()),
        bar_along_y(c).subset_of(grid.positions()),
    ensures
        next_generation(grid, bar_along_x(c)) == bar_along_y(c),
        next_generation(grid, bar_along_y(c)) == bar_along_x(c),
        generations(grid, bar_along_x(c), 2) == bar_along_x(c),
{
    let h = bar_along_x(c);
    let v = bar_along_y(c);
    assert forall|p: (int, int)| next_generation(grid, h).contains(p) == v.contains(p) by {
        lemma_bar_cell(c, p);
    }
    assert forall|p: (int, int)| next_generation(grid, v).contains(p) == h.contains(p) by {
        lemma_bar_cell(c, p);
    }
    assert(generations(grid, h, 2) == h) by {
        reveal_with_fuel(generations, 3);
    }
}

/// The rule keeps exactly the cells of a block.
#[verifier::spinoff_prover]
proof fn lemma_block_cell(c: (int, int), p: (int, int))
    ensures
        next_alive(p, block(c)) == block(c).contains(p),
{
    let b = block(c);
    assert forall|x: int, y: int| #[trigger]
        lives_at(b, x, y) == if c.0 <= x <= c.0 + 1 && c.1 <= y <= c.1 + 1 {
            1nat
        } else {
            0nat
        } by {}
}

/// The rule turns a bar along one axis into the bar along the other.
#[verifier::spinoff_prover]
proof fn lemma_bar_cell(c: (int, int), p: (int, int))
    ensures
        next_alive(p, bar_along_x(c)) == bar_along_y(c).contains(p),
        next_alive(p, bar_along_y(c)) == bar_along_x(c).contains(p),
{
    let h = bar_along_x(c);
    let v = bar_along_y(c);
    assert forall|x: int, y: int| #[trigger]
        lives_at(h, x, y) == if c.0 - 1 <= x <= c.0 + 1 && y == c.1 {
            1nat
        } else {
            0nat
        } by {}
    assert forall|x: int, y: int| #[trigger]
        lives_at(v, x, y) == if x == c.0 && c.1 - 1 <= y <= c.1 + 1 {
            1nat
        } else {
            0nat
        } by {}
}

} // verus!
