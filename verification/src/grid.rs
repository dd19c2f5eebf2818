//! The separation grid: a uniform partition of the horizontal plane into
//! square cells, each holding the actors that stand in it.
//!
//! The grid is a snapshot. It is cleared and filled again from the actors'
//! current positions before anything reads it.

use std::collections::HashMap;
use vstd::prelude::*;
use vstd::seq_lib::lemma_seq_concat_contains_all_elements;
use crate::common::Actor;
use crate::fixed::floor_div;
use crate::vector::Vec3;

verus! {

broadcast use vstd::std_specs::hash::group_hash_axioms;

/// An actor and the position it was inserted at.
#[derive(Clone, Copy, PartialEq, Eq, Structural, Debug)]
pub struct GridEntry {
    pub actor: u64,
    pub position: Vec3,
}

/// The index, along one axis, of the cell that holds `coordinate`: the
/// coordinate divided by the cell size, rounded down.
pub open spec fn cell_index_of(coordinate: int, cell_size: int) -> int {
    coordinate / cell_size
}

/// Two cell indices differ by at most one.
pub open spec fn adjacent(a: int, b: int) -> bool {
    a - 1 <= b <= a + 1
}

/// The entry that inserting an actor makes.
pub open spec fn entry_of(actor: Actor) -> GridEntry {
    GridEntry { actor: actor.id, position: actor.position }
}

/// What cell `(cx, cz)` of a grid with cells of the given size holds once
/// the actors have been inserted into the empty grid, one after another.
pub open spec fn placed(actors: Seq<Actor>, cell_size: int, cx: int, cz: int) -> Seq<GridEntry>
    decreases actors.len(),
{
    if actors.len() == 0 {
        Seq::empty()
    } else {
        let before = placed(actors.drop_last(), cell_size, cx, cz);
        let last = actors.last();
        if cell_index_of(last.position.x as int, cell_size) == cx && cell_index_of(
            last.position.z as int,
            cell_size,
        ) == cz {
            before.push(entry_of(last))
        } else {
            before
        }
    }
}

/// The key under which the bucket of cell `(cx, cz)` is stored.
spec fn bucket_key(cx: int, cz: int) -> u64 {
    ((cx + 0x8000_0000) * 0x1_0000_0000 + (cz + 0x8000_0000)) as u64
}

/// A cell index that some coordinate can have.
spec fn in_reach(c: int) -> bool {
    i32::MIN <= c <= i32::MAX
}

/// The index, along one axis, of the cell that holds `coordinate`.
pub fn cell_index(coordinate: i32, cell_size: i32) -> (index: i32)
    requires
        cell_size > 0,
    ensures
        index == cell_index_of(coordinate as int, cell_size as int),
{
    let quotient: i128 = floor_div(coordinate as i128, cell_size as i128);
    proof {
        let c = coordinate as int;
        let d = cell_size as int;
        let q = quotient as int;
        let r = c % d;
        vstd::arithmetic::div_mod::lemma_fundamental_div_mod(c, d);
        assert(i32::MIN <= q <= i32::MAX) by (nonlinear_arith)
            requires
                c == d * q + r,
                0 <= r < d,
                i32::MIN <= c <= i32::MAX,
        ;
    }
    quotient as i32
}

fn key_of(cx: i32, cz: i32) -> (key: u64)
    ensures
        key == bucket_key(cx as int, cz as int),
{
    let high: u64 = (cx as i64 + 0x8000_0000) as u64;
    let low: u64 = (cz as i64 + 0x8000_0000) as u64;
    high * 0x1_0000_0000 + low
}

proof fn lemma_key_injective(ax: int, az: int, bx: int, bz: int)
    requires
        in_reach(ax),
        in_reach(az),
        in_reach(bx),
        in_reach(bz),
        bucket_key(ax, az) == bucket_key(bx, bz),
    ensures
        ax == bx,
        az == bz,
{
}

/// The uniform grid that separation steering looks its neighbours up in.
pub struct SeparationGrid {
    cell_size: i32,
    buckets: HashMap<u64, Vec<GridEntry>>,
}

impl SeparationGrid {
    /// The side of a cell.
    pub closed spec fn cell_size(&self) -> int {
        self.cell_size as int
    }

    /// What was inserted into cell `(cx, cz)` since the grid was last
    /// cleared, in the order of insertion.
    pub closed spec fn bucket(&self, cx: int, cz: int) -> Seq<GridEntry> {
        if in_reach(cx) && in_reach(cz) && self.buckets@.contains_key(bucket_key(cx, cz)) {
            self.buckets@[bucket_key(cx, cz)]@
        } else {
            Seq::empty()
        }
    }

    /// The cell size is positive and every entry lies in the bucket of the
    /// cell that holds its position.
    pub closed spec fn wf(&self) -> bool {
        &&& self.cell_size > 0
        &&& forall|cx: int, cz: int, i: int|
            0 <= i < self.bucket(cx, cz).len() ==> {
                let entry = #[trigger] self.bucket(cx, cz)[i];
                &&& self.cell_x(entry.position) == cx
                &&& self.cell_z(entry.position) == cz
            }
    }

    /// The index of the column of cells that holds `position`.
    pub open spec fn cell_x(&self, position: Vec3) -> int {
        cell_index_of(position.x as int, self.cell_size())
    }

    /// The index of the row of cells that holds `position`.
    pub open spec fn cell_z(&self, position: Vec3) -> int {
        cell_index_of(position.z as int, self.cell_size())
    }

    /// `entry` is in the grid, in the bucket of its own cell.
    pub open spec fn holds(&self, entry: GridEntry) -> bool {
        self.bucket(self.cell_x(entry.position), self.cell_z(entry.position)).contains(entry)
    }

    /// The three buckets of column `cx` around row `cz`, one after another.
    pub open spec fn column(&self, cx: int, cz: int) -> Seq<GridEntry> {
        self.bucket(cx, cz - 1) + self.bucket(cx, cz) + self.bucket(cx, cz + 1)
    }

    /// The nine buckets of the block of cells centred on `(cx, cz)`, one
    /// after another: column by column with `x` growing, and in each column
    /// with `z` growing.
    pub open spec fn block(&self, cx: int, cz: int) -> Seq<GridEntry> {
        self.column(cx - 1, cz) + self.column(cx, cz) + self.column(cx + 1, cz)
    }

    /// What a query at `position` returns: the block centred on its cell.
    pub open spec fn neighborhood(&self, position: Vec3) -> Seq<GridEntry> {
        self.block(self.cell_x(position), self.cell_z(position))
    }

    /// An empty grid. A cell size below one thousandth is taken as one
    /// thousandth.
    pub fn new(cell_size: i32) -> (grid: SeparationGrid)
        ensures
            grid.wf(),
            grid.cell_size() == if cell_size < 1 {
                1
            } else {
                cell_size as int
            },
            forall|cx: int, cz: int| #[trigger] grid.bucket(cx, cz) == Seq::<GridEntry>::empty(),
    {
        let size: i32 = if cell_size < 1 {
            1
        } else {
            cell_size
        };
        SeparationGrid { cell_size: size, buckets: HashMap::new() }
    }

    /// An empty grid for a separation radius: its cells are one and a half
    /// radii wide.
    pub fn for_radius(radius: i32) -> (grid: SeparationGrid)
        ensures
            grid.wf(),
            grid.cell_size() == if radius * 3 / 2 < 1 {
                1
            } else if radius * 3 / 2 > i32::MAX {
                i32::MAX as int
            } else {
                radius * 3 / 2
            },
            forall|cx: int, cz: int| #[trigger] grid.bucket(cx, cz) == Seq::<GridEntry>::empty(),
    {
        let size: i32 = if radius < 1 {
            1
        } else {
            let wide: i64 = radius as i64 * 3 / 2;
            if wide < 1 {
                1
            } else if wide > i32::MAX as i64 {
                i32::MAX
            } else {
                wide as i32
            }
        };
        SeparationGrid::new(size)
    }

    /// The side of a cell.
    pub fn cell_side(&self) -> (side: i32)
        requires
            self.wf(),
        ensures
            side == self.cell_size(),
            side > 0,
    {
        self.cell_size
    }

    /// Empties every bucket.
    pub fn clear(&mut self)
        requires
            old(self).wf(),
        ensures
            final(self).wf(),
            final(self).cell_size() == old(self).cell_size(),
            forall|cx: int, cz: int| #[trigger]
                final(self).bucket(cx, cz) == Seq::<GridEntry>::empty(),
    {
        self.buckets.clear();
    }

    /// Appends the actor to the bucket of the cell that holds `position`.
    /// What the grid held before, it still holds.
    pub fn insert(&mut self, actor: u64, position: Vec3)
        requires
            old(self).wf(),
        ensures
            final(self).wf(),
            final(self).cell_size() == old(self).cell_size(),
            forall|cx: int, cz: int| #[trigger]
                final(self).bucket(cx, cz) == if cx == old(self).cell_x(position) && cz == old(
                    self,
                ).cell_z(position) {
                    old(self).bucket(cx, cz).push(GridEntry { actor, position })
                } else {
                    old(self).bucket(cx, cz)
                },
            final(self).holds(GridEntry { actor, position }),
            forall|held: GridEntry| old(self).holds(held) ==> #[trigger] final(self).holds(held),
    {
        let cx: i32 = cell_index(position.x, self.cell_size);
        let cz: i32 = cell_index(position.z, self.cell_size);
        let key: u64 = key_of(cx, cz);
        let entry = GridEntry { actor, position };
        let mut bucket: Vec<GridEntry> = match self.buckets.remove(&key) {
            Some(existing) => existing,
            None => Vec::new(),
        };
        assert(bucket@ == old(self).bucket(cx as int, cz as int));
        bucket.push(entry);
        self.buckets.insert(key, bucket);
        proof {
            assert forall|ox: int, oz: int| #[trigger]
                self.bucket(ox, oz) == if ox == cx && oz == cz {
                    old(self).bucket(ox, oz).push(entry)
                } else {
                    old(self).bucket(ox, oz)
                } by {
                if in_reach(ox) && in_reach(oz) {
                    if bucket_key(ox, oz) == key {
                        lemma_key_injective(ox, oz, cx as int, cz as int);
                    }
                }
            }
            let here = self.bucket(cx as int, cz as int);
            assert(here[here.len() - 1] == entry);
            assert forall|held: GridEntry| old(self).holds(held) implies #[trigger] self.holds(
                held,
            ) by {
                let hx = old(self).cell_x(held.position);
                let hz = old(self).cell_z(held.position);
                let at = choose|at: int|
                    0 <= at < old(self).bucket(hx, hz).len() && old(self).bucket(hx, hz)[at]
                        == held;
                assert(self.bucket(hx, hz)[at] == held);
            }
        }
    }

    /// Makes the grid the snapshot of `actors`: empties it and inserts every
    /// actor at its position, in the order given. Nothing of what the grid
    /// held before is left.
    pub fn rebuild(&mut self, actors: &Vec<Actor>)
        requires
            old(self).wf(),
        ensures
            final(self).wf(),
            final(self).cell_size() == old(self).cell_size(),
            forall|cx: int, cz: int| #[trigger]
                final(self).bucket(cx, cz) == placed(actors@, old(self).cell_size(), cx, cz),
            forall|i: int|
                0 <= i < actors.len() ==> final(self).holds(entry_of(#[trigger] actors[i])),
    {
        self.clear();
        let mut k: usize = 0;
        while k < actors.len()
            invariant
                0 <= k <= actors.len(),
                self.wf(),
                self.cell_size() == old(self).cell_size(),
                forall|cx: int, cz: int| #[trigger]
                    self.bucket(cx, cz) == placed(
                        actors@.subrange(0, k as int),
                        old(self).cell_size(),
                        cx,
                        cz,
                    ),
                forall|i: int| 0 <= i < k ==> self.holds(entry_of(#[trigger] actors[i])),
            decreases actors.len() - k,
        {
            let actor: Actor = actors[k];
            self.insert(actor.id, actor.position);
            proof {
                assert(actors@.subrange(0, k + 1).drop_last() =~= actors@.subrange(0, k as int));
                assert(actors@.subrange(0, k + 1).last() == actor);
            }
            k += 1;
        }
        assert(actors@.subrange(0, k as int) =~= actors@);
    }

    /// Appends the bucket of cell `(cx, cz)` to `found`.
    fn collect_bucket(&self, cx: i64, cz: i64, found: &mut Vec<GridEntry>)
        ensures
            final(found)@ == old(found)@ + self.bucket(cx as int, cz as int),
    {
        if cx < i32::MIN as i64 || cx > i32::MAX as i64 || cz < i32::MIN as i64 || cz
            > i32::MAX as i64 {
            assert(found@ =~= old(found)@ + self.bucket(cx as int, cz as int));
            return ;
        }
        let key: u64 = key_of(cx as i32, cz as i32);
        match self.buckets.get(&key) {
            Some(bucket) => {
                let mut i: usize = 0;
                while i < bucket.len()
                    invariant
                        0 <= i <= bucket.len(),
                        found@ == old(found)@ + bucket@.subrange(0, i as int),
                    decreases bucket.len() - i,
                {
                    found.push(bucket[i]);
                    assert(bucket@.subrange(0, i + 1) =~= bucket@.subrange(0, i as int).push(
                        bucket@[i as int],
                    ));
                    assert(found@ =~= old(found)@ + bucket@.subrange(0, i + 1));
                    i += 1;
                }
                assert(bucket@.subrange(0, i as int) =~= bucket@);
            },
            None => {
                assert(found@ =~= old(found)@ + self.bucket(cx as int, cz as int));
            },
        }
    }

    /// Appends the three buckets of column `cx` around row `cz` to `found`.
    fn collect_column(&self, cx: i64, cz: i32, found: &mut Vec<GridEntry>)
        ensures
            final(found)@ == old(found)@ + self.column(cx as int, cz as int),
    {
        self.collect_bucket(cx, cz as i64 - 1, found);
        self.collect_bucket(cx, cz as i64, found);
        self.collect_bucket(cx, cz as i64 + 1, found);
        assert(found@ =~= old(found)@ + self.column(cx as int, cz as int));
    }

    /// Every entry of the block of nine cells centred on the cell of
    /// `position`, bucket by bucket and in each bucket in the order of
    /// insertion. Nothing is left out and nothing is merged: an actor that
    /// asks for its own neighbours finds itself among them.
    pub fn neighbors(&self, position: Vec3) -> (found: Vec<GridEntry>)
        requires
            self.wf(),
        ensures
            found@ == self.neighborhood(position),
    {
        let cx: i32 = cell_index(position.x, self.cell_size);
        let cz: i32 = cell_index(position.z, self.cell_size);
        let mut found: Vec<GridEntry> = Vec::new();
        self.collect_column(cx as i64 - 1, cz, &mut found);
        self.collect_column(cx as i64, cz, &mut found);
        self.collect_column(cx as i64 + 1, cz, &mut found);
        assert(found@ =~= self.neighborhood(position));
        found
    }
}

/// An entry is in a column exactly when it is in one of its three buckets.
proof fn lemma_column_contains(grid: SeparationGrid, cx: int, cz: int, entry: GridEntry)
    ensures
        grid.column(cx, cz).contains(entry) <==> grid.bucket(cx, cz - 1).contains(entry)
            || grid.bucket(cx, cz).contains(entry) || grid.bucket(cx, cz + 1).contains(entry),
{
    lemma_seq_concat_contains_all_elements(grid.bucket(cx, cz - 1), grid.bucket(cx, cz), entry);
    lemma_seq_concat_contains_all_elements(
        grid.bucket(cx, cz - 1) + grid.bucket(cx, cz),
        grid.bucket(cx, cz + 1),
        entry,
    );
}

/// An entry is in a block exactly when it is in one of its three columns.
proof fn lemma_block_contains(grid: SeparationGrid, cx: int, cz: int, entry: GridEntry)
    ensures
        grid.block(cx, cz).contains(entry) <==> grid.column(cx - 1, cz).contains(entry)
            || grid.column(cx, cz).contains(entry) || grid.column(cx + 1, cz).contains(entry),
{
    lemma_seq_concat_contains_all_elements(grid.column(cx - 1, cz), grid.column(cx, cz), entry);
    lemma_seq_concat_contains_all_elements(
        grid.column(cx - 1, cz) + grid.column(cx, cz),
        grid.column(cx + 1, cz),
        entry,
    );
}

/// A query returns an entry exactly when the grid holds the entry and the
/// entry's cell is the query's cell or one of the eight around it. So an
/// actor is found from its own cell and from every cell next to it, and from
/// no cell farther away.
pub proof fn lemma_neighbors_are_the_adjacent(
    grid: SeparationGrid,
    entry: GridEntry,
    query: Vec3,
)
    requires
        grid.wf(),
    ensures
        grid.neighborhood(query).contains(entry) <==> grid.holds(entry) && adjacent(
            grid.cell_x(query),
            grid.cell_x(entry.position),
        ) && adjacent(grid.cell_z(query), grid.cell_z(entry.position)),
{
    let qx = grid.cell_x(query);
    let qz = grid.cell_z(query);
    lemma_block_contains(grid, qx, qz, entry);
    lemma_column_contains(grid, qx - 1, qz, entry);
    lemma_column_contains(grid, qx, qz, entry);
    lemma_column_contains(grid, qx + 1, qz, entry);
    assert forall|cx: int, cz: int| #[trigger]
        grid.bucket(cx, cz).contains(entry) implies grid.cell_x(entry.position) == cx
        && grid.cell_z(entry.position) == cz by {
        let i = choose|i: int| 0 <= i < grid.bucket(cx, cz).len() && grid.bucket(cx, cz)[i] == entry;
        assert(grid.bucket(cx, cz)[i] == entry);
    }
}

} // verus!
