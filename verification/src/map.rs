//! The tile collision map: a sparse, queryable grid of solid and trigger
//! tile flags, rebuilt wholesale on level (re)load and read-only for the
//! movement and trigger systems during a tick.
//!
//! Grid coordinates are pairs of `i32`; each pair is packed into one `u64`
//! hash key, so lookups stay O(1) amortized while the specifications speak
//! of the coordinates themselves.

use vstd::prelude::*;
use std::collections::HashMap;
use std::collections::HashSet;

use crate::units::ORIGIN_LIMIT;
use crate::units::TS_MAX;
use crate::units::TS_MIN;

verus! {

broadcast use vstd::std_specs::hash::group_hash_axioms;

/// One cell of external level data: grid coordinates plus the raw semantic
/// value of the tile (0 = empty, 1 = solid, 2 = trigger, others reserved).
#[derive(Clone, Copy, PartialEq, Eq, Structural, Debug)]
pub struct TileEntry {
    pub x: i32,
    pub y: i32,
    pub value: i32,
}

/// Packs a grid coordinate pair into a single hash key: the two 32-bit
/// halves side by side, each in its unsigned form.
pub closed spec fn key_of(x: i32, y: i32) -> u64 {
    ((x as u32 as u64) * 0x1_0000_0000 + (y as u32 as u64)) as u64
}

/// Distinct coordinate pairs pack to distinct keys.
pub proof fn lemma_key_of_injective(x1: i32, y1: i32, x2: i32, y2: i32)
    requires
        key_of(x1, y1) == key_of(x2, y2),
    ensures
        x1 == x2 && y1 == y2,
{
    let a1 = x1 as u32 as u64;
    let b1 = y1 as u32 as u64;
    let a2 = x2 as u32 as u64;
    let b2 = y2 as u32 as u64;
    assert(a1 == a2 && b1 == b2) by (nonlinear_arith)
        requires
            a1 * 0x1_0000_0000 + b1 == a2 * 0x1_0000_0000 + b2,
            a1 < 0x1_0000_0000,
            a2 < 0x1_0000_0000,
            b1 < 0x1_0000_0000,
            b2 < 0x1_0000_0000,
    ;
    assert(x1 as u32 == x2 as u32 && x1 == x2) by (bit_vector)
        requires
            x1 as u32 as u64 == x2 as u32 as u64,
    ;
    assert(y1 as u32 == y2 as u32 && y1 == y2) by (bit_vector)
        requires
            y1 as u32 as u64 == y2 as u32 as u64,
    ;
}

/// Runtime collision data: tile dimensions, world origin of cell (0, 0),
/// the set of solid cells, and the raw per-tile values.
pub struct CollisionMap {
    /// Width of one grid cell, in subunits.
    pub tile_size_x: i64,
    /// Height of one grid cell, in subunits.
    pub tile_size_y: i64,
    /// World x of cell (0, 0)'s lower-left corner, in subunits.
    pub origin_x: i64,
    /// World y of cell (0, 0)'s lower-left corner, in subunits.
    pub origin_y: i64,
    /// The packed keys of the solid cells.
    pub solids: HashSet<u64>,
    /// Raw semantic value per packed cell key.
    pub tile_values: HashMap<u64, i32>,
}

impl CollisionMap {
    /// Whether the grid coordinate is flagged impassable.
    pub closed spec fn spec_is_solid(self, x: i32, y: i32) -> bool {
        self.solids@.contains(key_of(x, y))
    }

    /// The raw semantic value stored for the grid coordinate, if any.
    pub closed spec fn spec_tile_value(self, x: i32, y: i32) -> Option<i32> {
        if self.tile_values@.contains_key(key_of(x, y)) {
            Some(self.tile_values@[key_of(x, y)])
        } else {
            None
        }
    }

    /// Well-formedness: tile dimensions and origin are in range, and every
    /// solid cell carries the raw value 1.
    pub open spec fn wf(self) -> bool {
        &&& TS_MIN <= self.tile_size_x <= TS_MAX
        &&& TS_MIN <= self.tile_size_y <= TS_MAX
        &&& -ORIGIN_LIMIT <= self.origin_x <= ORIGIN_LIMIT
        &&& -ORIGIN_LIMIT <= self.origin_y <= ORIGIN_LIMIT
        &&& forall|k: u64|
            self.solids@.contains(k) ==> self.tile_values@.contains_key(k)
                && self.tile_values@[k] == 1
    }

    /// An empty map for the given grid geometry.
    pub fn new(tile_size_x: i64, tile_size_y: i64, origin_x: i64, origin_y: i64) -> (m:
        CollisionMap)
        requires
            TS_MIN <= tile_size_x <= TS_MAX,
            TS_MIN <= tile_size_y <= TS_MAX,
            -ORIGIN_LIMIT <= origin_x <= ORIGIN_LIMIT,
            -ORIGIN_LIMIT <= origin_y <= ORIGIN_LIMIT,
        ensures
            m.wf(),
            m.tile_size_x == tile_size_x,
            m.tile_size_y == tile_size_y,
            m.origin_x == origin_x,
            m.origin_y == origin_y,
            forall|x: i32, y: i32| !m.spec_is_solid(x, y),
            forall|x: i32, y: i32| m.spec_tile_value(x, y) is None,
    {
        CollisionMap {
            tile_size_x,
            tile_size_y,
            origin_x,
            origin_y,
            solids: HashSet::new(),
            tile_values: HashMap::new(),
        }
    }

    /// Empties both collections. The backing capacity is retained for the
    /// next rebuild, avoiding reallocation churn on every level load.
    pub fn clear(&mut self)
        ensures
            final(self).tile_size_x == old(self).tile_size_x,
            final(self).tile_size_y == old(self).tile_size_y,
            final(self).origin_x == old(self).origin_x,
            final(self).origin_y == old(self).origin_y,
            forall|x: i32, y: i32| !final(self).spec_is_solid(x, y),
            forall|x: i32, y: i32| final(self).spec_tile_value(x, y) is None,
            old(self).wf() ==> final(self).wf(),
    {
        self.solids.clear();
        self.tile_values.clear();
    }

    /// Whether the given tile coordinate is flagged as solid.
    pub fn is_solid(&self, x: i32, y: i32) -> (r: bool)
        ensures
            r == self.spec_is_solid(x, y),
    {
        let k: u64 = (x as u32 as u64) * 0x1_0000_0000 + (y as u32 as u64);
        self.solids.contains(&k)
    }

    /// The raw value at the given tile coordinate, or `None` if no tile was
    /// recorded there.
    pub fn get_tile_value(&self, x: i32, y: i32) -> (r: Option<i32>)
        ensures
            r == self.spec_tile_value(x, y),
    {
        let k: u64 = (x as u32 as u64) * 0x1_0000_0000 + (y as u32 as u64);
        match self.tile_values.get(&k) {
            Some(v) => Some(*v),
            None => None,
        }
    }

    /// Records one cell of level data: a positive value is stored, value 1
    /// additionally flags the cell solid, and a non-positive value leaves
    /// the map unchanged (empty cells are simply absent).
    pub fn set_tile(&mut self, x: i32, y: i32, value: i32)
        ensures
            final(self).tile_size_x == old(self).tile_size_x,
            final(self).tile_size_y == old(self).tile_size_y,
            final(self).origin_x == old(self).origin_x,
            final(self).origin_y == old(self).origin_y,
            final(self).spec_tile_value(x, y) == if value > 0 {
                Some(value)
            } else {
                old(self).spec_tile_value(x, y)
            },
            final(self).spec_is_solid(x, y) == if value > 0 {
                value == 1
            } else {
                old(self).spec_is_solid(x, y)
            },
            forall|a: i32, b: i32|
                (a, b) != (x, y) ==> final(self).spec_tile_value(a, b) == old(
                    self,
                ).spec_tile_value(a, b),
            forall|a: i32, b: i32|
                (a, b) != (x, y) ==> final(self).spec_is_solid(a, b) == old(self).spec_is_solid(
                    a,
                    b,
                ),
            old(self).wf() ==> final(self).wf(),
    {
        proof {
            assert forall|a: i32, b: i32| (a, b) != (x, y) implies key_of(a, b) != key_of(
                x,
                y,
            ) by {
                if key_of(a, b) == key_of(x, y) {
                    lemma_key_of_injective(a, b, x, y);
                }
            }
        }
        if value > 0 {
            let k: u64 = (x as u32 as u64) * 0x1_0000_0000 + (y as u32 as u64);
            self.tile_values.insert(k, value);
            if value == 1 {
                self.solids.insert(k);
            } else {
                self.solids.remove(&k);
            }
        }
    }

    /// Regenerates the map from a fresh level dump: new grid geometry, all
    /// previous contents dropped, and every entry of `entries` recorded in
    /// order.
    pub fn rebuild(
        &mut self,
        tile_size_x: i64,
        tile_size_y: i64,
        origin_x: i64,
        origin_y: i64,
        entries: &Vec<TileEntry>,
    )
        requires
            TS_MIN <= tile_size_x <= TS_MAX,
            TS_MIN <= tile_size_y <= TS_MAX,
            -ORIGIN_LIMIT <= origin_x <= ORIGIN_LIMIT,
            -ORIGIN_LIMIT <= origin_y <= ORIGIN_LIMIT,
        ensures
            final(self).wf(),
            final(self).tile_size_x == tile_size_x,
            final(self).tile_size_y == tile_size_y,
            final(self).origin_x == origin_x,
            final(self).origin_y == origin_y,
            forall|x: i32, y: i32|
                final(self).spec_tile_value(x, y) == built_value(entries@, x, y),
            forall|x: i32, y: i32|
                final(self).spec_is_solid(x, y) == (built_value(entries@, x, y) == Some(1i32)),
    {
        self.tile_size_x = tile_size_x;
        self.tile_size_y = tile_size_y;
        self.origin_x = origin_x;
        self.origin_y = origin_y;
        self.solids.clear();
        self.tile_values.clear();
        let ghost all = entries@;
        for i in 0..entries.len()
            invariant
                self.tile_size_x == tile_size_x,
                self.tile_size_y == tile_size_y,
                self.origin_x == origin_x,
                self.origin_y == origin_y,
                self.wf(),
                forall|x: i32, y: i32|
                    self.spec_tile_value(x, y) == built_value(all.take(i as int), x, y),
                forall|x: i32, y: i32|
                    self.spec_is_solid(x, y) == (built_value(all.take(i as int), x, y) == Some(
                        1i32,
                    )),
                all == entries@,
        {
            let e = entries[i];
            proof {
                assert(all.take(i + 1).drop_last() =~= all.take(i as int));
                assert(all.take(i + 1).last() == all[i as int]);
            }
            self.set_tile(e.x, e.y, e.value);
        }
        proof {
            assert(all.take(all.len() as int) =~= all);
        }
    }
}

/// The value the rebuild loop leaves at a coordinate: the last positive
/// entry for that coordinate wins; entries with non-positive values and
/// entries for other coordinates leave it alone.
pub open spec fn built_value(s: Seq<TileEntry>, x: i32, y: i32) -> Option<i32>
    decreases s.len(),
{
    if s.len() == 0 {
        None
    } else {
        let e = s.last();
        if e.x == x && e.y == y && e.value > 0 {
            Some(e.value)
        } else {
            built_value(s.drop_last(), x, y)
        }
    }
}

/// A proper level dump mentions each grid coordinate at most once.
pub open spec fn unique_coords(s: Seq<TileEntry>) -> bool {
    forall|i: int, j: int|
        0 <= i < j < s.len() ==> ((#[trigger] s[i]).x, s[i].y) != ((#[trigger] s[j]).x, s[j].y)
}

/// Whatever the rebuild leaves at a coordinate came from some entry of
/// the dump.
pub proof fn lemma_built_value_from_entry(s: Seq<TileEntry>, x: i32, y: i32)
    ensures
        built_value(s, x, y) is Some ==> s.contains(
            TileEntry { x, y, value: built_value(s, x, y).unwrap() },
        ) && built_value(s, x, y).unwrap() > 0,
    decreases s.len(),
{
    if s.len() > 0 {
        let e = s.last();
        if e.x == x && e.y == y && e.value > 0 {
            assert(s[s.len() - 1] == TileEntry { x, y, value: e.value });
        } else {
            lemma_built_value_from_entry(s.drop_last(), x, y);
            if built_value(s, x, y) is Some {
                let w = TileEntry { x, y, value: built_value(s, x, y).unwrap() };
                let i = choose|i: int| 0 <= i < s.drop_last().len() && s.drop_last()[i] == w;
                assert(s[i] == w);
            }
        }
    }
}

/// In a dump without repeated coordinates, a positive entry decides its
/// coordinate's value.
pub proof fn lemma_built_value_of_entry(s: Seq<TileEntry>, e: TileEntry)
    requires
        unique_coords(s),
        s.contains(e),
        e.value > 0,
    ensures
        built_value(s, e.x, e.y) == Some(e.value),
    decreases s.len(),
{
    let i = choose|i: int| 0 <= i < s.len() && s[i] == e;
    let last = s.last();
    if last.x == e.x && last.y == e.y {
        assert(i == s.len() - 1);
    } else {
        assert(i < s.len() - 1);
        assert(s.drop_last()[i] == e);
        assert(s.drop_last().contains(e));
        assert(unique_coords(s.drop_last())) by {
            assert forall|a: int, b: int|
                0 <= a < b < s.drop_last().len() implies ((#[trigger] s.drop_last()[a]).x,
            s.drop_last()[a].y) != ((#[trigger] s.drop_last()[b]).x, s.drop_last()[b].y) by {
                assert(s.drop_last()[a] == s[a] && s.drop_last()[b] == s[b]);
            }
        }
        lemma_built_value_of_entry(s.drop_last(), e);
    }
}

/// Rebuilding from the same set of entries gives the same map, whatever
/// the order of the dump: the clear-and-repopulate round trip leaves
/// every `is_solid` and `tile_value` answer unchanged.
pub proof fn lemma_rebuild_order_independent(e1: Seq<TileEntry>, e2: Seq<TileEntry>)
    requires
        unique_coords(e1),
        unique_coords(e2),
        forall|e: TileEntry| e1.contains(e) <==> #[trigger] e2.contains(e),
    ensures
        forall|x: i32, y: i32| #[trigger] built_value(e1, x, y) == built_value(e2, x, y),
{
    assert forall|x: i32, y: i32| #[trigger] built_value(e1, x, y) == built_value(e2, x, y) by {
        lemma_built_value_from_entry(e1, x, y);
        lemma_built_value_from_entry(e2, x, y);
        if built_value(e1, x, y) is Some {
            let w = TileEntry { x, y, value: built_value(e1, x, y).unwrap() };
            lemma_built_value_of_entry(e2, w);
        } else if built_value(e2, x, y) is Some {
            let w = TileEntry { x, y, value: built_value(e2, x, y).unwrap() };
            lemma_built_value_of_entry(e1, w);
        }
    }
}

} // verus!
