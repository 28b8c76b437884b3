//! The scheduler's per-tick cache: one cost matrix and one statistics
//! snapshot per zone, both filled lazily on first use and dropped together
//! at the start of every tick.
//!
//! The cache's validity invariant ties every filled entry to the pure
//! function of the zone it stands for, so all reads within one tick see the
//! same value and a rebuild can never disagree with a cached entry.

use vstd::prelude::*;
use vstd::pervasive::VecAdditionalExecFns;

use crate::cost::{calc_room_cost, spec_cost_matrix, CostMatrix};
use crate::model::World;
use crate::stats::{calc_average, spec_zone_stats, ZoneStats};

verus! {

/// Per-zone cache entries for the current tick, indexed like the world's
/// zone list.
pub struct WorldCache {
    pub matrices: Vec<Option<CostMatrix>>,
    pub stats: Vec<Option<ZoneStats>>,
}

impl WorldCache {
    /// Every filled entry equals the pure function of its zone.
    pub open spec fn valid_for(self, w: World) -> bool {
        &&& self.matrices@.len() == w.zones@.len()
        &&& self.stats@.len() == w.zones@.len()
        &&& forall|i: int|
            0 <= i < self.matrices@.len() ==> match #[trigger] self.matrices@[i] {
                Some(m) => m.wf() && m.cells@ == spec_cost_matrix(w.zones@[i]),
                None => true,
            }
        &&& forall|i: int|
            0 <= i < self.stats@.len() ==> match #[trigger] self.stats@[i] {
                Some(s) => s == spec_zone_stats(w.zones@[i]),
                None => true,
            }
    }

    /// Nothing is cached.
    pub open spec fn all_clear(self) -> bool {
        &&& forall|i: int| 0 <= i < self.matrices@.len() ==> (#[trigger] self.matrices@[i]) is None
        &&& forall|i: int| 0 <= i < self.stats@.len() ==> (#[trigger] self.stats@[i]) is None
    }

    /// An empty cache sized for a world of `zone_count` zones.
    pub fn new(zone_count: usize) -> (r: WorldCache)
        ensures
            r.matrices@.len() == zone_count,
            r.stats@.len() == zone_count,
            r.all_clear(),
    {
        let mut matrices: Vec<Option<CostMatrix>> = Vec::new();
        let mut stats: Vec<Option<ZoneStats>> = Vec::new();
        let mut i: usize = 0;
        while i < zone_count
            invariant
                i <= zone_count,
                matrices@.len() == i,
                stats@.len() == i,
                forall|j: int| 0 <= j < i ==> (#[trigger] matrices@[j]) is None,
                forall|j: int| 0 <= j < i ==> (#[trigger] stats@[j]) is None,
            decreases zone_count - i,
        {
            matrices.push(None);
            stats.push(None);
            i = i + 1;
        }
        WorldCache { matrices, stats }
    }
}

/// Drop every cache entry; the tick-start hook calls this exactly once, so
/// all later reads in the tick rebuild from the fresh world snapshot.
pub fn clear_init_flag(cache: &mut WorldCache)
    ensures
        final(cache).matrices@.len() == old(cache).matrices@.len(),
        final(cache).stats@.len() == old(cache).stats@.len(),
        final(cache).all_clear(),
{
    let mut i: usize = 0;
    while i < cache.matrices.len()
        invariant
            i <= cache.matrices@.len(),
            cache.matrices@.len() == old(cache).matrices@.len(),
            cache.stats@.len() == old(cache).stats@.len(),
            forall|j: int| 0 <= j < i ==> (#[trigger] cache.matrices@[j]) is None,
        decreases cache.matrices@.len() - i,
    {
        cache.matrices.set(i, None);
        i = i + 1;
    }
    let mut i: usize = 0;
    while i < cache.stats.len()
        invariant
            i <= cache.stats@.len(),
            cache.matrices@.len() == old(cache).matrices@.len(),
            cache.stats@.len() == old(cache).stats@.len(),
            forall|j: int| 0 <= j < cache.matrices@.len() ==> (#[trigger] cache.matrices@[j])
                is None,
            forall|j: int| 0 <= j < i ==> (#[trigger] cache.stats@[j]) is None,
        decreases cache.stats@.len() - i,
    {
        cache.stats.set(i, None);
        i = i + 1;
    }
}

/// A cleared cache is valid for its world: validity says nothing about
/// empty entries, so the tick-start clearing keeps the invariant.
pub proof fn lemma_clear_keeps_validity(cache: WorldCache, w: World)
    requires
        cache.matrices@.len() == w.zones@.len(),
        cache.stats@.len() == w.zones@.len(),
        cache.all_clear(),
    ensures
        cache.valid_for(w),
{
}

/// Fill the cost-matrix slot of one zone if it is still empty.  Afterwards
/// the slot holds exactly the matrix of the zone snapshot; an entry cached
/// earlier in the tick is left untouched, which by validity is the same
/// matrix.
pub fn ensure_cost_matrix(cache: &mut WorldCache, world: &World, zi: usize)
    requires
        world.wf(),
        old(cache).valid_for(*world),
        zi < world.zones@.len(),
    ensures
        final(cache).valid_for(*world),
        final(cache).matrices@[zi as int] matches Some(m) && m.wf() && m.cells@
            == spec_cost_matrix(world.zones@[zi as int]),
        forall|j: int|
            0 <= j < final(cache).matrices@.len() && j != zi ==> final(cache).matrices@[j] == old(
                cache,
            ).matrices@[j],
        final(cache).stats@ == old(cache).stats@,
{
    if cache.matrices[zi].is_none() {
        let m = calc_room_cost(&world.zones[zi]);
        cache.matrices.set(zi, Some(m));
    }
}

/// Fill the statistics slot of one zone if it is still empty; the same
/// once-per-tick contract as the cost matrix slot.
pub fn ensure_zone_stats(cache: &mut WorldCache, world: &World, zi: usize)
    requires
        world.wf(),
        old(cache).valid_for(*world),
        zi < world.zones@.len(),
        world.zones@[zi as int].structures@.len() < 0x1_0000_0000,
        world.zones@[zi as int].sites@.len() < 0x1_0000_0000,
    ensures
        final(cache).valid_for(*world),
        final(cache).stats@[zi as int] == Some(spec_zone_stats(world.zones@[zi as int])),
        forall|j: int|
            0 <= j < final(cache).stats@.len() && j != zi ==> final(cache).stats@[j] == old(
                cache,
            ).stats@[j],
        final(cache).matrices@ == old(cache).matrices@,
{
    if cache.stats[zi].is_none() {
        let s = calc_average(&world.zones[zi]);
        cache.stats.set(zi, Some(s));
    }
}

/// Mean and minimum hit points among the structures that count as damaged,
/// from the per-tick cache; zeros when the zone is not observable.
pub fn get_hp_average(cache: &mut WorldCache, world: &World, zone_id: u16) -> (r: (u128, u128))
    requires
        world.wf(),
        old(cache).valid_for(*world),
        forall|i: int|
            0 <= i < world.zones@.len() ==> (#[trigger] world.zones@[i]).structures@.len()
                < 0x1_0000_0000 && world.zones@[i].sites@.len() < 0x1_0000_0000,
    ensures
        final(cache).valid_for(*world),
        final(cache).matrices@ == old(cache).matrices@,
        match crate::model::spec_zone_lookup(*world, zone_id) {
            Some(i) => r == (spec_zone_stats(world.zones@[i]).hp_avg, spec_zone_stats(
                world.zones@[i],
            ).hp_min),
            None => r == (0u128, 0u128),
        },
{
    let zi = crate::model::zone_index_of(world, zone_id);
    match zi {
        Some(i) => {
            proof {
                crate::model::lemma_zone_lookup_agrees(*world, zone_id, i as int);
            }
            ensure_zone_stats(cache, world, i);
            match &cache.stats[i] {
                Some(s) => (s.hp_avg, s.hp_min),
                None => (0, 0),
            }
        }
        None => {
            proof {
                crate::model::lemma_zone_lookup_none(*world, zone_id);
            }
            (0, 0)
        }
    }
}

/// Mean and minimum work left among this population's build sites, from the
/// per-tick cache; zeros when the zone is not observable.
pub fn get_construction_progress_average(cache: &mut WorldCache, world: &World, zone_id: u16) -> (r:
    (u128, u128))
    requires
        world.wf(),
        old(cache).valid_for(*world),
        forall|i: int|
            0 <= i < world.zones@.len() ==> (#[trigger] world.zones@[i]).structures@.len()
                < 0x1_0000_0000 && world.zones@[i].sites@.len() < 0x1_0000_0000,
    ensures
        final(cache).valid_for(*world),
        final(cache).matrices@ == old(cache).matrices@,
        match crate::model::spec_zone_lookup(*world, zone_id) {
            Some(i) => r == (spec_zone_stats(world.zones@[i]).build_avg, spec_zone_stats(
                world.zones@[i],
            ).build_min),
            None => r == (0u128, 0u128),
        },
{
    let zi = crate::model::zone_index_of(world, zone_id);
    match zi {
        Some(i) => {
            proof {
                crate::model::lemma_zone_lookup_agrees(*world, zone_id, i as int);
            }
            ensure_zone_stats(cache, world, i);
            match &cache.stats[i] {
                Some(s) => (s.build_avg, s.build_min),
                None => (0, 0),
            }
        }
        None => {
            proof {
                crate::model::lemma_zone_lookup_none(*world, zone_id);
            }
            (0, 0)
        }
    }
}

} // verus!
