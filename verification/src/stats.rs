//! Aggregate zone statistics: the damage and construction distributions
//! that the repairer and builder turn into dynamic thresholds.
//!
//! Both numbers of each pair follow the same scan: the mean over every
//! structure (or site) that counts, and a running minimum that treats zero
//! as "nothing seen yet".

use vstd::prelude::*;

use crate::checks::spec_hp;
use crate::model::{ConstructionSite, Structure, Zone};

verus! {

/// How many structures carry a damage hit-point reading.
pub open spec fn hp_count(ss: Seq<Structure>) -> int
    decreases ss.len(),
{
    if ss.len() == 0 {
        0
    } else {
        (if spec_hp(ss[0]) is Some {
            1int
        } else {
            0int
        }) + hp_count(ss.skip(1))
    }
}

/// Sum of the damage hit-point readings.
pub open spec fn hp_total(ss: Seq<Structure>) -> int
    decreases ss.len(),
{
    if ss.len() == 0 {
        0
    } else {
        (match spec_hp(ss[0]) {
            Some(h) => h as int,
            None => 0int,
        }) + hp_total(ss.skip(1))
    }
}

/// Running minimum of the damage readings, where an accumulator of zero
/// means no reading has been taken yet.
pub open spec fn hp_min_fold(ss: Seq<Structure>, acc: int) -> int
    decreases ss.len(),
{
    if ss.len() == 0 {
        acc
    } else {
        match spec_hp(ss[0]) {
            Some(h) => hp_min_fold(
                ss.skip(1),
                if acc > h as int || acc == 0 {
                    h as int
                } else {
                    acc
                },
            ),
            None => hp_min_fold(ss.skip(1), acc),
        }
    }
}

/// Construction work left on a site.
pub open spec fn build_left(cs: ConstructionSite) -> int {
    cs.progress_total - cs.progress
}

/// Sum of the work left over all sites.
pub open spec fn build_total(cs: Seq<ConstructionSite>) -> int
    decreases cs.len(),
{
    if cs.len() == 0 {
        0
    } else {
        build_left(cs[0]) + build_total(cs.skip(1))
    }
}

/// Running minimum of the work left, zero again meaning "none yet".
pub open spec fn build_min_fold(cs: Seq<ConstructionSite>, acc: int) -> int
    decreases cs.len(),
{
    if cs.len() == 0 {
        acc
    } else {
        build_min_fold(
            cs.skip(1),
            if acc > build_left(cs[0]) || acc == 0 {
                build_left(cs[0])
            } else {
                acc
            },
        )
    }
}

/// The per-tick statistics snapshot of one zone.
#[derive(Clone, Copy, PartialEq, Eq, Structural, Debug)]
pub struct ZoneStats {
    pub hp_avg: u128,
    pub hp_min: u128,
    pub build_avg: u128,
    pub build_min: u128,
}

/// What the statistics of a zone must be: means over the structures and
/// sites that count, zero where nothing counts, and the zero-seeded minima.
pub open spec fn spec_zone_stats(z: Zone) -> ZoneStats {
    ZoneStats {
        hp_avg: if hp_count(z.structures@) > 0 {
            (hp_total(z.structures@) / hp_count(z.structures@)) as u128
        } else {
            0u128
        },
        hp_min: hp_min_fold(z.structures@, 0) as u128,
        build_avg: if z.sites@.len() > 0 {
            (build_total(z.sites@) / z.sites@.len() as int) as u128
        } else {
            0u128
        },
        build_min: build_min_fold(z.sites@, 0) as u128,
    }
}

/// Every reading is a `u32`, so the sums and counts stay small.
pub proof fn lemma_hp_bounds(ss: Seq<Structure>)
    ensures
        0 <= hp_count(ss) <= ss.len(),
        0 <= hp_total(ss) <= ss.len() * (u32::MAX as int),
        hp_total(ss) <= hp_count(ss) * (u32::MAX as int),
    decreases ss.len(),
{
    if ss.len() > 0 {
        lemma_hp_bounds(ss.skip(1));
        assert(ss.skip(1).len() == ss.len() - 1);
        assert((ss.len() - 1) * (u32::MAX as int) + u32::MAX as int == ss.len() * (
        u32::MAX as int)) by (nonlinear_arith);
        assert(forall|c: int|
            c >= 0 ==> #[trigger] (c * (u32::MAX as int)) + u32::MAX as int == (c + 1) * (
            u32::MAX as int)) by (nonlinear_arith);
    }
}

/// The minimum fold stays within the readings' range.
pub proof fn lemma_hp_min_bounds(ss: Seq<Structure>, acc: int)
    requires
        0 <= acc <= u32::MAX as int,
    ensures
        0 <= hp_min_fold(ss, acc) <= u32::MAX as int,
    decreases ss.len(),
{
    if ss.len() > 0 {
        match spec_hp(ss[0]) {
            Some(h) => {
                lemma_hp_min_bounds(
                    ss.skip(1),
                    if acc > h as int || acc == 0 {
                        h as int
                    } else {
                        acc
                    },
                );
            }
            None => {
                lemma_hp_min_bounds(ss.skip(1), acc);
            }
        }
    }
}

/// No site has gone past its own finishing line.
pub open spec fn sites_progress_wf(cs: Seq<ConstructionSite>) -> bool {
    forall|i: int|
        0 <= i < cs.len() ==> (#[trigger] cs[i]).progress <= cs[i].progress_total
}

/// Work-left sums stay small as well.
pub proof fn lemma_build_bounds(cs: Seq<ConstructionSite>)
    requires
        sites_progress_wf(cs),
    ensures
        0 <= build_total(cs) <= cs.len() * (u32::MAX as int),
    decreases cs.len(),
{
    if cs.len() > 0 {
        assert(forall|i: int|
            0 <= i < cs.skip(1).len() ==> #[trigger] cs.skip(1)[i] == cs[i + 1]);
        lemma_build_bounds(cs.skip(1));
        assert(cs.skip(1).len() == cs.len() - 1);
        assert((cs.len() - 1) * (u32::MAX as int) + u32::MAX as int == cs.len() * (
        u32::MAX as int)) by (nonlinear_arith);
    }
}

/// The build minimum stays within range.
pub proof fn lemma_build_min_bounds(cs: Seq<ConstructionSite>, acc: int)
    requires
        sites_progress_wf(cs),
        0 <= acc <= u32::MAX as int,
    ensures
        0 <= build_min_fold(cs, acc) <= u32::MAX as int,
    decreases cs.len(),
{
    if cs.len() > 0 {
        assert(forall|i: int|
            0 <= i < cs.skip(1).len() ==> #[trigger] cs.skip(1)[i] == cs[i + 1]);
        lemma_build_min_bounds(
            cs.skip(1),
            if acc > build_left(cs[0]) || acc == 0 {
                build_left(cs[0])
            } else {
                acc
            },
        );
    }
}

/// Scan a zone once and compute its statistics snapshot.
pub fn calc_average(z: &Zone) -> (r: ZoneStats)
    requires
        z.wf(),
        z.structures@.len() < 0x1_0000_0000,
        z.sites@.len() < 0x1_0000_0000,
    ensures
        r == spec_zone_stats(*z),
{
    let mut total: u128 = 0;
    let mut count: u128 = 0;
    let mut minimum: u128 = 0;
    let mut i: usize = 0;
    assert(z.structures@.skip(0) =~= z.structures@);
    while i < z.structures.len()
        invariant
            z.wf(),
            i <= z.structures@.len(),
            z.structures@.len() < 0x1_0000_0000,
            hp_total(z.structures@) == total + hp_total(z.structures@.skip(i as int)),
            hp_count(z.structures@) == count + hp_count(z.structures@.skip(i as int)),
            hp_min_fold(z.structures@, 0) == hp_min_fold(z.structures@.skip(i as int), minimum
                as int),
            total <= i * (u32::MAX as int),
            count <= i,
            minimum <= u32::MAX,
        decreases z.structures@.len() - i,
    {
        proof {
            assert(z.structures@.skip(i as int)[0] == z.structures@[i as int]);
            assert(z.structures@.skip(i as int).skip(1) =~= z.structures@.skip(i as int + 1));
        }
        let cur = crate::checks::get_hp(&z.structures[i]);
        match cur {
            Some(hp) => {
                count = count + 1;
                total = total + hp as u128;
                if minimum > hp as u128 || minimum == 0 {
                    minimum = hp as u128;
                }
            }
            None => {}
        }
        i = i + 1;
    }
    assert(z.structures@.skip(i as int).len() == 0);
    let hp_avg: u128 = if count > 0 {
        total / count
    } else {
        0
    };
    let hp_min: u128 = minimum;

    let mut btotal: u128 = 0;
    let mut bmin: u128 = 0;
    let mut i: usize = 0;
    assert(z.sites@.skip(0) =~= z.sites@);
    while i < z.sites.len()
        invariant
            z.wf(),
            i <= z.sites@.len(),
            z.sites@.len() < 0x1_0000_0000,
            build_total(z.sites@) == btotal + build_total(z.sites@.skip(i as int)),
            build_min_fold(z.sites@, 0) == build_min_fold(z.sites@.skip(i as int), bmin as int),
            btotal <= i * (u32::MAX as int),
            bmin <= u32::MAX,
        decreases z.sites@.len() - i,
    {
        proof {
            assert(z.sites@.skip(i as int)[0] == z.sites@[i as int]);
            assert(z.sites@.skip(i as int).skip(1) =~= z.sites@.skip(i as int + 1));
        }
        let cs = &z.sites[i];
        let left: u32 = cs.progress_total - cs.progress;
        btotal = btotal + left as u128;
        if bmin > left as u128 || bmin == 0 {
            bmin = left as u128;
        }
        i = i + 1;
    }
    assert(z.sites@.skip(i as int).len() == 0);
    let build_avg: u128 = if z.sites.len() > 0 {
        proof {
            lemma_build_bounds(z.sites@);
        }
        btotal / z.sites.len() as u128
    } else {
        0
    };

    ZoneStats { hp_avg, hp_min, build_avg, build_min: bmin }
}

/// Every statistic stays within one reading's range: readings are `u32`,
/// and a mean of `u32` values is again at most `u32::MAX`.
pub proof fn lemma_stats_bounds(z: Zone)
    requires
        z.wf(),
    ensures
        spec_zone_stats(z).hp_avg <= u32::MAX as u128,
        spec_zone_stats(z).hp_min <= u32::MAX as u128,
        spec_zone_stats(z).build_avg <= u32::MAX as u128,
        spec_zone_stats(z).build_min <= u32::MAX as u128,
{
    lemma_hp_bounds(z.structures@);
    lemma_hp_min_bounds(z.structures@, 0);
    assert(sites_progress_wf(z.sites@));
    lemma_build_bounds(z.sites@);
    lemma_build_min_bounds(z.sites@, 0);
    if hp_count(z.structures@) > 0 {
        assert(hp_total(z.structures@) / hp_count(z.structures@) <= u32::MAX as int)
            by (nonlinear_arith)
            requires
                0 <= hp_total(z.structures@),
                hp_count(z.structures@) >= 1,
                hp_total(z.structures@) <= hp_count(z.structures@) * (u32::MAX as int),
        ;
    }
    if z.sites@.len() > 0 {
        assert(build_total(z.sites@) / z.sites@.len() as int <= u32::MAX as int)
            by (nonlinear_arith)
            requires
                0 <= build_total(z.sites@),
                z.sites@.len() >= 1,
                build_total(z.sites@) <= z.sites@.len() * (u32::MAX as int),
        ;
    }
}

/// Statistics are a function of the zone snapshot alone: two scans in one
/// tick, with no state change, agree.
pub proof fn lemma_zone_stats_idempotent(z: Zone, first: ZoneStats, second: ZoneStats)
    requires
        first == spec_zone_stats(z),
        second == spec_zone_stats(z),
    ensures
        first == second,
{
}

} // verus!
