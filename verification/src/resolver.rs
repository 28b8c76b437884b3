//! The multi-tier target resolver.
//!
//! Each resolver builds a candidate set from the zone snapshot and hands it
//! to the cheapest-path search.  The tiers are tried in strict order and
//! the first non-empty tier wins; within a tier the search picks the
//! cheapest-to-reach member.  Containers carry range 0 (an agent may stand
//! on them to transfer), everything else range 1 or the caller's range.
//!
//! Every candidate set is pinned down as a sequence-valued specification,
//! so a resolver's contract says exactly which set its result was searched
//! over.
//!
//! Candidates come from the agent's own zone: targets in another zone
//! would need the host's cross-zone routing, which this engine does not
//! model, and the per-zone cost cache scopes every search to one grid.

use vstd::prelude::*;

use crate::checks::{check_resouce_type_kind_matching, kind_matches, spec_kind_list};
use crate::model::{
    store_lookup, stored_of, DepositNode, DroppedResource, LootStore, MineralNode, Owner, Pos,
    ResourceKind, ResourceType, SourceNode, Structure, StructureKind, Zone,
};
use crate::search::{result_over, search_many, PathResult};
use crate::cost::CostMatrix;

verus! {

/// The remains hold something of the requested kind.
pub open spec fn loot_has_kind(l: LootStore, kind: ResourceKind) -> bool {
    exists|rt: ResourceType| kind_matches(rt, kind) && stored_of(l.store@, rt) > 0
}

/// Whether the remains hold something of the requested kind.
pub fn loot_has_kind_exec(l: &LootStore, kind: ResourceKind) -> (r: bool)
    ensures
        r == loot_has_kind(*l, kind),
{
    let type_list = make_kind_list(kind);
    let mut j: usize = 0;
    while j < type_list.len()
        invariant
            j <= type_list@.len(),
            type_list@ == spec_kind_list(kind),
            forall|i: int| 0 <= i < j ==> stored_of(l.store@, #[trigger] type_list@[i]) == 0,
        decreases type_list@.len() - j,
    {
        let amount = store_lookup(&l.store, type_list[j]);
        if amount > 0 {
            assert(kind_matches(type_list@[j as int], kind)) by {
                assert(spec_kind_list(kind)[j as int] == type_list@[j as int]);
            }
            return true;
        }
        j = j + 1;
    }
    proof {
        if loot_has_kind(*l, kind) {
            let rt = choose|rt: ResourceType|
                kind_matches(rt, kind) && stored_of(l.store@, rt) > 0;
            let i = choose|i: int| 0 <= i < spec_kind_list(kind).len() && spec_kind_list(kind)[i]
                == rt;
            assert(stored_of(l.store@, type_list@[i]) == 0);
        }
    }
    false
}

/// The resource types of one kind (shared builder).
fn make_kind_list(kind: ResourceKind) -> (r: Vec<ResourceType>)
    ensures
        r@ == spec_kind_list(kind),
{
    crate::checks::make_resoucetype_list(&kind)
}

/// Goals from ground piles holding the requested kind.
pub open spec fn pile_goals(piles: Seq<DroppedResource>, kind: ResourceKind) -> Seq<(Pos, u32)>
    decreases piles.len(),
{
    if piles.len() == 0 {
        Seq::empty()
    } else {
        let front = pile_goals(piles.drop_last(), kind);
        if kind_matches(piles.last().resource, kind) {
            front.push((piles.last().pos, 1u32))
        } else {
            front
        }
    }
}

/// Goals from lootable remains holding the requested kind.
pub open spec fn loot_goals(loots: Seq<LootStore>, kind: ResourceKind) -> Seq<(Pos, u32)>
    decreases loots.len(),
{
    if loots.len() == 0 {
        Seq::empty()
    } else {
        let front = loot_goals(loots.drop_last(), kind);
        if loot_has_kind(loots.last(), kind) {
            front.push((loots.last().pos, 1u32))
        } else {
            front
        }
    }
}

/// Tier 1, the ground pickups: piles, then tombstones, then ruins.
pub open spec fn tier1_goals(z: Zone, kind: ResourceKind) -> Seq<(Pos, u32)> {
    pile_goals(z.piles@, kind) + loot_goals(z.tombstones@, kind) + loot_goals(z.ruins@, kind)
}

/// Append the pile goals.
fn push_pile_goals(z: &Zone, kind: ResourceKind, goals: &mut Vec<(Pos, u32)>)
    ensures
        final(goals)@ == old(goals)@ + pile_goals(z.piles@, kind),
{
    let mut i: usize = 0;
    assert(z.piles@.take(0) =~= Seq::<DroppedResource>::empty());
    assert(goals@ =~= old(goals)@ + pile_goals(z.piles@.take(0), kind));
    while i < z.piles.len()
        invariant
            i <= z.piles@.len(),
            goals@ == old(goals)@ + pile_goals(z.piles@.take(i as int), kind),
        decreases z.piles@.len() - i,
    {
        proof {
            assert(z.piles@.take(i as int + 1).drop_last() =~= z.piles@.take(i as int));
            assert(z.piles@.take(i as int + 1).last() == z.piles@[i as int]);
        }
        if check_resouce_type_kind_matching(&z.piles[i].resource, &kind) {
            goals.push((z.piles[i].pos, 1));
            assert(goals@ =~= old(goals)@ + pile_goals(z.piles@.take(i as int + 1), kind));
        }
        i = i + 1;
    }
    assert(z.piles@.take(i as int) =~= z.piles@);
}

/// Append the goals from a list of lootable remains.
fn push_loot_goals(loots: &Vec<LootStore>, kind: ResourceKind, goals: &mut Vec<(Pos, u32)>)
    ensures
        final(goals)@ == old(goals)@ + loot_goals(loots@, kind),
{
    let mut i: usize = 0;
    assert(loots@.take(0) =~= Seq::<LootStore>::empty());
    assert(goals@ =~= old(goals)@ + loot_goals(loots@.take(0), kind));
    while i < loots.len()
        invariant
            i <= loots@.len(),
            goals@ == old(goals)@ + loot_goals(loots@.take(i as int), kind),
        decreases loots@.len() - i,
    {
        proof {
            assert(loots@.take(i as int + 1).drop_last() =~= loots@.take(i as int));
            assert(loots@.take(i as int + 1).last() == loots@[i as int]);
        }
        if loot_has_kind_exec(&loots[i], kind) {
            goals.push((loots[i].pos, 1));
            assert(goals@ =~= old(goals)@ + loot_goals(loots@.take(i as int + 1), kind));
        }
        i = i + 1;
    }
    assert(loots@.take(i as int) =~= loots@);
}

/// Goals from currently active energy nodes.
pub open spec fn active_source_goals(srcs: Seq<SourceNode>) -> Seq<(Pos, u32)>
    decreases srcs.len(),
{
    if srcs.len() == 0 {
        Seq::empty()
    } else {
        let front = active_source_goals(srcs.drop_last());
        if srcs.last().active() {
            front.push((srcs.last().pos, 1u32))
        } else {
            front
        }
    }
}

/// An extractor of this population stands on the tile.
pub open spec fn extractor_at(z: Zone, p: Pos) -> bool {
    exists|i: int|
        0 <= i < z.structures@.len() && (#[trigger] z.structures@[i]).kind
            == StructureKind::Extractor && z.structures@[i].owner == Owner::Mine
            && z.structures@[i].pos == p
}

/// Whether an extractor of this population stands on the tile.
pub fn extractor_at_exec(z: &Zone, p: Pos) -> (r: bool)
    ensures
        r == extractor_at(*z, p),
{
    let mut i: usize = 0;
    while i < z.structures.len()
        invariant
            i <= z.structures@.len(),
            forall|j: int|
                0 <= j < i ==> !((#[trigger] z.structures@[j]).kind == StructureKind::Extractor
                    && z.structures@[j].owner == Owner::Mine && z.structures@[j].pos == p),
        decreases z.structures@.len() - i,
    {
        let s = &z.structures[i];
        if s.kind == StructureKind::Extractor && s.owner == Owner::Mine && s.pos.x == p.x
            && s.pos.y == p.y {
            assert(z.structures@[i as int].pos == p);
            return true;
        }
        i = i + 1;
    }
    false
}

/// Goals from mineral nodes that carry an extractor.
pub open spec fn mineral_goals(z: Zone, minerals: Seq<MineralNode>) -> Seq<(Pos, u32)>
    decreases minerals.len(),
{
    if minerals.len() == 0 {
        Seq::empty()
    } else {
        let front = mineral_goals(z, minerals.drop_last());
        if extractor_at(z, minerals.last().pos) {
            front.push((minerals.last().pos, 1u32))
        } else {
            front
        }
    }
}

/// Goals from commodity deposits.
pub open spec fn deposit_goals(deps: Seq<DepositNode>) -> Seq<(Pos, u32)>
    decreases deps.len(),
{
    if deps.len() == 0 {
        Seq::empty()
    } else {
        deposit_goals(deps.drop_last()).push((deps.last().pos, 1u32))
    }
}

/// Goals from power banks.
pub open spec fn powerbank_goals(ss: Seq<Structure>) -> Seq<(Pos, u32)>
    decreases ss.len(),
{
    if ss.len() == 0 {
        Seq::empty()
    } else {
        let front = powerbank_goals(ss.drop_last());
        if ss.last().kind == StructureKind::PowerBank {
            front.push((ss.last().pos, 1u32))
        } else {
            front
        }
    }
}

/// Tier 2, the active primary sources of the requested kind.
pub open spec fn tier2_goals(z: Zone, kind: ResourceKind) -> Seq<(Pos, u32)> {
    match kind {
        ResourceKind::Energy => active_source_goals(z.sources@),
        ResourceKind::Minerals => mineral_goals(z, z.minerals@),
        ResourceKind::Commodities => deposit_goals(z.deposits@),
        ResourceKind::Power => powerbank_goals(z.structures@),
    }
}

/// The candidate set of the active-source resolver: ground pickups first
/// unless this is the second pass, then active primary sources.
pub open spec fn active_search_goals(z: Zone, kind: ResourceKind, is_2nd_check: bool) -> Seq<
    (Pos, u32),
> {
    if !is_2nd_check && tier1_goals(z, kind).len() > 0 {
        tier1_goals(z, kind)
    } else {
        tier2_goals(z, kind)
    }
}

/// Append the tier 2 goals.
fn push_tier2_goals(z: &Zone, kind: ResourceKind, goals: &mut Vec<(Pos, u32)>)
    ensures
        final(goals)@ == old(goals)@ + tier2_goals(*z, kind),
{
    match kind {
        ResourceKind::Energy => {
            let mut i: usize = 0;
            assert(z.sources@.take(0) =~= Seq::<SourceNode>::empty());
            assert(goals@ =~= old(goals)@ + active_source_goals(z.sources@.take(0)));
            while i < z.sources.len()
                invariant
                    i <= z.sources@.len(),
                    goals@ == old(goals)@ + active_source_goals(z.sources@.take(i as int)),
                decreases z.sources@.len() - i,
            {
                proof {
                    assert(z.sources@.take(i as int + 1).drop_last() =~= z.sources@.take(i as int));
                    assert(z.sources@.take(i as int + 1).last() == z.sources@[i as int]);
                }
                if z.sources[i].energy > 0 {
                    goals.push((z.sources[i].pos, 1));
                    assert(goals@ =~= old(goals)@ + active_source_goals(
                        z.sources@.take(i as int + 1),
                    ));
                }
                i = i + 1;
            }
            assert(z.sources@.take(i as int) =~= z.sources@);
        }
        ResourceKind::Minerals => {
            let mut i: usize = 0;
            assert(z.minerals@.take(0) =~= Seq::<MineralNode>::empty());
            assert(goals@ =~= old(goals)@ + mineral_goals(*z, z.minerals@.take(0)));
            while i < z.minerals.len()
                invariant
                    i <= z.minerals@.len(),
                    goals@ == old(goals)@ + mineral_goals(*z, z.minerals@.take(i as int)),
                decreases z.minerals@.len() - i,
            {
                proof {
                    assert(z.minerals@.take(i as int + 1).drop_last() =~= z.minerals@.take(
                        i as int,
                    ));
                    assert(z.minerals@.take(i as int + 1).last() == z.minerals@[i as int]);
                }
                if extractor_at_exec(z, z.minerals[i].pos) {
                    goals.push((z.minerals[i].pos, 1));
                    assert(goals@ =~= old(goals)@ + mineral_goals(
                        *z,
                        z.minerals@.take(i as int + 1),
                    ));
                }
                i = i + 1;
            }
            assert(z.minerals@.take(i as int) =~= z.minerals@);
        }
        ResourceKind::Commodities => {
            let mut i: usize = 0;
            assert(z.deposits@.take(0) =~= Seq::<DepositNode>::empty());
            assert(goals@ =~= old(goals)@ + deposit_goals(z.deposits@.take(0)));
            while i < z.deposits.len()
                invariant
                    i <= z.deposits@.len(),
                    goals@ == old(goals)@ + deposit_goals(z.deposits@.take(i as int)),
                decreases z.deposits@.len() - i,
            {
                proof {
                    assert(z.deposits@.take(i as int + 1).drop_last() =~= z.deposits@.take(
                        i as int,
                    ));
                    assert(z.deposits@.take(i as int + 1).last() == z.deposits@[i as int]);
                }
                goals.push((z.deposits[i].pos, 1));
                assert(goals@ =~= old(goals)@ + deposit_goals(z.deposits@.take(i as int + 1)));
                i = i + 1;
            }
            assert(z.deposits@.take(i as int) =~= z.deposits@);
        }
        ResourceKind::Power => {
            let mut i: usize = 0;
            assert(z.structures@.take(0) =~= Seq::<Structure>::empty());
            assert(goals@ =~= old(goals)@ + powerbank_goals(z.structures@.take(0)));
            while i < z.structures.len()
                invariant
                    i <= z.structures@.len(),
                    goals@ == old(goals)@ + powerbank_goals(z.structures@.take(i as int)),
                decreases z.structures@.len() - i,
            {
                proof {
                    assert(z.structures@.take(i as int + 1).drop_last() =~= z.structures@.take(
                        i as int,
                    ));
                    assert(z.structures@.take(i as int + 1).last() == z.structures@[i as int]);
                }
                if z.structures[i].kind == StructureKind::PowerBank {
                    goals.push((z.structures[i].pos, 1));
                    assert(goals@ =~= old(goals)@ + powerbank_goals(
                        z.structures@.take(i as int + 1),
                    ));
                }
                i = i + 1;
            }
            assert(z.structures@.take(i as int) =~= z.structures@);
        }
    }
}

/// Nearest active primary source of the requested kind, with ground
/// pickups (piles, tombstones, ruins) taking precedence on the first pass.
pub fn find_nearest_active_source(
    z: &Zone,
    m: &CostMatrix,
    start: Pos,
    resource_kind: &ResourceKind,
    is_2nd_check: bool,
) -> (r: PathResult)
    requires
        z.wf(),
        m.wf(),
        start.wf(),
    ensures
        result_over(*z, *m, start, active_search_goals(*z, *resource_kind, is_2nd_check), r),
{
    let mut goals: Vec<(Pos, u32)> = Vec::new();
    if !is_2nd_check {
        push_pile_goals(z, *resource_kind, &mut goals);
        push_loot_goals(&z.tombstones, *resource_kind, &mut goals);
        push_loot_goals(&z.ruins, *resource_kind, &mut goals);
        assert(goals@ =~= tier1_goals(*z, *resource_kind));
    }
    if goals.len() == 0 {
        push_tier2_goals(z, *resource_kind, &mut goals);
        assert(goals@ =~= tier2_goals(*z, *resource_kind));
    }
    search_many(z, m, start, &goals)
}

/// Which reserve tiers the caller wants left out, to keep an agent from
/// draining the tier it just filled.
#[derive(Clone, Copy, PartialEq, Eq, Structural, Debug)]
pub struct ExclusionFlags {
    pub storages: bool,
    pub terminal: bool,
    pub link: bool,
}

impl ExclusionFlags {
    /// Exclude nothing.
    pub fn none() -> (r: ExclusionFlags)
        ensures
            r == (ExclusionFlags { storages: false, terminal: false, link: false }),
    {
        ExclusionFlags { storages: false, terminal: false, link: false }
    }
}

/// A structure kind belonging to the reserve tier for this resource kind.
pub open spec fn reserve_kind_ok(k: StructureKind, kind: ResourceKind) -> bool {
    ||| k == StructureKind::Container
    ||| k == StructureKind::Storage
    ||| k == StructureKind::Link
    ||| (k == StructureKind::Terminal && kind == ResourceKind::Energy)
    ||| (k == StructureKind::Lab && kind == ResourceKind::Minerals)
}

/// The caller's exclusion flags rule this structure kind out.
pub open spec fn reserve_excluded(k: StructureKind, excl: ExclusionFlags) -> bool {
    ||| (excl.storages && (k == StructureKind::Container || k == StructureKind::Storage))
    ||| (excl.terminal && k == StructureKind::Terminal)
    ||| (excl.link && k == StructureKind::Link)
}

/// Amount of the kind a reserve structure must hold before agents draw
/// from it: terminals keep a floor of energy, everything else gives all.
pub open spec fn reserve_keep(k: StructureKind, terminal_keep_energy: u32) -> u32 {
    if k == StructureKind::Terminal {
        terminal_keep_energy
    } else {
        0u32
    }
}

/// The structure holds more than `keep` of something of the kind.
pub open spec fn struct_has_kind_over(s: Structure, kind: ResourceKind, keep: u32) -> bool {
    exists|rt: ResourceType| kind_matches(rt, kind) && stored_of(s.store@, rt) > keep
}

/// Whether the structure holds more than `keep` of something of the kind.
pub fn struct_has_kind_over_exec(s: &Structure, kind: ResourceKind, keep: u32) -> (r: bool)
    ensures
        r == struct_has_kind_over(*s, kind, keep),
{
    let type_list = make_kind_list(kind);
    let mut j: usize = 0;
    while j < type_list.len()
        invariant
            j <= type_list@.len(),
            type_list@ == spec_kind_list(kind),
            forall|i: int| 0 <= i < j ==> stored_of(s.store@, #[trigger] type_list@[i]) <= keep,
        decreases type_list@.len() - j,
    {
        let amount = store_lookup(&s.store, type_list[j]);
        if amount > keep {
            assert(kind_matches(type_list@[j as int], kind)) by {
                assert(spec_kind_list(kind)[j as int] == type_list@[j as int]);
            }
            return true;
        }
        j = j + 1;
    }
    proof {
        if struct_has_kind_over(*s, kind, keep) {
            let rt = choose|rt: ResourceType|
                kind_matches(rt, kind) && stored_of(s.store@, rt) > keep;
            let i = choose|i: int| 0 <= i < spec_kind_list(kind).len() && spec_kind_list(kind)[i]
                == rt;
            assert(stored_of(s.store@, type_list@[i]) <= keep);
        }
    }
    false
}

/// A reserve structure agents may draw the kind from, honoring the
/// caller's exclusions.
pub open spec fn reserve_ok(
    s: Structure,
    kind: ResourceKind,
    excl: ExclusionFlags,
    terminal_keep_energy: u32,
) -> bool {
    &&& reserve_kind_ok(s.kind, kind)
    &&& !reserve_excluded(s.kind, excl)
    &&& (s.owner == Owner::Mine || s.kind == StructureKind::Container)
    &&& struct_has_kind_over(s, kind, reserve_keep(s.kind, terminal_keep_energy))
}

/// Range of a reserve goal: containers allow transfer from their own tile.
pub open spec fn reserve_range(k: StructureKind) -> u32 {
    if k == StructureKind::Container {
        0u32
    } else {
        1u32
    }
}

/// Tier 3, the reserve structures: containers, storage, links, terminals
/// for energy and labs for minerals, each excludable by the caller.
pub open spec fn reserve_goals(
    ss: Seq<Structure>,
    kind: ResourceKind,
    excl: ExclusionFlags,
    terminal_keep_energy: u32,
) -> Seq<(Pos, u32)>
    decreases ss.len(),
{
    if ss.len() == 0 {
        Seq::empty()
    } else {
        let front = reserve_goals(ss.drop_last(), kind, excl, terminal_keep_energy);
        if reserve_ok(ss.last(), kind, excl, terminal_keep_energy) {
            front.push((ss.last().pos, reserve_range(ss.last().kind)))
        } else {
            front
        }
    }
}

/// The candidate set of the stored-source resolver: ground pickups first
/// unless this is the second pass, then the reserve tier.
pub open spec fn stored_search_goals(
    z: Zone,
    kind: ResourceKind,
    is_2nd_check: bool,
    excl: ExclusionFlags,
    terminal_keep_energy: u32,
) -> Seq<(Pos, u32)> {
    if !is_2nd_check && tier1_goals(z, kind).len() > 0 {
        tier1_goals(z, kind)
    } else {
        reserve_goals(z.structures@, kind, excl, terminal_keep_energy)
    }
}

/// Append the reserve-tier goals.
fn push_reserve_goals(
    z: &Zone,
    kind: ResourceKind,
    excl: ExclusionFlags,
    terminal_keep_energy: u32,
    goals: &mut Vec<(Pos, u32)>,
)
    ensures
        final(goals)@ == old(goals)@ + reserve_goals(
            z.structures@,
            kind,
            excl,
            terminal_keep_energy,
        ),
{
    let mut i: usize = 0;
    assert(z.structures@.take(0) =~= Seq::<Structure>::empty());
    assert(goals@ =~= old(goals)@ + reserve_goals(
        z.structures@.take(0),
        kind,
        excl,
        terminal_keep_energy,
    ));
    while i < z.structures.len()
        invariant
            i <= z.structures@.len(),
            goals@ == old(goals)@ + reserve_goals(
                z.structures@.take(i as int),
                kind,
                excl,
                terminal_keep_energy,
            ),
        decreases z.structures@.len() - i,
    {
        proof {
            assert(z.structures@.take(i as int + 1).drop_last() =~= z.structures@.take(i as int));
            assert(z.structures@.take(i as int + 1).last() == z.structures@[i as int]);
        }
        let s = &z.structures[i];
        let kind_fits = s.kind == StructureKind::Container || s.kind == StructureKind::Storage
            || s.kind == StructureKind::Link || (s.kind == StructureKind::Terminal && kind
            == ResourceKind::Energy) || (s.kind == StructureKind::Lab && kind
            == ResourceKind::Minerals);
        let excluded = (excl.storages && (s.kind == StructureKind::Container || s.kind
            == StructureKind::Storage)) || (excl.terminal && s.kind == StructureKind::Terminal)
            || (excl.link && s.kind == StructureKind::Link);
        let owner_fits = s.owner == Owner::Mine || s.kind == StructureKind::Container;
        if kind_fits && excluded == false && owner_fits {
            let keep: u32 = if s.kind == StructureKind::Terminal {
                terminal_keep_energy
            } else {
                0
            };
            if struct_has_kind_over_exec(s, kind, keep) {
                let range: u32 = if s.kind == StructureKind::Container {
                    0
                } else {
                    1
                };
                goals.push((s.pos, range));
                assert(goals@ =~= old(goals)@ + reserve_goals(
                    z.structures@.take(i as int + 1),
                    kind,
                    excl,
                    terminal_keep_energy,
                ));
            }
        }
        i = i + 1;
    }
    assert(z.structures@.take(i as int) =~= z.structures@);
}

/// Nearest reserve structure holding the requested kind, with ground
/// pickups taking precedence on the first pass; the exclusion flags keep
/// just-filled tiers out of the set.
pub fn find_nearest_stored_source(
    z: &Zone,
    m: &CostMatrix,
    start: Pos,
    resource_kind: &ResourceKind,
    is_2nd_check: bool,
    excl: ExclusionFlags,
    terminal_keep_energy: u32,
) -> (r: PathResult)
    requires
        z.wf(),
        m.wf(),
        start.wf(),
    ensures
        result_over(
            *z,
            *m,
            start,
            stored_search_goals(*z, *resource_kind, is_2nd_check, excl, terminal_keep_energy),
            r,
        ),
{
    let mut goals: Vec<(Pos, u32)> = Vec::new();
    if !is_2nd_check {
        push_pile_goals(z, *resource_kind, &mut goals);
        push_loot_goals(&z.tombstones, *resource_kind, &mut goals);
        push_loot_goals(&z.ruins, *resource_kind, &mut goals);
        assert(goals@ =~= tier1_goals(*z, *resource_kind));
    }
    if goals.len() == 0 {
        push_reserve_goals(z, *resource_kind, excl, terminal_keep_energy, &mut goals);
        assert(goals@ =~= reserve_goals(z.structures@, *resource_kind, excl, terminal_keep_energy));
    }
    search_many(z, m, start, &goals)
}

/// Every energy node, regardless of state.
pub open spec fn all_source_goals(srcs: Seq<SourceNode>) -> Seq<(Pos, u32)>
    decreases srcs.len(),
{
    if srcs.len() == 0 {
        Seq::empty()
    } else {
        all_source_goals(srcs.drop_last()).push((srcs.last().pos, 1u32))
    }
}

/// The candidate set of the last-resort resolver: every node of the
/// requested kind, even if depleted, so the set is non-empty whenever one
/// such node is visible; for minerals the extractor-equipped nodes.
pub open spec fn exhausted_search_goals(z: Zone, kind: ResourceKind) -> Seq<(Pos, u32)> {
    match kind {
        ResourceKind::Minerals => mineral_goals(z, z.minerals@),
        _ => all_source_goals(z.sources@),
    }
}

/// Nearest last-resort node of the requested kind, even if depleted; this
/// keeps an agent near a node that will regenerate rather than idle.
pub fn find_nearest_exhausted_source(
    z: &Zone,
    m: &CostMatrix,
    start: Pos,
    harvest_kind: &ResourceKind,
) -> (r: PathResult)
    requires
        z.wf(),
        m.wf(),
        start.wf(),
    ensures
        result_over(*z, *m, start, exhausted_search_goals(*z, *harvest_kind), r),
{
    let mut goals: Vec<(Pos, u32)> = Vec::new();
    match harvest_kind {
        ResourceKind::Minerals => {
            push_tier2_goals(z, ResourceKind::Minerals, &mut goals);
            assert(goals@ =~= mineral_goals(*z, z.minerals@));
        }
        _ => {
            let mut i: usize = 0;
            assert(z.sources@.take(0) =~= Seq::<SourceNode>::empty());
            assert(goals@ =~= all_source_goals(z.sources@.take(0)));
            while i < z.sources.len()
                invariant
                    i <= z.sources@.len(),
                    goals@ == all_source_goals(z.sources@.take(i as int)),
                decreases z.sources@.len() - i,
            {
                proof {
                    assert(z.sources@.take(i as int + 1).drop_last() =~= z.sources@.take(i as int));
                    assert(z.sources@.take(i as int + 1).last() == z.sources@[i as int]);
                }
                goals.push((z.sources[i].pos, 1));
                assert(goals@ =~= all_source_goals(z.sources@.take(i as int + 1)));
                i = i + 1;
            }
            assert(z.sources@.take(i as int) =~= z.sources@);
        }
    }
    search_many(z, m, start, &goals)
}

/// The carried load holds something of the kind.
pub open spec fn carrying_has_kind(carrying: Seq<crate::model::StoreEntry>, kind: ResourceKind)
    -> bool {
    exists|rt: ResourceType| kind_matches(rt, kind) && stored_of(carrying, rt) > 0
}

/// Whether the carried load holds something of the kind.
pub fn carrying_has_kind_exec(carrying: &Vec<crate::model::StoreEntry>, kind: ResourceKind) -> (r:
    bool)
    ensures
        r == carrying_has_kind(carrying@, kind),
{
    let type_list = make_kind_list(kind);
    let mut j: usize = 0;
    while j < type_list.len()
        invariant
            j <= type_list@.len(),
            type_list@ == spec_kind_list(kind),
            forall|i: int| 0 <= i < j ==> stored_of(carrying@, #[trigger] type_list@[i]) == 0,
        decreases type_list@.len() - j,
    {
        let amount = store_lookup(carrying, type_list[j]);
        if amount > 0 {
            assert(kind_matches(type_list@[j as int], kind)) by {
                assert(spec_kind_list(kind)[j as int] == type_list@[j as int]);
            }
            return true;
        }
        j = j + 1;
    }
    proof {
        if carrying_has_kind(carrying@, kind) {
            let rt = choose|rt: ResourceType| kind_matches(rt, kind) && stored_of(carrying@, rt)
                > 0;
            let i = choose|i: int| 0 <= i < spec_kind_list(kind).len() && spec_kind_list(kind)[i]
                == rt;
            assert(stored_of(carrying@, type_list@[i]) == 0);
        }
    }
    false
}

/// First resource type of the kind in the carried load.
pub fn first_carried_of_kind(carrying: &Vec<crate::model::StoreEntry>, kind: ResourceKind) -> (r:
    Option<ResourceType>)
    ensures
        match r {
            Some(rt) => kind_matches(rt, kind) && stored_of(carrying@, rt) > 0,
            None => !carrying_has_kind(carrying@, kind),
        },
{
    let type_list = make_kind_list(kind);
    let mut j: usize = 0;
    while j < type_list.len()
        invariant
            j <= type_list@.len(),
            type_list@ == spec_kind_list(kind),
            forall|i: int| 0 <= i < j ==> stored_of(carrying@, #[trigger] type_list@[i]) == 0,
        decreases type_list@.len() - j,
    {
        let amount = store_lookup(carrying, type_list[j]);
        if amount > 0 {
            assert(kind_matches(type_list@[j as int], kind)) by {
                assert(spec_kind_list(kind)[j as int] == type_list@[j as int]);
            }
            return Some(type_list[j]);
        }
        j = j + 1;
    }
    proof {
        if carrying_has_kind(carrying@, kind) {
            let rt = choose|rt: ResourceType| kind_matches(rt, kind) && stored_of(carrying@, rt)
                > 0;
            let i = choose|i: int| 0 <= i < spec_kind_list(kind).len() && spec_kind_list(kind)[i]
                == rt;
            assert(stored_of(carrying@, type_list@[i]) == 0);
        }
    }
    None
}

/// A structure the agent can unload the kind into, honoring the
/// exclusions; labs never take raw minerals here.
pub open spec fn deliver_ok(
    s: Structure,
    kind: ResourceKind,
    excl: ExclusionFlags,
    carrying: Seq<crate::model::StoreEntry>,
) -> bool {
    &&& !(s.kind == StructureKind::Lab && kind == ResourceKind::Minerals)
    &&& !(excl.storages && (s.kind == StructureKind::Container || s.kind
        == StructureKind::Storage))
    &&& !(excl.terminal && kind == ResourceKind::Energy && s.kind == StructureKind::Terminal)
    &&& !(excl.link && s.kind == StructureKind::Link)
    &&& carrying_has_kind(carrying, kind)
    &&& crate::checks::spec_transferable(s, 0)
}

/// The delivery-side candidate set over every structure.
pub open spec fn deliver_goals(
    ss: Seq<Structure>,
    kind: ResourceKind,
    excl: ExclusionFlags,
    carrying: Seq<crate::model::StoreEntry>,
) -> Seq<(Pos, u32)>
    decreases ss.len(),
{
    if ss.len() == 0 {
        Seq::empty()
    } else {
        let front = deliver_goals(ss.drop_last(), kind, excl, carrying);
        if deliver_ok(ss.last(), kind, excl, carrying) {
            front.push((ss.last().pos, reserve_range(ss.last().kind)))
        } else {
            front
        }
    }
}

/// Nearest structure that can take the carried kind off the agent, with
/// the exclusion flags keeping the just-drained tier out.
pub fn find_nearest_transfarable_item(
    z: &Zone,
    m: &CostMatrix,
    start: Pos,
    resource_kind: &ResourceKind,
    carrying: &Vec<crate::model::StoreEntry>,
    excl: ExclusionFlags,
) -> (r: PathResult)
    requires
        z.wf(),
        m.wf(),
        start.wf(),
    ensures
        result_over(*z, *m, start, deliver_goals(z.structures@, *resource_kind, excl, carrying@), r),
{
    let mut goals: Vec<(Pos, u32)> = Vec::new();
    let has_kind = carrying_has_kind_exec(carrying, *resource_kind);
    let mut i: usize = 0;
    assert(z.structures@.take(0) =~= Seq::<Structure>::empty());
    assert(goals@ =~= deliver_goals(z.structures@.take(0), *resource_kind, excl, carrying@));
    while i < z.structures.len()
        invariant
            z.wf(),
            i <= z.structures@.len(),
            has_kind == carrying_has_kind(carrying@, *resource_kind),
            goals@ == deliver_goals(z.structures@.take(i as int), *resource_kind, excl, carrying@),
        decreases z.structures@.len() - i,
    {
        proof {
            assert(z.structures@.take(i as int + 1).drop_last() =~= z.structures@.take(i as int));
            assert(z.structures@.take(i as int + 1).last() == z.structures@[i as int]);
        }
        let s = &z.structures[i];
        let skip = (s.kind == StructureKind::Lab && *resource_kind == ResourceKind::Minerals)
            || (excl.storages && (s.kind == StructureKind::Container || s.kind
            == StructureKind::Storage)) || (excl.terminal && *resource_kind == ResourceKind::Energy
            && s.kind == StructureKind::Terminal) || (excl.link && s.kind == StructureKind::Link);
        if skip == false && has_kind {
            if crate::checks::check_transferable(s, &ResourceType::Energy, None) {
                let range: u32 = if s.kind == StructureKind::Container {
                    0
                } else {
                    1
                };
                goals.push((s.pos, range));
                assert(goals@ =~= deliver_goals(
                    z.structures@.take(i as int + 1),
                    *resource_kind,
                    excl,
                    carrying@,
                ));
            }
        }
        i = i + 1;
    }
    assert(z.structures@.take(i as int) =~= z.structures@);
    search_many(z, m, start, &goals)
}

/// A terminal that can take the carried kind.
pub open spec fn terminal_deliver_ok(
    s: Structure,
    kind: ResourceKind,
    carrying: Seq<crate::model::StoreEntry>,
) -> bool {
    &&& s.kind == StructureKind::Terminal
    &&& carrying_has_kind(carrying, kind)
    &&& crate::checks::spec_transferable(s, 0)
}

/// The terminal-only delivery candidate set.
pub open spec fn terminal_goals(
    ss: Seq<Structure>,
    kind: ResourceKind,
    carrying: Seq<crate::model::StoreEntry>,
) -> Seq<(Pos, u32)>
    decreases ss.len(),
{
    if ss.len() == 0 {
        Seq::empty()
    } else {
        let front = terminal_goals(ss.drop_last(), kind, carrying);
        if terminal_deliver_ok(ss.last(), kind, carrying) {
            front.push((ss.last().pos, 1u32))
        } else {
            front
        }
    }
}

/// Nearest terminal that can take the carried kind.
pub fn find_nearest_transfarable_terminal(
    z: &Zone,
    m: &CostMatrix,
    start: Pos,
    resource_kind: &ResourceKind,
    carrying: &Vec<crate::model::StoreEntry>,
) -> (r: PathResult)
    requires
        z.wf(),
        m.wf(),
        start.wf(),
    ensures
        result_over(*z, *m, start, terminal_goals(z.structures@, *resource_kind, carrying@), r),
{
    let mut goals: Vec<(Pos, u32)> = Vec::new();
    let has_kind = carrying_has_kind_exec(carrying, *resource_kind);
    let mut i: usize = 0;
    assert(z.structures@.take(0) =~= Seq::<Structure>::empty());
    assert(goals@ =~= terminal_goals(z.structures@.take(0), *resource_kind, carrying@));
    while i < z.structures.len()
        invariant
            z.wf(),
            i <= z.structures@.len(),
            has_kind == carrying_has_kind(carrying@, *resource_kind),
            goals@ == terminal_goals(z.structures@.take(i as int), *resource_kind, carrying@),
        decreases z.structures@.len() - i,
    {
        proof {
            assert(z.structures@.take(i as int + 1).drop_last() =~= z.structures@.take(i as int));
            assert(z.structures@.take(i as int + 1).last() == z.structures@[i as int]);
        }
        let s = &z.structures[i];
        if s.kind == StructureKind::Terminal && has_kind {
            if crate::checks::check_transferable(s, &ResourceType::Energy, None) {
                goals.push((s.pos, 1));
                assert(goals@ =~= terminal_goals(
                    z.structures@.take(i as int + 1),
                    *resource_kind,
                    carrying@,
                ));
            }
        }
        i = i + 1;
    }
    assert(z.structures@.take(i as int) =~= z.structures@);
    search_many(z, m, start, &goals)
}

/// Damaged structures at or under the hit-point threshold.
pub open spec fn repairable_hp_goals(ss: Seq<Structure>, threshold: u32) -> Seq<(Pos, u32)>
    decreases ss.len(),
{
    if ss.len() == 0 {
        Seq::empty()
    } else {
        let front = repairable_hp_goals(ss.drop_last(), threshold);
        if crate::checks::spec_repairable(ss.last()) && ss.last().hits <= threshold {
            front.push((ss.last().pos, 3u32))
        } else {
            front
        }
    }
}

/// Nearest repairable structure whose hit points have fallen to the
/// threshold.
pub fn find_nearest_repairable_item_hp(z: &Zone, m: &CostMatrix, start: Pos, threshold: u32) -> (r:
    PathResult)
    requires
        z.wf(),
        m.wf(),
        start.wf(),
    ensures
        result_over(*z, *m, start, repairable_hp_goals(z.structures@, threshold), r),
{
    let mut goals: Vec<(Pos, u32)> = Vec::new();
    let mut i: usize = 0;
    assert(z.structures@.take(0) =~= Seq::<Structure>::empty());
    assert(goals@ =~= repairable_hp_goals(z.structures@.take(0), threshold));
    while i < z.structures.len()
        invariant
            i <= z.structures@.len(),
            goals@ == repairable_hp_goals(z.structures@.take(i as int), threshold),
        decreases z.structures@.len() - i,
    {
        proof {
            assert(z.structures@.take(i as int + 1).drop_last() =~= z.structures@.take(i as int));
            assert(z.structures@.take(i as int + 1).last() == z.structures@[i as int]);
        }
        let s = &z.structures[i];
        if crate::checks::check_repairable(s) && s.hits <= threshold {
            goals.push((s.pos, 3));
            assert(goals@ =~= repairable_hp_goals(z.structures@.take(i as int + 1), threshold));
        }
        i = i + 1;
    }
    assert(z.structures@.take(i as int) =~= z.structures@);
    search_many(z, m, start, &goals)
}

/// The decaying structure is this close to rotting away.
pub open spec fn dying_soon(
    s: Structure,
    ground: crate::model::Terrain,
    cfg: crate::checks::DecayConfig,
    threshold: u128,
) -> bool {
    match crate::checks::spec_live_tickcount(s, ground, cfg) {
        Some(v) => v <= threshold as int,
        None => 10000 <= threshold as int,
    }
}

/// Non-wall repairable structures about to decay away.
pub open spec fn dying_goals(
    z: Zone,
    ss: Seq<Structure>,
    cfg: crate::checks::DecayConfig,
    threshold: u128,
) -> Seq<(Pos, u32)>
    decreases ss.len(),
{
    if ss.len() == 0 {
        Seq::empty()
    } else {
        let front = dying_goals(z, ss.drop_last(), cfg, threshold);
        let s = ss.last();
        if s.kind != StructureKind::Wall && crate::checks::spec_repairable(s) && dying_soon(
            s,
            z.terrain_at(s.pos),
            cfg,
            threshold,
        ) {
            front.push((s.pos, 3u32))
        } else {
            front
        }
    }
}

/// Nearest repairable non-wall structure whose remaining decay lifetime
/// has fallen to the threshold.
pub fn find_nearest_repairable_item_except_wall_dying(
    z: &Zone,
    m: &CostMatrix,
    start: Pos,
    threshold: u128,
    cfg: &crate::checks::DecayConfig,
) -> (r: PathResult)
    requires
        z.wf(),
        m.wf(),
        start.wf(),
        cfg.wf(),
    ensures
        result_over(*z, *m, start, dying_goals(*z, z.structures@, *cfg, threshold), r),
{
    let mut goals: Vec<(Pos, u32)> = Vec::new();
    let mut i: usize = 0;
    assert(z.structures@.take(0) =~= Seq::<Structure>::empty());
    assert(goals@ =~= dying_goals(*z, z.structures@.take(0), *cfg, threshold));
    while i < z.structures.len()
        invariant
            z.wf(),
            cfg.wf(),
            i <= z.structures@.len(),
            goals@ == dying_goals(*z, z.structures@.take(i as int), *cfg, threshold),
        decreases z.structures@.len() - i,
    {
        proof {
            assert(z.structures@.take(i as int + 1).drop_last() =~= z.structures@.take(i as int));
            assert(z.structures@.take(i as int + 1).last() == z.structures@[i as int]);
        }
        let s = &z.structures[i];
        if s.kind != StructureKind::Wall && crate::checks::check_repairable(s) {
            let ground = z.terrain[s.pos.y as usize * 50 + s.pos.x as usize];
            assert(ground == z.terrain_at(z.structures@[i as int].pos));
            let ltc = crate::checks::get_live_tickcount(s, ground, cfg);
            let left: u128 = match ltc {
                Some(v) => v,
                None => 10000,
            };
            if left <= threshold {
                goals.push((s.pos, 3));
                assert(goals@ =~= dying_goals(
                    *z,
                    z.structures@.take(i as int + 1),
                    *cfg,
                    threshold,
                ));
            }
        }
        i = i + 1;
    }
    assert(z.structures@.take(i as int) =~= z.structures@);
    search_many(z, m, start, &goals)
}

/// Structures of one kind that can take a deposit, with a demanded free
/// share of capacity.
pub open spec fn kinded_transfer_goals(
    ss: Seq<Structure>,
    skind: StructureKind,
    rate_permille: int,
) -> Seq<(Pos, u32)>
    decreases ss.len(),
{
    if ss.len() == 0 {
        Seq::empty()
    } else {
        let front = kinded_transfer_goals(ss.drop_last(), skind, rate_permille);
        if ss.last().kind == skind && crate::checks::spec_transferable(ss.last(), rate_permille) {
            front.push((ss.last().pos, 1u32))
        } else {
            front
        }
    }
}

/// Nearest structure of one kind with room for a deposit.  A search-cost
/// ceiling keeps the agent from detouring far for a low-priority sink:
/// over the ceiling the result is discarded as incomplete.
pub fn find_nearest_transferable_structure(
    z: &Zone,
    m: &CostMatrix,
    start: Pos,
    structure_type: &StructureKind,
    resource_type: &ResourceType,
    max_cost: Option<u32>,
    capacity_rate: Option<u32>,
) -> (r: PathResult)
    requires
        z.wf(),
        m.wf(),
        start.wf(),
    ensures
        ({
            let g = kinded_transfer_goals(z.structures@, *structure_type, match capacity_rate {
                Some(v) => v as int,
                None => 0,
            });
            match max_cost {
                None => result_over(*z, *m, start, g, r),
                Some(mc) => {
                    &&& (r.complete ==> result_over(*z, *m, start, g, r) && r.cost <= mc)
                    &&& (!r.complete ==> r.steps@.len() == 0 && r.target is None)
                    &&& (crate::search::in_goal_range(g, start) ==> r.complete && r.steps@.len()
                        == 0)
                },
            }
        }),
{
    let mut goals: Vec<(Pos, u32)> = Vec::new();
    let mut i: usize = 0;
    let ghost rate: int = match capacity_rate {
        Some(v) => v as int,
        None => 0,
    };
    assert(z.structures@.take(0) =~= Seq::<Structure>::empty());
    assert(goals@ =~= kinded_transfer_goals(z.structures@.take(0), *structure_type, rate));
    while i < z.structures.len()
        invariant
            z.wf(),
            i <= z.structures@.len(),
            rate == match capacity_rate {
                Some(v) => v as int,
                None => 0,
            },
            goals@ == kinded_transfer_goals(z.structures@.take(i as int), *structure_type, rate),
        decreases z.structures@.len() - i,
    {
        proof {
            assert(z.structures@.take(i as int + 1).drop_last() =~= z.structures@.take(i as int));
            assert(z.structures@.take(i as int + 1).last() == z.structures@[i as int]);
        }
        let s = &z.structures[i];
        if s.kind == *structure_type {
            if crate::checks::check_transferable(s, resource_type, capacity_rate) {
                goals.push((s.pos, 1));
                assert(goals@ =~= kinded_transfer_goals(
                    z.structures@.take(i as int + 1),
                    *structure_type,
                    rate,
                ));
            }
        }
        i = i + 1;
    }
    assert(z.structures@.take(i as int) =~= z.structures@);
    let r = search_many(z, m, start, &goals);
    match max_cost {
        Some(mc) => {
            if r.complete && r.cost > mc {
                return PathResult {
                    steps: Vec::new(),
                    complete: false,
                    cost: 0,
                    target: None,
                };
            }
            r
        }
        None => r,
    }
}

/// This population's build sites with at most `threshold` work left.
pub open spec fn site_goals(cs: Seq<crate::model::ConstructionSite>, threshold: u32) -> Seq<
    (Pos, u32),
>
    decreases cs.len(),
{
    if cs.len() == 0 {
        Seq::empty()
    } else {
        let front = site_goals(cs.drop_last(), threshold);
        if crate::stats::build_left(cs.last()) <= threshold {
            front.push((cs.last().pos, 3u32))
        } else {
            front
        }
    }
}

/// Nearest build site with at most `threshold` work left.
pub fn find_nearest_construction_site(z: &Zone, m: &CostMatrix, start: Pos, threshold: u32) -> (r:
    PathResult)
    requires
        z.wf(),
        m.wf(),
        start.wf(),
    ensures
        result_over(*z, *m, start, site_goals(z.sites@, threshold), r),
{
    let mut goals: Vec<(Pos, u32)> = Vec::new();
    let mut i: usize = 0;
    assert(z.sites@.take(0) =~= Seq::<crate::model::ConstructionSite>::empty());
    assert(goals@ =~= site_goals(z.sites@.take(0), threshold));
    while i < z.sites.len()
        invariant
            z.wf(),
            i <= z.sites@.len(),
            goals@ == site_goals(z.sites@.take(i as int), threshold),
        decreases z.sites@.len() - i,
    {
        proof {
            assert(z.sites@.take(i as int + 1).drop_last() =~= z.sites@.take(i as int));
            assert(z.sites@.take(i as int + 1).last() == z.sites@[i as int]);
        }
        let cs = &z.sites[i];
        let left = cs.progress_total - cs.progress;
        if left <= threshold {
            goals.push((cs.pos, 3));
            assert(goals@ =~= site_goals(z.sites@.take(i as int + 1), threshold));
        }
        i = i + 1;
    }
    assert(z.sites@.take(i as int) =~= z.sites@);
    search_many(z, m, start, &goals)
}

/// Hostile agents in the zone, each with the caller's engagement range.
pub open spec fn enemy_goals(agents: Seq<crate::model::AgentPresence>, range: u32) -> Seq<
    (Pos, u32),
>
    decreases agents.len(),
{
    if agents.len() == 0 {
        Seq::empty()
    } else {
        let front = enemy_goals(agents.drop_last(), range);
        if !agents.last().mine {
            front.push((agents.last().pos, range))
        } else {
            front
        }
    }
}

/// Nearest hostile agent, approached to the given engagement range.
pub fn find_nearest_enemy(z: &Zone, m: &CostMatrix, start: Pos, range: u32) -> (r: PathResult)
    requires
        z.wf(),
        m.wf(),
        start.wf(),
    ensures
        result_over(*z, *m, start, enemy_goals(z.agents@, range), r),
{
    let mut goals: Vec<(Pos, u32)> = Vec::new();
    let mut i: usize = 0;
    assert(z.agents@.take(0) =~= Seq::<crate::model::AgentPresence>::empty());
    assert(goals@ =~= enemy_goals(z.agents@.take(0), range));
    while i < z.agents.len()
        invariant
            z.wf(),
            i <= z.agents@.len(),
            goals@ == enemy_goals(z.agents@.take(i as int), range),
        decreases z.agents@.len() - i,
    {
        proof {
            assert(z.agents@.take(i as int + 1).drop_last() =~= z.agents@.take(i as int));
            assert(z.agents@.take(i as int + 1).last() == z.agents@[i as int]);
        }
        if z.agents[i].mine == false {
            goals.push((z.agents[i].pos, range));
            assert(goals@ =~= enemy_goals(z.agents@.take(i as int + 1), range));
        }
        i = i + 1;
    }
    assert(z.agents@.take(i as int) =~= z.agents@);
    search_many(z, m, start, &goals)
}

/// This population's controller structures.
pub open spec fn controller_goals(ss: Seq<Structure>) -> Seq<(Pos, u32)>
    decreases ss.len(),
{
    if ss.len() == 0 {
        Seq::empty()
    } else {
        let front = controller_goals(ss.drop_last());
        if ss.last().kind == StructureKind::Controller && ss.last().owner == Owner::Mine {
            front.push((ss.last().pos, 3u32))
        } else {
            front
        }
    }
}

/// Nearest controller of this population, approached to working range.
pub fn find_nearest_room_controler(z: &Zone, m: &CostMatrix, start: Pos) -> (r: PathResult)
    requires
        z.wf(),
        m.wf(),
        start.wf(),
    ensures
        result_over(*z, *m, start, controller_goals(z.structures@), r),
{
    let mut goals: Vec<(Pos, u32)> = Vec::new();
    let mut i: usize = 0;
    assert(z.structures@.take(0) =~= Seq::<Structure>::empty());
    assert(goals@ =~= controller_goals(z.structures@.take(0)));
    while i < z.structures.len()
        invariant
            z.wf(),
            i <= z.structures@.len(),
            goals@ == controller_goals(z.structures@.take(i as int)),
        decreases z.structures@.len() - i,
    {
        proof {
            assert(z.structures@.take(i as int + 1).drop_last() =~= z.structures@.take(i as int));
            assert(z.structures@.take(i as int + 1).last() == z.structures@[i as int]);
        }
        let s = &z.structures[i];
        if s.kind == StructureKind::Controller && s.owner == Owner::Mine {
            goals.push((s.pos, 3));
            assert(goals@ =~= controller_goals(z.structures@.take(i as int + 1)));
        }
        i = i + 1;
    }
    assert(z.structures@.take(i as int) =~= z.structures@);
    search_many(z, m, start, &goals)
}

/// Active energy nodes with the keep-clear ring an idle agent should leave.
pub open spec fn flee_source_goals(srcs: Seq<SourceNode>) -> Seq<(Pos, u32)>
    decreases srcs.len(),
{
    if srcs.len() == 0 {
        Seq::empty()
    } else {
        let front = flee_source_goals(srcs.drop_last());
        if srcs.last().active() {
            front.push((srcs.last().pos, 3u32))
        } else {
            front
        }
    }
}

/// Shortest evasive path that clears the harvesting lanes around every
/// active energy node.
pub fn find_flee_path_from_active_source(z: &Zone, m: &CostMatrix, start: Pos) -> (r: PathResult)
    requires
        z.wf(),
        m.wf(),
        start.wf(),
    ensures
        crate::search::flee_result_over(*z, *m, start, flee_source_goals(z.sources@), r),
{
    let mut goals: Vec<(Pos, u32)> = Vec::new();
    let mut i: usize = 0;
    assert(z.sources@.take(0) =~= Seq::<SourceNode>::empty());
    assert(goals@ =~= flee_source_goals(z.sources@.take(0)));
    while i < z.sources.len()
        invariant
            z.wf(),
            i <= z.sources@.len(),
            goals@ == flee_source_goals(z.sources@.take(i as int)),
        decreases z.sources@.len() - i,
    {
        proof {
            assert(z.sources@.take(i as int + 1).drop_last() =~= z.sources@.take(i as int));
            assert(z.sources@.take(i as int + 1).last() == z.sources@[i as int]);
        }
        if z.sources[i].energy > 0 {
            goals.push((z.sources[i].pos, 3));
            assert(goals@ =~= flee_source_goals(z.sources@.take(i as int + 1)));
        }
        i = i + 1;
    }
    assert(z.sources@.take(i as int) =~= z.sources@);
    crate::search::search_flee(z, m, start, &goals)
}

/// Every pile goal stands where a matching pile lies.
pub proof fn lemma_pile_goal_members(piles: Seq<DroppedResource>, kind: ResourceKind, k: int)
    requires
        0 <= k < pile_goals(piles, kind).len(),
    ensures
        exists|i: int|
            0 <= i < piles.len() && kind_matches((#[trigger] piles[i]).resource, kind)
                && pile_goals(piles, kind)[k] == (piles[i].pos, 1u32),
    decreases piles.len(),
{
    if piles.len() > 0 {
        let front = pile_goals(piles.drop_last(), kind);
        if kind_matches(piles.last().resource, kind) && k == front.len() {
            assert(piles[piles.len() - 1] == piles.last());
        } else {
            lemma_pile_goal_members(piles.drop_last(), kind, k);
            let i = choose|i: int|
                0 <= i < piles.drop_last().len() && kind_matches(
                    (#[trigger] piles.drop_last()[i]).resource,
                    kind,
                ) && pile_goals(piles.drop_last(), kind)[k] == (piles.drop_last()[i].pos, 1u32);
            assert(piles[i] == piles.drop_last()[i]);
        }
    }
}

/// Every loot goal stands where matching remains lie.
pub proof fn lemma_loot_goal_members(loots: Seq<LootStore>, kind: ResourceKind, k: int)
    requires
        0 <= k < loot_goals(loots, kind).len(),
    ensures
        exists|i: int|
            0 <= i < loots.len() && loot_has_kind(#[trigger] loots[i], kind) && loot_goals(
                loots,
                kind,
            )[k] == (loots[i].pos, 1u32),
    decreases loots.len(),
{
    if loots.len() > 0 {
        let front = loot_goals(loots.drop_last(), kind);
        if loot_has_kind(loots.last(), kind) && k == front.len() {
            assert(loots[loots.len() - 1] == loots.last());
        } else {
            lemma_loot_goal_members(loots.drop_last(), kind, k);
            let i = choose|i: int|
                0 <= i < loots.drop_last().len() && loot_has_kind(
                    #[trigger] loots.drop_last()[i],
                    kind,
                ) && loot_goals(loots.drop_last(), kind)[k] == (loots.drop_last()[i].pos, 1u32);
            assert(loots[i] == loots.drop_last()[i]);
        }
    }
}

/// Tier ordering: while any ground pickup of the kind is visible, the
/// gathering searches run over the ground tier alone, so every candidate
/// they can return is the position of a pile, a tombstone or a ruin —
/// never of a reserve structure.
pub proof fn lemma_ground_precedes_reserve(
    z: Zone,
    kind: ResourceKind,
    excl: ExclusionFlags,
    terminal_keep_energy: u32,
    k: int,
)
    requires
        tier1_goals(z, kind).len() > 0,
        0 <= k < stored_search_goals(z, kind, false, excl, terminal_keep_energy).len(),
    ensures
        stored_search_goals(z, kind, false, excl, terminal_keep_energy) == tier1_goals(z, kind),
        exists|i: int|
            0 <= i < z.piles@.len() && kind_matches((#[trigger] z.piles@[i]).resource, kind)
                && stored_search_goals(z, kind, false, excl, terminal_keep_energy)[k] == (
            z.piles@[i].pos,
            1u32,
        ) || exists|i: int|
            0 <= i < z.tombstones@.len() && loot_has_kind(#[trigger] z.tombstones@[i], kind)
                && stored_search_goals(z, kind, false, excl, terminal_keep_energy)[k] == (
            z.tombstones@[i].pos,
            1u32,
        ) || exists|i: int|
            0 <= i < z.ruins@.len() && loot_has_kind(#[trigger] z.ruins@[i], kind)
                && stored_search_goals(z, kind, false, excl, terminal_keep_energy)[k] == (
            z.ruins@[i].pos,
            1u32,
        ),
{
    let g = tier1_goals(z, kind);
    let p = pile_goals(z.piles@, kind);
    let t = loot_goals(z.tombstones@, kind);
    let r = loot_goals(z.ruins@, kind);
    if k < p.len() {
        lemma_pile_goal_members(z.piles@, kind, k);
    } else if k < p.len() + t.len() {
        lemma_loot_goal_members(z.tombstones@, kind, k - p.len());
        assert(g[k] == t[k - p.len()]);
    } else {
        lemma_loot_goal_members(z.ruins@, kind, k - p.len() - t.len());
        assert(g[k] == r[k - p.len() - t.len()]);
    }
}

/// Every reserve goal stands where a structure passing the whole reserve
/// filter lies; in particular nothing the exclusion flags rule out ever
/// enters the candidate set.
pub proof fn lemma_reserve_goal_members(
    ss: Seq<Structure>,
    kind: ResourceKind,
    excl: ExclusionFlags,
    terminal_keep_energy: u32,
    k: int,
)
    requires
        0 <= k < reserve_goals(ss, kind, excl, terminal_keep_energy).len(),
    ensures
        exists|i: int|
            0 <= i < ss.len() && reserve_ok(#[trigger] ss[i], kind, excl, terminal_keep_energy)
                && reserve_goals(ss, kind, excl, terminal_keep_energy)[k] == (
            ss[i].pos,
            reserve_range(ss[i].kind),
        ),
    decreases ss.len(),
{
    if ss.len() > 0 {
        let front = reserve_goals(ss.drop_last(), kind, excl, terminal_keep_energy);
        if reserve_ok(ss.last(), kind, excl, terminal_keep_energy) && k == front.len() {
            assert(ss[ss.len() - 1] == ss.last());
        } else {
            lemma_reserve_goal_members(ss.drop_last(), kind, excl, terminal_keep_energy, k);
            let i = choose|i: int|
                0 <= i < ss.drop_last().len() && reserve_ok(
                    #[trigger] ss.drop_last()[i],
                    kind,
                    excl,
                    terminal_keep_energy,
                ) && reserve_goals(ss.drop_last(), kind, excl, terminal_keep_energy)[k] == (
                ss.drop_last()[i].pos,
                reserve_range(ss.drop_last()[i].kind),
                );
            assert(ss[i] == ss.drop_last()[i]);
        }
    }
}

/// Exclusion respected: when the caller rules the storage tier out and
/// every reserve structure in sight is of that tier, the reserve tier
/// yields no candidate at all, so the resolver falls through to the
/// later tiers.
pub proof fn lemma_exclusion_respected(
    ss: Seq<Structure>,
    kind: ResourceKind,
    excl: ExclusionFlags,
    terminal_keep_energy: u32,
)
    requires
        excl.storages,
        forall|i: int|
            0 <= i < ss.len() ==> (#[trigger] ss[i]).kind == StructureKind::Storage || ss[i].kind
                == StructureKind::Container || !reserve_kind_ok(ss[i].kind, kind),
    ensures
        reserve_goals(ss, kind, excl, terminal_keep_energy).len() == 0,
    decreases ss.len(),
{
    if ss.len() > 0 {
        assert(forall|i: int|
            0 <= i < ss.drop_last().len() ==> #[trigger] ss.drop_last()[i] == ss[i]);
        lemma_exclusion_respected(ss.drop_last(), kind, excl, terminal_keep_energy);
        assert(ss[ss.len() - 1] == ss.last());
        assert(!reserve_ok(ss.last(), kind, excl, terminal_keep_energy));
    }
}

/// Nearest ground pile holding the requested kind.
pub fn find_nearest_dropped_resource(
    z: &Zone,
    m: &CostMatrix,
    start: Pos,
    resource_kind: ResourceKind,
) -> (r: PathResult)
    requires
        z.wf(),
        m.wf(),
        start.wf(),
    ensures
        result_over(*z, *m, start, pile_goals(z.piles@, resource_kind), r),
{
    let mut goals: Vec<(Pos, u32)> = Vec::new();
    push_pile_goals(z, resource_kind, &mut goals);
    search_many(z, m, start, &goals)
}

} // verus!
