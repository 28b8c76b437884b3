//! The per-agent state machine: the gather/act toggle, the memoized target
//! with its time-to-live, and target re-resolution through the tiered
//! resolver.
//!
//! Agent memory is a typed record; the host persists it between ticks.  The
//! memoized target travels as an encoded position so that a stale or
//! garbled entry parses to nothing and forces re-resolution.

use vstd::prelude::*;

use crate::checks::{kind_matches, spec_kind_list};
use crate::codec::ZonePos;
use crate::cost::CostMatrix;
use crate::model::{
    adjacent, cheb_dist, cheb_dist_exec, store_lookup, stored_of, AttackerKind, PartKind, Pos,
    ResourceKind, ResourceType, Role, StructureKind, Zone,
};
use crate::resolver::{
    active_search_goals, exhausted_search_goals, find_nearest_active_source,
    find_nearest_enemy, find_nearest_exhausted_source, find_nearest_stored_source, loot_has_kind,
    loot_has_kind_exec, reserve_excluded, stored_search_goals, struct_has_kind_over,
    struct_has_kind_over_exec, ExclusionFlags,
};
use crate::search::{
    end_of, find_path, lemma_fallthrough_owed_nothing, nothing_owed, passable, result_over,
    PathResult,
};

verus! {

/// The persistent per-agent record.  Absent optional fields mean the key
/// was never written or was deleted.  The host store keeps the record as
/// flat values; a stored target that fails to parse on the way in is
/// treated as absent, so this record only ever holds a well-formed one.
#[derive(Clone, Copy, Debug)]
pub struct AgentMemory {
    pub role: Option<Role>,
    pub gathering: bool,
    pub target_pos: Option<ZonePos>,
    pub target_pos_count: Option<i32>,
    pub fleeing_count: Option<i32>,
    pub harvested_from_storage: Option<bool>,
    pub harvested_from_terminal: Option<bool>,
    pub harvested_from_link: Option<bool>,
    pub will_harvest_from_storage: Option<bool>,
}

impl AgentMemory {
    /// A fresh record: no role, gathering, nothing memoized.
    pub fn new() -> (r: AgentMemory)
        ensures
            r.role is None,
            r.gathering,
            r.target_pos is None,
            r.target_pos_count is None,
            r.fleeing_count is None,
            r.harvested_from_storage is None,
            r.harvested_from_terminal is None,
            r.harvested_from_link is None,
            r.will_harvest_from_storage is None,
    {
        AgentMemory {
            role: None,
            gathering: true,
            target_pos: None,
            target_pos_count: None,
            fleeing_count: None,
            harvested_from_storage: None,
            harvested_from_terminal: None,
            harvested_from_link: None,
            will_harvest_from_storage: None,
        }
    }
}

/// Result codes of the host's fire-and-forget commands.
#[derive(Clone, Copy, PartialEq, Eq, Structural, Debug)]
pub enum CommandResult {
    Done,
    NotInRange,
    Tired,
    NoPath,
    NameConflict,
    Failed,
}

/// What the gather/act toggle must do: a full load ends Gathering, an
/// empty load ends Acting, and either transition clears the memoized
/// target, its time-to-live, and the tier flag of the run that ended.
pub open spec fn spec_toggle(mem: AgentMemory, free_capacity: u32, used_capacity: u32)
    -> AgentMemory {
    if mem.gathering && free_capacity == 0 {
        AgentMemory {
            gathering: false,
            target_pos: None,
            target_pos_count: None,
            will_harvest_from_storage: None,
            ..mem
        }
    } else if !mem.gathering && used_capacity == 0 {
        AgentMemory {
            gathering: true,
            target_pos: None,
            target_pos_count: None,
            harvested_from_storage: None,
            ..mem
        }
    } else {
        mem
    }
}

/// Step the gather/act toggle on the agent's current load.
pub fn toggle_gathering(mem: AgentMemory, free_capacity: u32, used_capacity: u32) -> (r:
    AgentMemory)
    ensures
        r == spec_toggle(mem, free_capacity, used_capacity),
{
    if mem.gathering && free_capacity == 0 {
        AgentMemory {
            gathering: false,
            target_pos: None,
            target_pos_count: None,
            will_harvest_from_storage: None,
            ..mem
        }
    } else if !mem.gathering && used_capacity == 0 {
        AgentMemory {
            gathering: true,
            target_pos: None,
            target_pos_count: None,
            harvested_from_storage: None,
            ..mem
        }
    } else {
        mem
    }
}

/// After the transition out of Gathering, no memoized target and no
/// time-to-live remain.
pub proof fn lemma_toggle_clears_target(mem: AgentMemory, free_capacity: u32, used_capacity: u32)
    requires
        mem.gathering,
        free_capacity == 0,
    ensures
        spec_toggle(mem, free_capacity, used_capacity).target_pos is None,
        spec_toggle(mem, free_capacity, used_capacity).target_pos_count is None,
        !spec_toggle(mem, free_capacity, used_capacity).gathering,
{
}

/// What a move outcome does to the memoized target: an unreachability
/// result drops the target and its counter at once — the countdown is
/// reserved for failures that leave the target plausible; any such failure
/// burns one tick of the time-to-live, and at zero the target and the
/// counter are both dropped; success leaves memory alone.
pub open spec fn spec_note_move(mem: AgentMemory, outcome: CommandResult) -> AgentMemory {
    if outcome == CommandResult::Done {
        mem
    } else if outcome == CommandResult::NoPath {
        AgentMemory { target_pos: None, target_pos_count: None, ..mem }
    } else {
        let count = match mem.target_pos_count {
            Some(c) => c,
            None => 10int as i32,
        };
        if count - 1 <= 0 {
            AgentMemory { target_pos: None, target_pos_count: None, ..mem }
        } else {
            AgentMemory { target_pos_count: Some((count - 1) as i32), ..mem }
        }
    }
}

/// Note the outcome of this tick's move attempt against the memoized
/// target.
pub fn note_move_result(mem: AgentMemory, outcome: CommandResult) -> (r: AgentMemory)
    ensures
        r == spec_note_move(mem, outcome),
{
    if outcome == CommandResult::Done {
        mem
    } else if outcome == CommandResult::NoPath {
        AgentMemory { target_pos: None, target_pos_count: None, ..mem }
    } else {
        let count: i32 = match mem.target_pos_count {
            Some(c) => c,
            None => 10,
        };
        if count <= i32::MIN + 1 || count - 1 <= 0 {
            assert(count <= i32::MIN + 1 ==> count - 1 <= 0);
            AgentMemory { target_pos: None, target_pos_count: None, ..mem }
        } else {
            AgentMemory { target_pos_count: Some(count - 1), ..mem }
        }
    }
}

/// A memoized target on its last tick of trust: one failed move that is
/// not an unreachability result deletes the target and its counter.
pub proof fn lemma_ttl_exhaustion(mem: AgentMemory, outcome: CommandResult)
    requires
        mem.target_pos_count == Some(1i32),
        outcome != CommandResult::Done,
        outcome != CommandResult::NoPath,
    ensures
        spec_note_move(mem, outcome).target_pos is None,
        spec_note_move(mem, outcome).target_pos_count is None,
{
}

/// The exclusions a gathering agent carries: the reserve tiers it drew
/// from on its last run, which it must not drain again at once.
pub open spec fn spec_gather_exclusions(mem: AgentMemory) -> ExclusionFlags {
    ExclusionFlags {
        storages: mem.harvested_from_storage == Some(true),
        terminal: mem.harvested_from_terminal == Some(true),
        link: mem.harvested_from_link == Some(true),
    }
}

/// Read the exclusion flags out of agent memory.
pub fn gather_exclusions(mem: &AgentMemory) -> (r: ExclusionFlags)
    ensures
        r == spec_gather_exclusions(*mem),
{
    ExclusionFlags {
        storages: match mem.harvested_from_storage {
            Some(b) => b,
            None => false,
        },
        terminal: match mem.harvested_from_terminal {
            Some(b) => b,
            None => false,
        },
        link: match mem.harvested_from_link {
            Some(b) => b,
            None => false,
        },
    }
}

/// Which tier the target re-resolution settled on.
#[derive(Clone, Copy, PartialEq, Eq, Structural, Debug)]
pub enum TargetTier {
    ActivePrimary,
    Reserve,
    LastResort,
    Hold,
    Kept,
}

/// Outcome of a target re-resolution.
#[derive(Clone, Debug)]
pub struct TargetDecision {
    pub mem: AgentMemory,
    pub path: PathResult,
    pub target: Pos,
    pub tier: TargetTier,
}

/// A tier's search produced a usable travel path.
pub open spec fn accepted_path(d: TargetDecision, start: Pos) -> bool {
    &&& d.path.complete
    &&& d.path.steps@.len() > 0
    &&& d.target == d.path.steps@.last()
    &&& d.target.wf()
}

/// Memory written for an accepted target: the encoded end of the path, a
/// confidence-dependent time-to-live, and the reserve-tier marker.
pub open spec fn target_written(
    d: TargetDecision,
    mem: AgentMemory,
    zone_id: u16,
    ttl: i32,
    from_reserve: bool,
) -> bool {
    &&& d.mem.target_pos == Some(ZonePos { zone: zone_id, x: d.target.x, y: d.target.y })
    &&& d.mem.target_pos_count == Some(ttl)
    &&& d.mem.will_harvest_from_storage == Some(from_reserve)
    &&& d.mem.role == mem.role
    &&& d.mem.gathering == mem.gathering
    &&& d.mem.fleeing_count == mem.fleeing_count
    &&& d.mem.harvested_from_storage == mem.harvested_from_storage
    &&& d.mem.harvested_from_terminal == mem.harvested_from_terminal
    &&& d.mem.harvested_from_link == mem.harvested_from_link
}

/// The ground-and-primary candidate set of this re-resolution, as the
/// role orders it.
pub open spec fn reset_active_goals(
    z: Zone,
    harvest_kind: ResourceKind,
    is_harvester: bool,
) -> Seq<(Pos, u32)> {
    active_search_goals(z, harvest_kind, !is_harvester)
}

/// The reserve candidate set of this re-resolution.
pub open spec fn reset_reserve_goals(
    z: Zone,
    mem: AgentMemory,
    harvest_kind: ResourceKind,
    is_harvester: bool,
    terminal_keep_energy: u32,
) -> Seq<(Pos, u32)> {
    stored_search_goals(
        z,
        harvest_kind,
        is_harvester,
        spec_gather_exclusions(mem),
        terminal_keep_energy,
    )
}

/// The whole contract of a target re-resolution, by the tier it settled
/// on.  The tiers come in the role's order — a pure gatherer tries active
/// primary sources before the reserve tier, a redistributor the mirror
/// image — and a later tier may be chosen only when every earlier tier's
/// search owed nothing; the hold fallback may stand only when none of the
/// three owed anything.  The time-to-live mirrors confidence: first
/// choice 20 ticks, second choice 10, last resort 5.
pub open spec fn reset_contract(
    z: Zone,
    m: CostMatrix,
    zone_id: u16,
    start: Pos,
    mem: AgentMemory,
    is_harvester: bool,
    harvest_kind: ResourceKind,
    terminal_keep_energy: u32,
    d: TargetDecision,
) -> bool {
    let active = reset_active_goals(z, harvest_kind, is_harvester);
    let reserve = reset_reserve_goals(z, mem, harvest_kind, is_harvester, terminal_keep_energy);
    match d.tier {
        TargetTier::ActivePrimary => {
            &&& result_over(z, m, start, active, d.path)
            &&& (!is_harvester ==> nothing_owed(z, m, start, reserve))
            &&& accepted_path(d, start)
            &&& target_written(d, mem, zone_id, if is_harvester { 20i32 } else { 10i32 }, false)
        },
        TargetTier::Reserve => {
            &&& result_over(z, m, start, reserve, d.path)
            &&& (is_harvester ==> nothing_owed(z, m, start, active))
            &&& accepted_path(d, start)
            &&& target_written(d, mem, zone_id, if is_harvester { 10i32 } else { 20i32 }, true)
        },
        TargetTier::LastResort => {
            &&& result_over(z, m, start, exhausted_search_goals(z, harvest_kind), d.path)
            &&& nothing_owed(z, m, start, active)
            &&& nothing_owed(z, m, start, reserve)
            &&& accepted_path(d, start)
            &&& target_written(d, mem, zone_id, 5i32, true)
        },
        TargetTier::Hold => {
            &&& d.path.steps@.len() == 0
            &&& d.target == start
            &&& d.mem == mem
            &&& nothing_owed(z, m, start, active)
            &&& nothing_owed(z, m, start, reserve)
            &&& nothing_owed(z, m, start, exhausted_search_goals(z, harvest_kind))
        },
        TargetTier::Kept => false,
    }
}

/// Re-resolve the memoized target through the tiers.  A pure gatherer
/// tries active primary sources before the reserve tier; a redistributor
/// tries the reserve tier first.  Ground pickups ride along with the first
/// search, last-resort nodes come after both, and an agent with nothing
/// anywhere holds position with its memory untouched.  Each accepted tier
/// writes the target back with its confidence-dependent time-to-live:
/// first choice 20 ticks, second choice 10, last resort 5.
pub fn reset_source_target(
    z: &Zone,
    m: &CostMatrix,
    zone_id: u16,
    start: Pos,
    mem: AgentMemory,
    is_harvester: bool,
    harvest_kind: &ResourceKind,
    terminal_keep_energy: u32,
) -> (d: TargetDecision)
    requires
        z.wf(),
        m.wf(),
        start.wf(),
    ensures
        reset_contract(
            *z,
            *m,
            zone_id,
            start,
            mem,
            is_harvester,
            *harvest_kind,
            terminal_keep_energy,
            d,
        ),
{
    let excl = gather_exclusions(&mem);
    let ghost active = reset_active_goals(*z, *harvest_kind, is_harvester);
    let ghost reserve = reset_reserve_goals(
        *z,
        mem,
        *harvest_kind,
        is_harvester,
        terminal_keep_energy,
    );
    if is_harvester {
        let res = find_nearest_active_source(z, m, start, harvest_kind, false);
        if res.complete && res.steps.len() > 0 {
            let target = res.steps[res.steps.len() - 1];
            let new_mem = AgentMemory {
                target_pos: Some(ZonePos { zone: zone_id, x: target.x, y: target.y }),
                target_pos_count: Some(20),
                will_harvest_from_storage: Some(false),
                ..mem
            };
            return TargetDecision {
                mem: new_mem,
                path: res,
                target,
                tier: TargetTier::ActivePrimary,
            };
        }
        proof {
            lemma_fallthrough_owed_nothing(*z, *m, start, active, res);
        }
        let res = find_nearest_stored_source(
            z,
            m,
            start,
            harvest_kind,
            true,
            excl,
            terminal_keep_energy,
        );
        if res.complete && res.steps.len() > 0 {
            let target = res.steps[res.steps.len() - 1];
            let new_mem = AgentMemory {
                target_pos: Some(ZonePos { zone: zone_id, x: target.x, y: target.y }),
                target_pos_count: Some(10),
                will_harvest_from_storage: Some(true),
                ..mem
            };
            return TargetDecision { mem: new_mem, path: res, target, tier: TargetTier::Reserve };
        }
        proof {
            lemma_fallthrough_owed_nothing(*z, *m, start, reserve, res);
        }
    } else {
        let res = find_nearest_stored_source(
            z,
            m,
            start,
            harvest_kind,
            false,
            excl,
            terminal_keep_energy,
        );
        if res.complete && res.steps.len() > 0 {
            let target = res.steps[res.steps.len() - 1];
            let new_mem = AgentMemory {
                target_pos: Some(ZonePos { zone: zone_id, x: target.x, y: target.y }),
                target_pos_count: Some(20),
                will_harvest_from_storage: Some(true),
                ..mem
            };
            return TargetDecision { mem: new_mem, path: res, target, tier: TargetTier::Reserve };
        }
        proof {
            lemma_fallthrough_owed_nothing(*z, *m, start, reserve, res);
        }
        let res = find_nearest_active_source(z, m, start, harvest_kind, true);
        if res.complete && res.steps.len() > 0 {
            let target = res.steps[res.steps.len() - 1];
            let new_mem = AgentMemory {
                target_pos: Some(ZonePos { zone: zone_id, x: target.x, y: target.y }),
                target_pos_count: Some(10),
                will_harvest_from_storage: Some(false),
                ..mem
            };
            return TargetDecision {
                mem: new_mem,
                path: res,
                target,
                tier: TargetTier::ActivePrimary,
            };
        }
        proof {
            lemma_fallthrough_owed_nothing(*z, *m, start, active, res);
        }
    }
    let res = find_nearest_exhausted_source(z, m, start, harvest_kind);
    if res.complete && res.steps.len() > 0 {
        let target = res.steps[res.steps.len() - 1];
        let new_mem = AgentMemory {
            target_pos: Some(ZonePos { zone: zone_id, x: target.x, y: target.y }),
            target_pos_count: Some(5),
            will_harvest_from_storage: Some(true),
            ..mem
        };
        return TargetDecision { mem: new_mem, path: res, target, tier: TargetTier::LastResort };
    }
    proof {
        lemma_fallthrough_owed_nothing(
            *z,
            *m,
            start,
            exhausted_search_goals(*z, *harvest_kind),
            res,
        );
    }
    // nothing anywhere: hold position
    TargetDecision {
        mem,
        path: PathResult { steps: Vec::new(), complete: true, cost: 0, target: None },
        target: start,
        tier: TargetTier::Hold,
    }
}

/// Another agent stands on the tile.
pub open spec fn occupied_by_other(z: Zone, p: Pos, self_id: u32) -> bool {
    exists|i: int|
        0 <= i < z.agents@.len() && (#[trigger] z.agents@[i]).pos == p && z.agents@[i].id
            != self_id
}

/// Whether another agent stands on the tile.
pub fn occupied_by_other_exec(z: &Zone, p: Pos, self_id: u32) -> (r: bool)
    ensures
        r == occupied_by_other(*z, p, self_id),
{
    let mut i: usize = 0;
    while i < z.agents.len()
        invariant
            i <= z.agents@.len(),
            forall|j: int|
                0 <= j < i ==> !((#[trigger] z.agents@[j]).pos == p && z.agents@[j].id != self_id),
        decreases z.agents@.len() - i,
    {
        let a = &z.agents[i];
        if a.pos.x == p.x && a.pos.y == p.y && a.id != self_id {
            assert(z.agents@[i as int].pos == p && z.agents@[i as int].id != self_id);
            return true;
        }
        i = i + 1;
    }
    false
}

/// The memoized target still deserves trust: one is stored, it lies in
/// this zone, and no other agent sits on its tile.
pub open spec fn target_trusted(z: Zone, zone_id: u16, self_id: u32, mem: AgentMemory) -> bool {
    &&& mem.target_pos matches Some(zp)
    &&& mem.target_pos.unwrap().zone == zone_id
    &&& !occupied_by_other(z, mem.target_pos.unwrap().spec_tile(), self_id)
}

/// Re-validate the memoized target and return the tick's travel plan: a
/// still-trusted target is kept with a fresh path to it, and anything
/// stale (absent, out of zone, or occupied by another agent) is dropped
/// and re-resolved through the tiers.
pub fn revalidate_target(
    z: &Zone,
    m: &CostMatrix,
    zone_id: u16,
    self_id: u32,
    start: Pos,
    mem: AgentMemory,
    is_harvester: bool,
    harvest_kind: &ResourceKind,
    terminal_keep_energy: u32,
) -> (d: TargetDecision)
    requires
        z.wf(),
        m.wf(),
        start.wf(),
    ensures
        target_trusted(*z, zone_id, self_id, mem) ==> {
            let zp = mem.target_pos.unwrap();
            &&& d.tier == TargetTier::Kept
            &&& d.mem == mem
            &&& d.target == zp.spec_tile()
            &&& (d.path.complete ==> crate::search::valid_steps(*z, *m, start, d.path.steps@)
                && cheb_dist(zp.spec_tile(), end_of(start, d.path.steps@)) <= 0)
            &&& (!d.path.complete ==> d.path.steps@.len() == 0)
            &&& (zp.spec_tile() == start ==> d.path.complete && d.path.steps@.len() == 0)
            &&& (zp.spec_tile().wf() && adjacent(start, zp.spec_tile()) && passable(
                *z,
                *m,
                zp.spec_tile(),
            ) ==> d.path.complete)
        },
        !target_trusted(*z, zone_id, self_id, mem) ==> d.tier != TargetTier::Kept
            && reset_contract(
            *z,
            *m,
            zone_id,
            start,
            AgentMemory { target_pos: None, ..mem },
            is_harvester,
            *harvest_kind,
            terminal_keep_energy,
            d,
        ),
{
    let trusted_tile: Option<Pos> = match mem.target_pos {
        Some(zp) => {
            if zp.zone == zone_id && !occupied_by_other_exec(z, zp.tile(), self_id) {
                Some(zp.tile())
            } else {
                None
            }
        }
        None => None,
    };
    match trusted_tile {
        Some(tile) => {
            let path = find_path(z, m, start, tile, 0);
            proof {
                if tile == start {
                    assert(cheb_dist(tile, start) <= 0);
                }
                if tile.wf() && adjacent(start, tile) && passable(*z, *m, tile) {
                    assert(exists|np: Pos|
                        np.wf() && adjacent(start, np) && passable(*z, *m, np) && cheb_dist(
                            tile,
                            np,
                        ) <= 0) by {
                        assert(tile.wf() && adjacent(start, tile) && passable(*z, *m, tile)
                            && cheb_dist(tile, tile) <= 0);
                    }
                }
            }
            TargetDecision { mem, path, target: tile, tier: TargetTier::Kept }
        }
        None => {
            let cleared = AgentMemory { target_pos: None, ..mem };
            reset_source_target(
                z,
                m,
                zone_id,
                start,
                cleared,
                is_harvester,
                harvest_kind,
                terminal_keep_energy,
            )
        }
    }
}

/// The direct pickup an agent attempts before moving, in fixed priority
/// order.
#[derive(Clone, Copy, PartialEq, Eq, Structural, Debug)]
pub enum GatherAction {
    PickupPile { index: usize },
    LootRuin { index: usize, resource: ResourceType },
    LootTombstone { index: usize, resource: ResourceType },
    HarvestNode { index: usize },
    HarvestMineral { index: usize },
    DrawReserve { index: usize, resource: ResourceType },
    MoveToTarget,
}

/// A ground pile the agent can pick up right now.
pub open spec fn pile_pickable(
    z: Zone,
    start: Pos,
    kind: ResourceKind,
    i: int,
) -> bool {
    cheb_dist(start, z.piles@[i].pos) <= 1 && kind_matches(z.piles@[i].resource, kind)
}

/// Remains the agent can loot right now.
pub open spec fn loot_lootable(
    loots: Seq<crate::model::LootStore>,
    start: Pos,
    kind: ResourceKind,
    i: int,
) -> bool {
    cheb_dist(start, loots[i].pos) <= 1 && loot_has_kind(loots[i], kind)
}

/// An adjacent, currently active energy node.
pub open spec fn node_harvestable(z: Zone, start: Pos, i: int) -> bool {
    cheb_dist(start, z.sources@[i].pos) <= 1 && z.sources@[i].active()
}

/// An adjacent mineral node.
pub open spec fn mineral_harvestable(z: Zone, start: Pos, i: int) -> bool {
    cheb_dist(start, z.minerals@[i].pos) <= 1
}

/// An adjacent reserve structure the agent may draw the kind from right
/// now: a container, storage, or (for energy) terminal that is not shut
/// out by the exclusion flags and holds something of the kind.
pub open spec fn reserve_drawable(
    z: Zone,
    start: Pos,
    kind: ResourceKind,
    excl: ExclusionFlags,
    i: int,
) -> bool {
    &&& cheb_dist(start, z.structures@[i].pos) <= 1
    &&& (z.structures@[i].kind == StructureKind::Container || z.structures@[i].kind
        == StructureKind::Storage || (z.structures@[i].kind == StructureKind::Terminal && kind
        == ResourceKind::Energy))
    &&& !reserve_excluded(z.structures@[i].kind, excl)
    &&& struct_has_kind_over(z.structures@[i], kind, 0)
}

/// What a gather-action choice must satisfy, by the action chosen: the
/// fixed priority order pile, ruin, tombstone, active node or mineral,
/// then reserve structure, each taken at its first match.
pub open spec fn gather_action_ok(
    z: Zone,
    start: Pos,
    harvest_kind: ResourceKind,
    will_harvest_from_storage: bool,
    excl: ExclusionFlags,
    r: GatherAction,
) -> bool {
    match r {
        GatherAction::PickupPile { index } => {
            &&& index < z.piles@.len()
            &&& pile_pickable(z, start, harvest_kind, index as int)
            &&& forall|j: int| 0 <= j < index ==> !pile_pickable(z, start, harvest_kind, j)
        },
        GatherAction::LootRuin { index, resource } => {
            &&& forall|j: int|
                0 <= j < z.piles@.len() ==> !pile_pickable(z, start, harvest_kind, j)
            &&& index < z.ruins@.len()
            &&& loot_lootable(z.ruins@, start, harvest_kind, index as int)
            &&& forall|j: int| 0 <= j < index ==> !loot_lootable(z.ruins@, start, harvest_kind, j)
            &&& kind_matches(resource, harvest_kind)
            &&& stored_of(z.ruins@[index as int].store@, resource) > 0
        },
        GatherAction::LootTombstone { index, resource } => {
            &&& forall|j: int|
                0 <= j < z.piles@.len() ==> !pile_pickable(z, start, harvest_kind, j)
            &&& forall|j: int|
                0 <= j < z.ruins@.len() ==> !loot_lootable(z.ruins@, start, harvest_kind, j)
            &&& index < z.tombstones@.len()
            &&& loot_lootable(z.tombstones@, start, harvest_kind, index as int)
            &&& forall|j: int|
                0 <= j < index ==> !loot_lootable(z.tombstones@, start, harvest_kind, j)
            &&& kind_matches(resource, harvest_kind)
            &&& stored_of(z.tombstones@[index as int].store@, resource) > 0
        },
        GatherAction::HarvestNode { index } => {
            &&& harvest_kind == ResourceKind::Energy
            &&& no_adjacent_loot(z, start, harvest_kind)
            &&& index < z.sources@.len()
            &&& node_harvestable(z, start, index as int)
            &&& forall|j: int| 0 <= j < index ==> !node_harvestable(z, start, j)
        },
        GatherAction::HarvestMineral { index } => {
            &&& harvest_kind == ResourceKind::Minerals
            &&& no_adjacent_loot(z, start, harvest_kind)
            &&& index < z.minerals@.len()
            &&& mineral_harvestable(z, start, index as int)
            &&& forall|j: int| 0 <= j < index ==> !mineral_harvestable(z, start, j)
        },
        GatherAction::DrawReserve { index, resource } => {
            &&& will_harvest_from_storage
            &&& no_adjacent_loot(z, start, harvest_kind)
            &&& no_adjacent_node(z, start, harvest_kind)
            &&& index < z.structures@.len()
            &&& reserve_drawable(z, start, harvest_kind, excl, index as int)
            &&& forall|j: int| 0 <= j < index ==> !reserve_drawable(z, start, harvest_kind, excl, j)
            &&& kind_matches(resource, harvest_kind)
            &&& stored_of(z.structures@[index as int].store@, resource) > 0
        },
        GatherAction::MoveToTarget => {
            &&& no_adjacent_loot(z, start, harvest_kind)
            &&& no_adjacent_node(z, start, harvest_kind)
            &&& (will_harvest_from_storage ==> forall|j: int|
                0 <= j < z.structures@.len() ==> !reserve_drawable(z, start, harvest_kind, excl, j))
        },
    }
}

/// Choose this tick's opportunistic pickup, in the fixed priority order:
/// ground pile, then ruin, then tombstone, then active node or mineral,
/// then an adjacent reserve structure if this run draws from reserves.
/// With nothing adjacent the agent falls back to moving toward its target.
pub fn choose_gather_action(
    z: &Zone,
    start: Pos,
    harvest_kind: &ResourceKind,
    will_harvest_from_storage: bool,
    excl: ExclusionFlags,
) -> (r: GatherAction)
    requires
        z.wf(),
    ensures
        gather_action_ok(*z, start, *harvest_kind, will_harvest_from_storage, excl, r),
{
    // ground piles
    let mut i: usize = 0;
    while i < z.piles.len()
        invariant
            i <= z.piles@.len(),
            z.wf(),
            forall|j: int| 0 <= j < i ==> !pile_pickable(*z, start, *harvest_kind, j),
        decreases z.piles@.len() - i,
    {
        let p = &z.piles[i];
        if cheb_dist_exec(start, p.pos) <= 1 {
            if crate::checks::check_resouce_type_kind_matching(&p.resource, harvest_kind) {
                return GatherAction::PickupPile { index: i };
            }
        }
        i = i + 1;
    }
    // ruins
    let mut i: usize = 0;
    while i < z.ruins.len()
        invariant
            i <= z.ruins@.len(),
            z.wf(),
            forall|j: int| 0 <= j < i ==> !loot_lootable(z.ruins@, start, *harvest_kind, j),
            forall|j: int| 0 <= j < z.piles@.len() ==> !pile_pickable(*z, start, *harvest_kind, j),
        decreases z.ruins@.len() - i,
    {
        let l = &z.ruins[i];
        if cheb_dist_exec(start, l.pos) <= 1 {
            match first_kind_resource(&l.store, harvest_kind) {
                Some(rt) => {
                    return GatherAction::LootRuin { index: i, resource: rt };
                }
                None => {}
            }
        }
        i = i + 1;
    }
    // tombstones
    let mut i: usize = 0;
    while i < z.tombstones.len()
        invariant
            i <= z.tombstones@.len(),
            z.wf(),
            forall|j: int| 0 <= j < i ==> !loot_lootable(z.tombstones@, start, *harvest_kind, j),
            forall|j: int| 0 <= j < z.piles@.len() ==> !pile_pickable(*z, start, *harvest_kind, j),
            forall|j: int| 0 <= j < z.ruins@.len() ==> !loot_lootable(z.ruins@, start, *harvest_kind, j),
        decreases z.tombstones@.len() - i,
    {
        let l = &z.tombstones[i];
        if cheb_dist_exec(start, l.pos) <= 1 {
            match first_kind_resource(&l.store, harvest_kind) {
                Some(rt) => {
                    return GatherAction::LootTombstone { index: i, resource: rt };
                }
                None => {}
            }
        }
        i = i + 1;
    }
    // active nodes of the requested kind
    if *harvest_kind == ResourceKind::Energy {
        let mut i: usize = 0;
        while i < z.sources.len()
            invariant
                i <= z.sources@.len(),
                z.wf(),
                *harvest_kind == ResourceKind::Energy,
                forall|j: int| 0 <= j < i ==> !node_harvestable(*z, start, j),
                no_adjacent_loot(*z, start, *harvest_kind),
            decreases z.sources@.len() - i,
        {
            let s = &z.sources[i];
            if s.energy > 0 && cheb_dist_exec(start, s.pos) <= 1 {
                return GatherAction::HarvestNode { index: i };
            }
            i = i + 1;
        }
    } else if *harvest_kind == ResourceKind::Minerals {
        let mut i: usize = 0;
        while i < z.minerals.len()
            invariant
                i <= z.minerals@.len(),
                z.wf(),
                *harvest_kind == ResourceKind::Minerals,
                forall|j: int| 0 <= j < i ==> !mineral_harvestable(*z, start, j),
                no_adjacent_loot(*z, start, *harvest_kind),
            decreases z.minerals@.len() - i,
        {
            if cheb_dist_exec(start, z.minerals[i].pos) <= 1 {
                return GatherAction::HarvestMineral { index: i };
            }
            i = i + 1;
        }
    }
    assert(no_adjacent_node(*z, start, *harvest_kind));
    // adjacent reserve structures
    if will_harvest_from_storage {
        let mut i: usize = 0;
        while i < z.structures.len()
            invariant
                i <= z.structures@.len(),
                z.wf(),
                will_harvest_from_storage,
                forall|j: int| 0 <= j < i ==> !reserve_drawable(*z, start, *harvest_kind, excl, j),
                no_adjacent_loot(*z, start, *harvest_kind),
                no_adjacent_node(*z, start, *harvest_kind),
            decreases z.structures@.len() - i,
        {
            let s = &z.structures[i];
            let kind_fits = s.kind == StructureKind::Container || s.kind == StructureKind::Storage
                || (s.kind == StructureKind::Terminal && *harvest_kind == ResourceKind::Energy);
            let excluded = (excl.storages && (s.kind == StructureKind::Container || s.kind
                == StructureKind::Storage)) || (excl.terminal && s.kind == StructureKind::Terminal)
                || (excl.link && s.kind == StructureKind::Link);
            if cheb_dist_exec(start, s.pos) <= 1 && kind_fits && excluded == false {
                match first_stored_kind_resource(&s.store, harvest_kind) {
                    Some(rt) => {
                        return GatherAction::DrawReserve { index: i, resource: rt };
                    }
                    None => {}
                }
            }
            i = i + 1;
        }
    }
    GatherAction::MoveToTarget
}

/// No pile, ruin or tombstone of the kind lies within reach.
pub open spec fn no_adjacent_loot(z: Zone, start: Pos, kind: ResourceKind) -> bool {
    &&& forall|j: int| 0 <= j < z.piles@.len() ==> !pile_pickable(z, start, kind, j)
    &&& forall|j: int| 0 <= j < z.ruins@.len() ==> !loot_lootable(z.ruins@, start, kind, j)
    &&& forall|j: int| 0 <= j < z.tombstones@.len() ==> !loot_lootable(z.tombstones@, start, kind, j)
}

/// No harvestable node of the kind lies within reach.
pub open spec fn no_adjacent_node(z: Zone, start: Pos, kind: ResourceKind) -> bool {
    &&& kind == ResourceKind::Energy ==> forall|j: int|
        0 <= j < z.sources@.len() ==> !node_harvestable(z, start, j)
    &&& kind == ResourceKind::Minerals ==> forall|j: int|
        0 <= j < z.minerals@.len() ==> !mineral_harvestable(z, start, j)
}

/// First resource type of the kind that the store holds.
fn first_kind_resource(store: &Vec<crate::model::StoreEntry>, kind: &ResourceKind) -> (r: Option<
    ResourceType,
>)
    ensures
        match r {
            Some(rt) => kind_matches(rt, *kind) && stored_of(store@, rt) > 0,
            None => !(exists|rt: ResourceType|
                kind_matches(rt, *kind) && stored_of(store@, rt) > 0),
        },
{
    let type_list = crate::checks::make_resoucetype_list(kind);
    let mut j: usize = 0;
    while j < type_list.len()
        invariant
            j <= type_list@.len(),
            type_list@ == spec_kind_list(*kind),
            forall|i: int| 0 <= i < j ==> stored_of(store@, #[trigger] type_list@[i]) == 0,
        decreases type_list@.len() - j,
    {
        let amount = store_lookup(store, type_list[j]);
        if amount > 0 {
            assert(kind_matches(type_list@[j as int], *kind)) by {
                assert(spec_kind_list(*kind)[j as int] == type_list@[j as int]);
            }
            return Some(type_list[j]);
        }
        j = j + 1;
    }
    proof {
        if exists|rt: ResourceType| kind_matches(rt, *kind) && stored_of(store@, rt) > 0 {
            let rt = choose|rt: ResourceType| kind_matches(rt, *kind) && stored_of(store@, rt)
                > 0;
            let i = choose|i: int| 0 <= i < spec_kind_list(*kind).len() && spec_kind_list(*kind)[i]
                == rt;
            assert(stored_of(store@, type_list@[i]) == 0);
        }
    }
    None
}

/// First resource type of the kind that the structure's store holds; the
/// match of `struct_has_kind_over` at threshold zero.
fn first_stored_kind_resource(store: &Vec<crate::model::StoreEntry>, kind: &ResourceKind) -> (r:
    Option<ResourceType>)
    ensures
        match r {
            Some(rt) => kind_matches(rt, *kind) && stored_of(store@, rt) > 0,
            None => !(exists|rt: ResourceType|
                kind_matches(rt, *kind) && stored_of(store@, rt) > 0),
        },
{
    first_kind_resource(store, kind)
}

/// Record which reserve tier a successful draw came from, so the next
/// delivery pass avoids handing it straight back.
pub fn note_draw_success(mem: AgentMemory, tier_kind: StructureKind) -> (r: AgentMemory)
    ensures
        tier_kind == StructureKind::Container || tier_kind == StructureKind::Storage ==> r == (
        AgentMemory { harvested_from_storage: Some(true), ..mem }),
        tier_kind == StructureKind::Terminal ==> r == (
        AgentMemory { harvested_from_terminal: Some(true), ..mem }),
        tier_kind == StructureKind::Link ==> r == (
        AgentMemory { harvested_from_link: Some(true), ..mem }),
        !(tier_kind == StructureKind::Container || tier_kind == StructureKind::Storage
            || tier_kind == StructureKind::Terminal || tier_kind == StructureKind::Link) ==> r
            == mem,
{
    if tier_kind == StructureKind::Container || tier_kind == StructureKind::Storage {
        AgentMemory { harvested_from_storage: Some(true), ..mem }
    } else if tier_kind == StructureKind::Terminal {
        AgentMemory { harvested_from_terminal: Some(true), ..mem }
    } else if tier_kind == StructureKind::Link {
        AgentMemory { harvested_from_link: Some(true), ..mem }
    } else {
        mem
    }
}

/// The agent stands beside an active energy node.
pub open spec fn beside_active_node(z: Zone, start: Pos) -> bool {
    exists|i: int|
        0 <= i < z.sources@.len() && (#[trigger] z.sources@[i]).active() && cheb_dist(
            start,
            z.sources@[i].pos,
        ) <= 1
}

/// The acting-side flee throttle: an idle agent beside an active node
/// attempts an evasive reroute at most once per cooldown window; during
/// the cooldown the counter burns down and control passes to the role
/// behavior.
pub fn acting_flee_precheck(z: &Zone, m: &CostMatrix, start: Pos, mem: AgentMemory) -> (r: (
    AgentMemory,
    Option<PathResult>,
))
    requires
        z.wf(),
        m.wf(),
        start.wf(),
    ensures
        ({
            let count = match mem.fleeing_count {
                Some(c) => c as int,
                None => 0int,
            };
            if count <= 0 && beside_active_node(*z, start) {
                &&& r.0 == mem
                &&& r.1 matches Some(p) && crate::search::flee_result_over(
                    *z,
                    *m,
                    start,
                    crate::resolver::flee_source_goals(z.sources@),
                    p,
                )
            } else if count <= 0 {
                r.0 == mem && r.1 is None
            } else {
                r.0 == AgentMemory { fleeing_count: Some((count - 1) as i32), ..mem } && r.1
                    is None
            }
        }),
{
    let count: i32 = match mem.fleeing_count {
        Some(c) => c,
        None => 0,
    };
    if count <= 0 {
        let mut i: usize = 0;
        while i < z.sources.len()
            invariant
                i <= z.sources@.len(),
                z.wf(),
                m.wf(),
                start.wf(),
                (match mem.fleeing_count {
                    Some(c) => c as int,
                    None => 0int,
                }) <= 0,
                forall|j: int|
                    0 <= j < i ==> !((#[trigger] z.sources@[j]).active() && cheb_dist(
                        start,
                        z.sources@[j].pos,
                    ) <= 1),
            decreases z.sources@.len() - i,
        {
            let s = &z.sources[i];
            if s.energy > 0 && cheb_dist_exec(start, s.pos) <= 1 {
                assert(z.sources@[i as int].active() && cheb_dist(start, z.sources@[i as int].pos)
                    <= 1);
                let p = crate::resolver::find_flee_path_from_active_source(z, m, start);
                return (mem, Some(p));
            }
            i = i + 1;
        }
        (mem, None)
    } else {
        let no_path: Option<PathResult> = None;
        (AgentMemory { fleeing_count: Some(count - 1), ..mem }, no_path)
    }
}

/// Note the outcome of this tick's flee attempt: a successful move starts
/// the cooldown window.
pub fn note_flee_result(mem: AgentMemory, outcome: CommandResult) -> (r: AgentMemory)
    ensures
        outcome == CommandResult::Done ==> r == (AgentMemory { fleeing_count: Some(5i32), ..mem }),
        outcome != CommandResult::Done ==> r == mem,
{
    if outcome == CommandResult::Done {
        AgentMemory { fleeing_count: Some(5), ..mem }
    } else {
        mem
    }
}

/// Combat capability read off the body: the first attack-capable part
/// decides.
pub open spec fn attacker_kind_of(body: Seq<PartKind>) -> AttackerKind
    decreases body.len(),
{
    if body.len() == 0 {
        AttackerKind::Unarmed
    } else if body[0] == PartKind::Attack {
        AttackerKind::Short
    } else if body[0] == PartKind::RangedAttack {
        AttackerKind::Ranged
    } else {
        attacker_kind_of(body.skip(1))
    }
}

/// Read the agent's role and combat capability: the stored role, or none,
/// and the body's first attack-capable part.
pub fn get_role_and_attacker_kind(mem: &AgentMemory, body: &Vec<PartKind>) -> (r: (
    Option<Role>,
    AttackerKind,
))
    ensures
        r.0 == mem.role,
        r.1 == attacker_kind_of(body@),
{
    let mut kind = AttackerKind::Unarmed;
    let mut i: usize = 0;
    assert(body@.skip(0) =~= body@);
    while i < body.len()
        invariant
            i <= body@.len(),
            kind == AttackerKind::Unarmed,
            attacker_kind_of(body@) == attacker_kind_of(body@.skip(i as int)),
        decreases body@.len() - i,
    {
        proof {
            assert(body@.skip(i as int)[0] == body@[i as int]);
            assert(body@.skip(i as int).skip(1) =~= body@.skip(i as int + 1));
        }
        if body[i] == PartKind::Attack {
            kind = AttackerKind::Short;
            assert(attacker_kind_of(body@) == AttackerKind::Short);
            return (mem.role, kind);
        } else if body[i] == PartKind::RangedAttack {
            kind = AttackerKind::Ranged;
            assert(attacker_kind_of(body@) == AttackerKind::Ranged);
            return (mem.role, kind);
        }
        i = i + 1;
    }
    assert(body@.skip(i as int).len() == 0);
    (mem.role, kind)
}

/// What an armed agent does about hostiles this tick.
#[derive(Clone, Debug)]
pub enum AttackDecision {
    Strike { enemy: usize },
    RangedStrike { enemy: usize },
    Approach { path: PathResult },
    Stand,
}

/// A hostile agent within striking reach; melee reaches one tile, ranged
/// fire three.
pub open spec fn enemy_in_reach(z: Zone, start: Pos, kind: AttackerKind, i: int) -> bool {
    &&& !z.agents@[i].mine
    &&& match kind {
        AttackerKind::Short => cheb_dist(start, z.agents@[i].pos) <= 1,
        AttackerKind::Ranged => cheb_dist(start, z.agents@[i].pos) <= 3,
        AttackerKind::Unarmed => false,
    }
}

/// What a combat decision must satisfy: strike the first hostile in
/// reach, approach the nearest one, or stand down with none in reach.
pub open spec fn attack_decision_ok(
    z: Zone,
    m: CostMatrix,
    start: Pos,
    kind: AttackerKind,
    r: AttackDecision,
) -> bool {
    match r {
        AttackDecision::Strike { enemy } => {
            &&& kind == AttackerKind::Short
            &&& enemy < z.agents@.len()
            &&& enemy_in_reach(z, start, kind, enemy as int)
            &&& forall|j: int| 0 <= j < enemy ==> !enemy_in_reach(z, start, kind, j)
        },
        AttackDecision::RangedStrike { enemy } => {
            &&& kind == AttackerKind::Ranged
            &&& enemy < z.agents@.len()
            &&& enemy_in_reach(z, start, kind, enemy as int)
            &&& forall|j: int| 0 <= j < enemy ==> !enemy_in_reach(z, start, kind, j)
        },
        AttackDecision::Approach { path } => {
            &&& forall|j: int| 0 <= j < z.agents@.len() ==> !enemy_in_reach(z, start, kind, j)
            &&& result_over(
                z,
                m,
                start,
                crate::resolver::enemy_goals(z.agents@, if kind == AttackerKind::Short {
                    1u32
                } else {
                    2u32
                }),
                path,
            )
            &&& path.complete
            &&& path.steps@.len() > 0
        },
        AttackDecision::Stand => {
            &&& forall|j: int| 0 <= j < z.agents@.len() ==> !enemy_in_reach(z, start, kind, j)
            &&& nothing_owed(
                z,
                m,
                start,
                crate::resolver::enemy_goals(z.agents@, if kind == AttackerKind::Short {
                    1u32
                } else {
                    2u32
                }),
            )
        },
    }
}

/// Decide this tick's combat move: strike the first hostile in reach, or
/// approach the nearest one to engagement range; with no hostiles, stand
/// down and let the role behavior run.
pub fn attacker_routine(z: &Zone, m: &CostMatrix, start: Pos, kind: AttackerKind) -> (r:
    AttackDecision)
    requires
        z.wf(),
        m.wf(),
        start.wf(),
        kind != AttackerKind::Unarmed,
    ensures
        attack_decision_ok(*z, *m, start, kind, r),
{
    let mut i: usize = 0;
    while i < z.agents.len()
        invariant
            i <= z.agents@.len(),
            z.wf(),
            forall|j: int| 0 <= j < i ==> !enemy_in_reach(*z, start, kind, j),
        decreases z.agents@.len() - i,
    {
        let a = &z.agents[i];
        if a.mine == false {
            let d = cheb_dist_exec(start, a.pos);
            match kind {
                AttackerKind::Short => {
                    if d <= 1 {
                        return AttackDecision::Strike { enemy: i };
                    }
                }
                AttackerKind::Ranged => {
                    if d <= 3 {
                        return AttackDecision::RangedStrike { enemy: i };
                    }
                }
                AttackerKind::Unarmed => {}
            }
        }
        i = i + 1;
    }
    let range: u32 = match kind {
        AttackerKind::Short => 1,
        _ => 2,
    };
    let path = find_nearest_enemy(z, m, start, range);
    if path.complete {
        if path.steps.len() > 0 {
            return AttackDecision::Approach { path };
        }
    }
    proof {
        lemma_fallthrough_owed_nothing(
            *z,
            *m,
            start,
            crate::resolver::enemy_goals(z.agents@, range as u32),
            path,
        );
    }
    AttackDecision::Stand
}

} // verus!
