//! The role behaviors: what an agent does with a full load.
//!
//! Every behavior has the same shape: try a direct action against an
//! adjacent high-priority target, call the resolver only on a full miss,
//! and on total exhaustion delegate to the next behavior in the fixed
//! fallback chain harvester-spawn, harvester, builder, repairer, upgrader.
//! The chain is written as plain calls in that one direction, so it cannot
//! cycle.

use vstd::prelude::*;

use crate::checks::{free_capacity, free_capacity_of, spec_transferable, spec_repairable, DecayConfig};
use crate::cost::CostMatrix;
use crate::machine::AgentMemory;
use crate::model::{
    cheb_dist, cheb_dist_exec, stored_of, Owner, Pos, ResourceKind, ResourceType, StoreEntry,
    StructureKind, Zone,
};
use crate::resolver::{
    carrying_has_kind, carrying_has_kind_exec, deliver_goals, first_carried_of_kind,
    kinded_transfer_goals, terminal_goals, ExclusionFlags, find_nearest_transfarable_item,
    find_nearest_transfarable_terminal, find_nearest_transferable_structure,
    find_nearest_construction_site, find_nearest_repairable_item_hp,
    find_nearest_repairable_item_except_wall_dying, find_nearest_room_controler, site_goals,
    repairable_hp_goals, dying_goals, controller_goals, dying_soon,
};
use crate::search::{
    end_of, lemma_fallthrough_owed_nothing, nothing_owed, result_over, valid_steps, PathResult,
};
use crate::stats::build_left;

verus! {

/// What a role behavior asks the host to do this tick.
#[derive(Clone, Debug)]
pub enum Action {
    Transfer { structure: usize, resource: ResourceType },
    DropOnContainer { structure: usize, resource: ResourceType },
    Build { site: usize },
    Repair { structure: usize },
    Upgrade { structure: usize },
    Travel { path: PathResult },
    Idle,
}

/// The numeric knobs the behaviors consume: the search-cost ceiling for
/// topping up extensions, the decay threshold under which a repairer drops
/// everything else, the energy floor a terminal keeps, and the decay rates.
#[derive(Clone, Copy, PartialEq, Eq, Structural, Debug)]
pub struct BehaviorConfig {
    pub extension_max_cost: u32,
    pub repairer_dying_threshold: u128,
    pub terminal_keep_energy: u32,
    pub decay: DecayConfig,
}

impl BehaviorConfig {
    pub open spec fn wf(self) -> bool {
        self.decay.wf()
    }
}

/// This population's controller, in upgrading reach.
pub open spec fn upgrade_candidate(z: Zone, start: Pos, i: int) -> bool {
    &&& z.structures@[i].kind == StructureKind::Controller
    &&& z.structures@[i].owner == Owner::Mine
    &&& cheb_dist(start, z.structures@[i].pos) <= 3
}

/// What the upgrader may do: upgrade the first controller in reach, travel
/// toward one, or stand idle with none in reach.
pub open spec fn upgrader_contract(z: Zone, m: CostMatrix, start: Pos, r: Action) -> bool {
    match r {
        Action::Upgrade { structure } => {
            &&& structure < z.structures@.len()
            &&& upgrade_candidate(z, start, structure as int)
            &&& forall|j: int| 0 <= j < structure ==> !upgrade_candidate(z, start, j)
        },
        Action::Travel { path } => {
            &&& (forall|j: int| 0 <= j < z.structures@.len() ==> !upgrade_candidate(z, start, j))
            &&& result_over(z, m, start, controller_goals(z.structures@), path)
            &&& path.complete
            &&& path.steps@.len() > 0
        },
        Action::Idle => {
            &&& forall|j: int| 0 <= j < z.structures@.len() ==> !upgrade_candidate(z, start, j)
            &&& nothing_owed(z, m, start, controller_goals(z.structures@))
        },
        _ => false,
    }
}

/// Work toward this population's controller: upgrade it from reach, else
/// walk to it.
pub fn run_upgrader(z: &Zone, m: &CostMatrix, start: Pos) -> (r: Action)
    requires
        z.wf(),
        m.wf(),
        start.wf(),
    ensures
        upgrader_contract(*z, *m, start, r),
{
    let mut i: usize = 0;
    while i < z.structures.len()
        invariant
            i <= z.structures@.len(),
            z.wf(),
            forall|j: int| 0 <= j < i ==> !upgrade_candidate(*z, start, j),
        decreases z.structures@.len() - i,
    {
        let s = &z.structures[i];
        if s.kind == StructureKind::Controller && s.owner == Owner::Mine && cheb_dist_exec(
            start,
            s.pos,
        ) <= 3 {
            return Action::Upgrade { structure: i };
        }
        i = i + 1;
    }
    let path = find_nearest_room_controler(z, m, start);
    if path.complete {
        if path.steps.len() > 0 {
            return Action::Travel { path };
        }
    }
    proof {
        lemma_fallthrough_owed_nothing(*z, *m, start, controller_goals(z.structures@), path);
    }
    Action::Idle
}

/// A damaged structure of this population's spawn kind, in repair reach.
pub open spec fn spawn_repair_candidate(z: Zone, start: Pos, i: int) -> bool {
    &&& z.structures@[i].kind == StructureKind::Spawn
    &&& z.structures@[i].owner == Owner::Mine
    &&& z.structures@[i].hits < z.structures@[i].hits_max
    &&& cheb_dist(start, z.structures@[i].pos) <= 3
}

/// A repairable structure about to rot away, in repair reach.
pub open spec fn dying_candidate(z: Zone, start: Pos, cfg: BehaviorConfig, i: int) -> bool {
    &&& spec_repairable(z.structures@[i])
    &&& dying_soon(
        z.structures@[i],
        z.terrain_at(z.structures@[i].pos),
        cfg.decay,
        cfg.repairer_dying_threshold,
    )
    &&& cheb_dist(start, z.structures@[i].pos) <= 3
}

/// A repairable structure at or under the hit-point threshold, in reach.
pub open spec fn hp_repair_candidate(z: Zone, start: Pos, hp_th: u128, i: int) -> bool {
    &&& spec_repairable(z.structures@[i])
    &&& z.structures@[i].hits as int <= hp_th as int
    &&& cheb_dist(start, z.structures@[i].pos) <= 3
}

/// No damaged spawn stands in repair reach.
pub open spec fn no_spawn_repair(z: Zone, start: Pos) -> bool {
    forall|j: int| 0 <= j < z.structures@.len() ==> !spawn_repair_candidate(z, start, j)
}

/// Nothing in repair reach is about to decay away.
pub open spec fn no_dying_repair(z: Zone, start: Pos, cfg: BehaviorConfig) -> bool {
    forall|j: int| 0 <= j < z.structures@.len() ==> !dying_candidate(z, start, cfg, j)
}

/// No repair work stands in reach at either priority.
pub open spec fn no_adjacent_repairs(z: Zone, start: Pos, cfg: BehaviorConfig, hp_th: u128)
    -> bool {
    &&& forall|j: int| 0 <= j < z.structures@.len() ==> !spawn_repair_candidate(z, start, j)
    &&& forall|j: int| 0 <= j < z.structures@.len() ==> !dying_candidate(z, start, cfg, j)
    &&& forall|j: int| 0 <= j < z.structures@.len() ==> !hp_repair_candidate(z, start, hp_th, j)
}

/// What the repairer may do: patch the first damaged spawn in reach, then
/// the first structure about to decay away, then the first one under the
/// dynamic hit-point threshold; on a full miss travel to the nearest such
/// work, and with nothing to repair act as an upgrader.
pub open spec fn repairer_contract(
    z: Zone,
    m: CostMatrix,
    start: Pos,
    cfg: BehaviorConfig,
    hp_th: u128,
    r: Action,
) -> bool {
    ||| (match r {
        Action::Repair { structure } => {
            &&& structure < z.structures@.len()
            &&& (spawn_repair_candidate(z, start, structure as int) || (no_spawn_repair(z, start)
                && dying_candidate(z, start, cfg, structure as int)) || (no_spawn_repair(z, start)
                && no_dying_repair(z, start, cfg) && hp_repair_candidate(
                z,
                start,
                hp_th,
                structure as int,
            )))
        },
        Action::Travel { path } => {
            &&& no_adjacent_repairs(z, start, cfg, hp_th)
            &&& path.complete
            &&& path.steps@.len() > 0
            &&& (result_over(
                z,
                m,
                start,
                dying_goals(z, z.structures@, cfg.decay, cfg.repairer_dying_threshold),
                path,
            ) || (nothing_owed(
                z,
                m,
                start,
                dying_goals(z, z.structures@, cfg.decay, cfg.repairer_dying_threshold),
            ) && hp_th <= u32::MAX as u128 && result_over(
                z,
                m,
                start,
                repairable_hp_goals(z.structures@, hp_th as u32),
                path,
            )))
        },
        _ => false,
    })
    ||| (no_adjacent_repairs(z, start, cfg, hp_th) && nothing_owed(
        z,
        m,
        start,
        dying_goals(z, z.structures@, cfg.decay, cfg.repairer_dying_threshold),
    ) && (hp_th <= u32::MAX as u128 ==> nothing_owed(
        z,
        m,
        start,
        repairable_hp_goals(z.structures@, hp_th as u32),
    )) && upgrader_contract(z, m, start, r))
}

/// Repair what is most urgent: the spawn, whatever is about to decay
/// away, then whatever the damage statistics single out; with nothing to
/// repair, upgrade.
pub fn run_repairer(z: &Zone, m: &CostMatrix, start: Pos, cfg: &BehaviorConfig, hp_th: u128) -> (r:
    Action)
    requires
        z.wf(),
        m.wf(),
        start.wf(),
        cfg.wf(),
    ensures
        repairer_contract(*z, *m, start, *cfg, hp_th, r),
{
    let mut i: usize = 0;
    while i < z.structures.len()
        invariant
            i <= z.structures@.len(),
            z.wf(),
            forall|j: int| 0 <= j < i ==> !spawn_repair_candidate(*z, start, j),
        decreases z.structures@.len() - i,
    {
        let s = &z.structures[i];
        if s.kind == StructureKind::Spawn && s.owner == Owner::Mine && s.hits < s.hits_max
            && cheb_dist_exec(start, s.pos) <= 3 {
            return Action::Repair { structure: i };
        }
        i = i + 1;
    }
    let mut i: usize = 0;
    while i < z.structures.len()
        invariant
            i <= z.structures@.len(),
            z.wf(),
            cfg.wf(),
            forall|j: int| 0 <= j < i ==> !dying_candidate(*z, start, *cfg, j),
            forall|j: int| 0 <= j < z.structures@.len() ==> !spawn_repair_candidate(*z, start, j),
        decreases z.structures@.len() - i,
    {
        let s = &z.structures[i];
        if crate::checks::check_repairable(s) && cheb_dist_exec(start, s.pos) <= 3 {
            let ground = z.terrain[s.pos.y as usize * 50 + s.pos.x as usize];
            assert(ground == z.terrain_at(z.structures@[i as int].pos));
            let left: u128 = match crate::checks::get_live_tickcount(s, ground, &cfg.decay) {
                Some(v) => v,
                None => 10000,
            };
            if left <= cfg.repairer_dying_threshold {
                return Action::Repair { structure: i };
            }
        }
        i = i + 1;
    }
    let mut i: usize = 0;
    while i < z.structures.len()
        invariant
            i <= z.structures@.len(),
            z.wf(),
            cfg.wf(),
            forall|j: int| 0 <= j < i ==> !hp_repair_candidate(*z, start, hp_th, j),
            forall|j: int| 0 <= j < z.structures@.len() ==> !spawn_repair_candidate(*z, start, j),
            forall|j: int| 0 <= j < z.structures@.len() ==> !dying_candidate(*z, start, *cfg, j),
        decreases z.structures@.len() - i,
    {
        let s = &z.structures[i];
        if crate::checks::check_repairable(s) && s.hits as u128 <= hp_th && cheb_dist_exec(
            start,
            s.pos,
        ) <= 3 {
            return Action::Repair { structure: i };
        }
        i = i + 1;
    }
    let path = find_nearest_repairable_item_except_wall_dying(
        z,
        m,
        start,
        cfg.repairer_dying_threshold,
        &cfg.decay,
    );
    if path.complete {
        if path.steps.len() > 0 {
            return Action::Travel { path };
        }
    }
    proof {
        lemma_fallthrough_owed_nothing(
            *z,
            *m,
            start,
            dying_goals(*z, z.structures@, cfg.decay, cfg.repairer_dying_threshold),
            path,
        );
    }
    if hp_th <= u32::MAX as u128 {
        let path = find_nearest_repairable_item_hp(z, m, start, hp_th as u32);
        if path.complete {
            if path.steps.len() > 0 {
                return Action::Travel { path };
            }
        }
        proof {
            lemma_fallthrough_owed_nothing(
                *z,
                *m,
                start,
                repairable_hp_goals(z.structures@, hp_th as u32),
                path,
            );
        }
    }
    run_upgrader(z, m, start)
}

/// A build site with little enough work left, in building reach.
pub open spec fn build_candidate(z: Zone, start: Pos, build_th: u32, i: int) -> bool {
    &&& build_left(z.sites@[i]) <= build_th
    &&& cheb_dist(start, z.sites@[i].pos) <= 3
}

/// What the builder may do: build the first near-finished site in reach,
/// travel to the nearest one, and with nothing to build act as a repairer.
pub open spec fn builder_contract(
    z: Zone,
    m: CostMatrix,
    start: Pos,
    build_th: u32,
    cfg: BehaviorConfig,
    hp_th: u128,
    r: Action,
) -> bool {
    ||| (match r {
        Action::Build { site } => {
            &&& site < z.sites@.len()
            &&& build_candidate(z, start, build_th, site as int)
            &&& forall|j: int| 0 <= j < site ==> !build_candidate(z, start, build_th, j)
        },
        Action::Travel { path } => {
            &&& (forall|j: int| 0 <= j < z.sites@.len() ==> !build_candidate(z, start, build_th, j))
            &&& result_over(z, m, start, site_goals(z.sites@, build_th), path)
            &&& path.complete
            &&& path.steps@.len() > 0
        },
        _ => false,
    })
    ||| ((forall|j: int| 0 <= j < z.sites@.len() ==> !build_candidate(z, start, build_th, j))
        && nothing_owed(z, m, start, site_goals(z.sites@, build_th)) && repairer_contract(
        z,
        m,
        start,
        cfg,
        hp_th,
        r,
    ))
}

/// Build what is nearest to completion; with nothing buildable, repair.
pub fn run_builder(
    z: &Zone,
    m: &CostMatrix,
    start: Pos,
    build_th: u32,
    cfg: &BehaviorConfig,
    hp_th: u128,
) -> (r: Action)
    requires
        z.wf(),
        m.wf(),
        start.wf(),
        cfg.wf(),
    ensures
        builder_contract(*z, *m, start, build_th, *cfg, hp_th, r),
{
    let mut i: usize = 0;
    while i < z.sites.len()
        invariant
            i <= z.sites@.len(),
            z.wf(),
            forall|j: int| 0 <= j < i ==> !build_candidate(*z, start, build_th, j),
        decreases z.sites@.len() - i,
    {
        let cs = &z.sites[i];
        let left = cs.progress_total - cs.progress;
        if left <= build_th && cheb_dist_exec(start, cs.pos) <= 3 {
            return Action::Build { site: i };
        }
        i = i + 1;
    }
    let path = find_nearest_construction_site(z, m, start, build_th);
    if path.complete {
        if path.steps.len() > 0 {
            return Action::Travel { path };
        }
    }
    proof {
        lemma_fallthrough_owed_nothing(*z, *m, start, site_goals(z.sites@, build_th), path);
    }
    run_repairer(z, m, start, cfg, hp_th)
}

/// This population's spawn beside the agent, with room for energy.
pub open spec fn spawn_feed_candidate(z: Zone, start: Pos, i: int) -> bool {
    &&& z.structures@[i].kind == StructureKind::Spawn
    &&& z.structures@[i].owner == Owner::Mine
    &&& free_capacity_of(z.structures@[i]) > 0
    &&& cheb_dist(start, z.structures@[i].pos) <= 1
}

/// An extension beside the agent that accepts energy.
pub open spec fn ext_feed_candidate(z: Zone, start: Pos, i: int) -> bool {
    &&& z.structures@[i].kind == StructureKind::Extension
    &&& spec_transferable(z.structures@[i], 0)
    &&& cheb_dist(start, z.structures@[i].pos) <= 1
}

/// This population's tower beside the agent, with room for energy.
pub open spec fn tower_feed_candidate(z: Zone, start: Pos, i: int) -> bool {
    &&& z.structures@[i].kind == StructureKind::Tower
    &&& z.structures@[i].owner == Owner::Mine
    &&& free_capacity_of(z.structures@[i]) > 0
    &&& cheb_dist(start, z.structures@[i].pos) <= 1
}

/// Any other structure beside the agent that accepts the load, honoring
/// the reserve-tier exclusions; a container takes a drop from its own
/// tile only.
pub open spec fn other_feed_candidate(z: Zone, start: Pos, excl: ExclusionFlags, i: int) -> bool {
    &&& spec_transferable(z.structures@[i], 0)
    &&& !(excl.storages && (z.structures@[i].kind == StructureKind::Container
        || z.structures@[i].kind == StructureKind::Storage))
    &&& !(excl.terminal && z.structures@[i].kind == StructureKind::Terminal)
    &&& !(excl.link && z.structures@[i].kind == StructureKind::Link)
    &&& if z.structures@[i].kind == StructureKind::Container {
        z.structures@[i].pos == start
    } else {
        cheb_dist(start, z.structures@[i].pos) <= 1
    }
}

/// No spawn of this population with room stands beside the agent.
pub open spec fn no_spawn_feed(z: Zone, start: Pos) -> bool {
    forall|j: int| 0 <= j < z.structures@.len() ==> !spawn_feed_candidate(z, start, j)
}

/// No extension accepting energy stands beside the agent.
pub open spec fn no_ext_feed(z: Zone, start: Pos) -> bool {
    forall|j: int| 0 <= j < z.structures@.len() ==> !ext_feed_candidate(z, start, j)
}

/// No other accepting structure stands beside the agent.
pub open spec fn no_other_feed(z: Zone, start: Pos, excl: ExclusionFlags) -> bool {
    forall|j: int| 0 <= j < z.structures@.len() ==> !other_feed_candidate(z, start, excl, j)
}

/// No energy sink stands beside the agent.
pub open spec fn no_adjacent_energy_sinks(z: Zone, start: Pos, excl: ExclusionFlags) -> bool {
    &&& forall|j: int| 0 <= j < z.structures@.len() ==> !spawn_feed_candidate(z, start, j)
    &&& forall|j: int| 0 <= j < z.structures@.len() ==> !ext_feed_candidate(z, start, j)
    &&& forall|j: int| 0 <= j < z.structures@.len() ==> !other_feed_candidate(z, start, excl, j)
}

/// What the energy deliverer may do: hand energy to the first adjacent
/// spawn, extension or other accepting structure (a drop onto the
/// container it stands on), travel to a sink the resolver found, and with
/// every sink gone act as a builder.
pub open spec fn harvester_contract(
    z: Zone,
    m: CostMatrix,
    start: Pos,
    carrying: Seq<StoreEntry>,
    excl: ExclusionFlags,
    build_th: u32,
    cfg: BehaviorConfig,
    hp_th: u128,
    r: Action,
) -> bool {
    ||| (match r {
        Action::Transfer { structure, resource } => {
            &&& structure < z.structures@.len()
            &&& resource == ResourceType::Energy
            &&& carrying_has_kind(carrying, ResourceKind::Energy)
            &&& (spawn_feed_candidate(z, start, structure as int) || (no_spawn_feed(z, start)
                && ext_feed_candidate(z, start, structure as int)) || (no_spawn_feed(z, start)
                && no_ext_feed(z, start) && other_feed_candidate(z, start, excl, structure as int)))
        },
        Action::DropOnContainer { structure, resource } => {
            &&& structure < z.structures@.len()
            &&& resource == ResourceType::Energy
            &&& carrying_has_kind(carrying, ResourceKind::Energy)
            &&& z.structures@[structure as int].kind == StructureKind::Container
            &&& no_spawn_feed(z, start)
            &&& no_ext_feed(z, start)
            &&& other_feed_candidate(z, start, excl, structure as int)
        },
        Action::Travel { path } => {
            &&& path.complete
            &&& path.steps@.len() > 0
            &&& carrying_has_kind(carrying, ResourceKind::Energy)
            &&& no_spawn_feed(z, start)
            &&& no_ext_feed(z, start)
            &&& ((result_over(
                z,
                m,
                start,
                kinded_transfer_goals(z.structures@, StructureKind::Extension, 0),
                path,
            ) && path.cost <= cfg.extension_max_cost) || (no_other_feed(z, start, excl)
                && result_over(
                z,
                m,
                start,
                deliver_goals(z.structures@, ResourceKind::Energy, excl, carrying),
                path,
            )))
        },
        _ => false,
    })
    ||| ((!carrying_has_kind(carrying, ResourceKind::Energy) || (no_adjacent_energy_sinks(
        z,
        start,
        excl,
    ) && nothing_owed(
        z,
        m,
        start,
        deliver_goals(z.structures@, ResourceKind::Energy, excl, carrying),
    ))) && builder_contract(z, m, start, build_th, cfg, hp_th, r))
}

/// Deliver the carried energy: spawn first, then extensions, then any
/// accepting structure; with no sink left, build.
pub fn run_harvester(
    z: &Zone,
    m: &CostMatrix,
    start: Pos,
    carrying: &Vec<StoreEntry>,
    excl: ExclusionFlags,
    build_th: u32,
    cfg: &BehaviorConfig,
    hp_th: u128,
) -> (r: Action)
    requires
        z.wf(),
        m.wf(),
        start.wf(),
        cfg.wf(),
    ensures
        harvester_contract(*z, *m, start, carrying@, excl, build_th, *cfg, hp_th, r),
{
    let has_energy = carrying_has_kind_exec(carrying, ResourceKind::Energy);
    if has_energy {
        let mut i: usize = 0;
        while i < z.structures.len()
            invariant
                i <= z.structures@.len(),
                z.wf(),
                has_energy == carrying_has_kind(carrying@, ResourceKind::Energy),
                has_energy,
                forall|j: int| 0 <= j < i ==> !spawn_feed_candidate(*z, start, j),
            decreases z.structures@.len() - i,
        {
            let s = &z.structures[i];
            if s.kind == StructureKind::Spawn && s.owner == Owner::Mine && cheb_dist_exec(
                start,
                s.pos,
            ) <= 1 {
                if free_capacity(s) > 0 {
                    return Action::Transfer { structure: i, resource: ResourceType::Energy };
                }
            }
            i = i + 1;
        }
        let mut i: usize = 0;
        while i < z.structures.len()
            invariant
                i <= z.structures@.len(),
                z.wf(),
                has_energy == carrying_has_kind(carrying@, ResourceKind::Energy),
                has_energy,
                forall|j: int| 0 <= j < i ==> !ext_feed_candidate(*z, start, j),
                forall|j: int| 0 <= j < z.structures@.len() ==> !spawn_feed_candidate(*z, start, j),
            decreases z.structures@.len() - i,
        {
            let s = &z.structures[i];
            if s.kind == StructureKind::Extension && cheb_dist_exec(start, s.pos) <= 1 {
                if crate::checks::check_transferable(s, &ResourceType::Energy, None) {
                    return Action::Transfer { structure: i, resource: ResourceType::Energy };
                }
            }
            i = i + 1;
        }
        let path = find_nearest_transferable_structure(
            z,
            m,
            start,
            &StructureKind::Extension,
            &ResourceType::Energy,
            Some(cfg.extension_max_cost),
            None,
        );
        if path.complete {
            if path.steps.len() > 0 {
                return Action::Travel { path };
            }
        }
        let mut i: usize = 0;
        while i < z.structures.len()
            invariant
                i <= z.structures@.len(),
                z.wf(),
                has_energy == carrying_has_kind(carrying@, ResourceKind::Energy),
                has_energy,
                forall|j: int| 0 <= j < i ==> !other_feed_candidate(*z, start, excl, j),
                forall|j: int| 0 <= j < z.structures@.len() ==> !spawn_feed_candidate(*z, start, j),
                forall|j: int| 0 <= j < z.structures@.len() ==> !ext_feed_candidate(*z, start, j),
            decreases z.structures@.len() - i,
        {
            let s = &z.structures[i];
            let excluded = (excl.storages && (s.kind == StructureKind::Container || s.kind
                == StructureKind::Storage)) || (excl.terminal && s.kind == StructureKind::Terminal)
                || (excl.link && s.kind == StructureKind::Link);
            if excluded == false {
                if s.kind == StructureKind::Container {
                    if s.pos.x == start.x && s.pos.y == start.y {
                        if crate::checks::check_transferable(s, &ResourceType::Energy, None) {
                            assert(z.structures@[i as int].pos == start);
                            return Action::DropOnContainer {
                                structure: i,
                                resource: ResourceType::Energy,
                            };
                        }
                    }
                } else if cheb_dist_exec(start, s.pos) <= 1 {
                    if crate::checks::check_transferable(s, &ResourceType::Energy, None) {
                        return Action::Transfer { structure: i, resource: ResourceType::Energy };
                    }
                }
            }
            i = i + 1;
        }
        let path = find_nearest_transfarable_item(
            z,
            m,
            start,
            &ResourceKind::Energy,
            carrying,
            excl,
        );
        if path.complete {
            if path.steps.len() > 0 {
                return Action::Travel { path };
            }
        }
        proof {
            lemma_fallthrough_owed_nothing(
                *z,
                *m,
                start,
                crate::resolver::deliver_goals(
                    z.structures@,
                    ResourceKind::Energy,
                    excl,
                    carrying@,
                ),
                path,
            );
        }
        return run_builder(z, m, start, build_th, cfg, hp_th);
    }
    run_builder(z, m, start, build_th, cfg, hp_th)
}

/// This population's extension beside the agent, with room for energy.
pub open spec fn ext_my_feed_candidate(z: Zone, start: Pos, i: int) -> bool {
    &&& z.structures@[i].kind == StructureKind::Extension
    &&& z.structures@[i].owner == Owner::Mine
    &&& free_capacity_of(z.structures@[i]) > 0
    &&& cheb_dist(start, z.structures@[i].pos) <= 1
}

/// No extension of this population with room stands beside the agent.
pub open spec fn no_ext_my_feed(z: Zone, start: Pos) -> bool {
    forall|j: int| 0 <= j < z.structures@.len() ==> !ext_my_feed_candidate(z, start, j)
}

/// No tower of this population with room stands beside the agent.
pub open spec fn no_tower_feed(z: Zone, start: Pos) -> bool {
    forall|j: int| 0 <= j < z.structures@.len() ==> !tower_feed_candidate(z, start, j)
}

/// The courier level is exhausted: no spawn, extension or tower stands
/// beside the agent and none of the three searches owed a travel path.
pub open spec fn courier_level_exhausted(z: Zone, m: CostMatrix, start: Pos) -> bool {
    &&& no_spawn_feed(z, start)
    &&& nothing_owed(z, m, start, kinded_transfer_goals(z.structures@, StructureKind::Spawn, 0))
    &&& no_ext_my_feed(z, start)
    &&& nothing_owed(
        z,
        m,
        start,
        kinded_transfer_goals(z.structures@, StructureKind::Extension, 0),
    )
    &&& no_tower_feed(z, start)
    &&& nothing_owed(z, m, start, kinded_transfer_goals(z.structures@, StructureKind::Tower, 0))
}

/// What the spawn courier may do: keep the spawn fed first, then
/// extensions, then towers, in that order — each class only after the one
/// before it had no adjacent taker and its search owed nothing — and only
/// with the whole courier level exhausted act as a plain deliverer.
pub open spec fn harvester_spawn_contract(
    z: Zone,
    m: CostMatrix,
    start: Pos,
    carrying: Seq<StoreEntry>,
    excl: ExclusionFlags,
    build_th: u32,
    cfg: BehaviorConfig,
    hp_th: u128,
    r: Action,
) -> bool {
    let spawn_set = kinded_transfer_goals(z.structures@, StructureKind::Spawn, 0);
    let ext_set = kinded_transfer_goals(z.structures@, StructureKind::Extension, 0);
    let tower_set = kinded_transfer_goals(z.structures@, StructureKind::Tower, 0);
    ||| (match r {
        Action::Transfer { structure, resource } => {
            &&& structure < z.structures@.len()
            &&& resource == ResourceType::Energy
            &&& carrying_has_kind(carrying, ResourceKind::Energy)
            &&& (spawn_feed_candidate(z, start, structure as int) || (no_spawn_feed(z, start)
                && nothing_owed(z, m, start, spawn_set) && ext_my_feed_candidate(
                z,
                start,
                structure as int,
            )) || (no_spawn_feed(z, start) && nothing_owed(z, m, start, spawn_set)
                && no_ext_my_feed(z, start) && nothing_owed(z, m, start, ext_set)
                && tower_feed_candidate(z, start, structure as int)))
        },
        Action::Travel { path } => {
            &&& path.complete
            &&& path.steps@.len() > 0
            &&& carrying_has_kind(carrying, ResourceKind::Energy)
            &&& no_spawn_feed(z, start)
            &&& (result_over(z, m, start, spawn_set, path) || (nothing_owed(z, m, start, spawn_set)
                && no_ext_my_feed(z, start) && result_over(z, m, start, ext_set, path)) || (
            nothing_owed(z, m, start, spawn_set) && no_ext_my_feed(z, start) && nothing_owed(
                z,
                m,
                start,
                ext_set,
            ) && no_tower_feed(z, start) && result_over(z, m, start, tower_set, path)))
        },
        _ => false,
    })
    ||| ((!carrying_has_kind(carrying, ResourceKind::Energy) || courier_level_exhausted(
        z,
        m,
        start,
    )) && harvester_contract(z, m, start, carrying, excl, build_th, cfg, hp_th, r))
}

/// Keep the spawn chain supplied: spawn, then extensions, then towers;
/// with everything full fall back to general delivery.
pub fn run_harvester_spawn(
    z: &Zone,
    m: &CostMatrix,
    start: Pos,
    carrying: &Vec<StoreEntry>,
    excl: ExclusionFlags,
    build_th: u32,
    cfg: &BehaviorConfig,
    hp_th: u128,
) -> (r: Action)
    requires
        z.wf(),
        m.wf(),
        start.wf(),
        cfg.wf(),
    ensures
        harvester_spawn_contract(*z, *m, start, carrying@, excl, build_th, *cfg, hp_th, r),
{
    let ghost spawn_set = kinded_transfer_goals(z.structures@, StructureKind::Spawn, 0);
    let ghost ext_set = kinded_transfer_goals(z.structures@, StructureKind::Extension, 0);
    let ghost tower_set = kinded_transfer_goals(z.structures@, StructureKind::Tower, 0);
    let has_energy = carrying_has_kind_exec(carrying, ResourceKind::Energy);
    if has_energy {
        let mut i: usize = 0;
        while i < z.structures.len()
            invariant
                i <= z.structures@.len(),
                z.wf(),
                has_energy == carrying_has_kind(carrying@, ResourceKind::Energy),
                has_energy,
                forall|j: int| 0 <= j < i ==> !spawn_feed_candidate(*z, start, j),
            decreases z.structures@.len() - i,
        {
            let s = &z.structures[i];
            if s.kind == StructureKind::Spawn && s.owner == Owner::Mine && cheb_dist_exec(
                start,
                s.pos,
            ) <= 1 {
                if free_capacity(s) > 0 {
                    return Action::Transfer { structure: i, resource: ResourceType::Energy };
                }
            }
            i = i + 1;
        }
        let path = find_nearest_transferable_structure(
            z,
            m,
            start,
            &StructureKind::Spawn,
            &ResourceType::Energy,
            None,
            None,
        );
        if path.complete {
            if path.steps.len() > 0 {
                return Action::Travel { path };
            }
        }
        proof {
            lemma_fallthrough_owed_nothing(*z, *m, start, spawn_set, path);
        }
        let mut i: usize = 0;
        while i < z.structures.len()
            invariant
                i <= z.structures@.len(),
                z.wf(),
                has_energy == carrying_has_kind(carrying@, ResourceKind::Energy),
                has_energy,
                no_spawn_feed(*z, start),
                nothing_owed(*z, *m, start, spawn_set),
                spawn_set == kinded_transfer_goals(z.structures@, StructureKind::Spawn, 0),
                forall|j: int| 0 <= j < i ==> !ext_my_feed_candidate(*z, start, j),
            decreases z.structures@.len() - i,
        {
            let s = &z.structures[i];
            if s.kind == StructureKind::Extension && s.owner == Owner::Mine && cheb_dist_exec(
                start,
                s.pos,
            ) <= 1 {
                if free_capacity(s) > 0 {
                    return Action::Transfer { structure: i, resource: ResourceType::Energy };
                }
            }
            i = i + 1;
        }
        let path = find_nearest_transferable_structure(
            z,
            m,
            start,
            &StructureKind::Extension,
            &ResourceType::Energy,
            None,
            None,
        );
        if path.complete {
            if path.steps.len() > 0 {
                return Action::Travel { path };
            }
        }
        proof {
            lemma_fallthrough_owed_nothing(*z, *m, start, ext_set, path);
        }
        let mut i: usize = 0;
        while i < z.structures.len()
            invariant
                i <= z.structures@.len(),
                z.wf(),
                has_energy == carrying_has_kind(carrying@, ResourceKind::Energy),
                has_energy,
                no_spawn_feed(*z, start),
                nothing_owed(*z, *m, start, spawn_set),
                spawn_set == kinded_transfer_goals(z.structures@, StructureKind::Spawn, 0),
                no_ext_my_feed(*z, start),
                nothing_owed(*z, *m, start, ext_set),
                ext_set == kinded_transfer_goals(z.structures@, StructureKind::Extension, 0),
                forall|j: int| 0 <= j < i ==> !tower_feed_candidate(*z, start, j),
            decreases z.structures@.len() - i,
        {
            let s = &z.structures[i];
            if s.kind == StructureKind::Tower && s.owner == Owner::Mine && cheb_dist_exec(
                start,
                s.pos,
            ) <= 1 {
                if free_capacity(s) > 0 {
                    return Action::Transfer { structure: i, resource: ResourceType::Energy };
                }
            }
            i = i + 1;
        }
        let path = find_nearest_transferable_structure(
            z,
            m,
            start,
            &StructureKind::Tower,
            &ResourceType::Energy,
            None,
            None,
        );
        if path.complete {
            if path.steps.len() > 0 {
                return Action::Travel { path };
            }
        }
        proof {
            lemma_fallthrough_owed_nothing(*z, *m, start, tower_set, path);
        }
    }
    run_harvester(z, m, start, carrying, excl, build_th, cfg, hp_th)
}

/// A structure beside the agent that takes minerals, honoring the
/// exclusions; a container takes a drop from its own tile only.
pub open spec fn mineral_feed_candidate(z: Zone, start: Pos, excl: ExclusionFlags, i: int)
    -> bool {
    &&& spec_transferable(z.structures@[i], 0)
    &&& !(excl.storages && (z.structures@[i].kind == StructureKind::Container
        || z.structures@[i].kind == StructureKind::Storage))
    &&& !(excl.terminal && z.structures@[i].kind == StructureKind::Terminal)
    &&& if z.structures@[i].kind == StructureKind::Container {
        z.structures@[i].pos == start
    } else {
        cheb_dist(start, z.structures@[i].pos) <= 1
    }
}

/// No adjacent structure takes minerals.
pub open spec fn no_mineral_feed(z: Zone, start: Pos, excl: ExclusionFlags) -> bool {
    forall|j: int| 0 <= j < z.structures@.len() ==> !mineral_feed_candidate(z, start, excl, j)
}

/// What the mineral hauler may do: hand the load to an adjacent taker,
/// travel to one the resolver found, and idle only when empty or when no
/// taker stands beside it and the search owed nothing.
pub open spec fn harvester_mineral_contract(
    z: Zone,
    m: CostMatrix,
    start: Pos,
    carrying: Seq<StoreEntry>,
    excl: ExclusionFlags,
    r: Action,
) -> bool {
    match r {
        Action::Transfer { structure, resource } => {
            &&& structure < z.structures@.len()
            &&& kind_matches_minerals(resource)
            &&& stored_of(carrying, resource) > 0
            &&& mineral_feed_candidate(z, start, excl, structure as int)
            &&& z.structures@[structure as int].kind != StructureKind::Container
        },
        Action::DropOnContainer { structure, resource } => {
            &&& structure < z.structures@.len()
            &&& kind_matches_minerals(resource)
            &&& stored_of(carrying, resource) > 0
            &&& mineral_feed_candidate(z, start, excl, structure as int)
            &&& z.structures@[structure as int].kind == StructureKind::Container
        },
        Action::Travel { path } => {
            &&& path.complete
            &&& path.steps@.len() > 0
            &&& no_mineral_feed(z, start, excl)
            &&& result_over(
                z,
                m,
                start,
                deliver_goals(z.structures@, ResourceKind::Minerals, excl, carrying),
                path,
            )
        },
        Action::Idle => {
            ||| !carrying_has_kind(carrying, ResourceKind::Minerals)
            ||| (no_mineral_feed(z, start, excl) && nothing_owed(
                z,
                m,
                start,
                deliver_goals(z.structures@, ResourceKind::Minerals, excl, carrying),
            ))
        },
        _ => false,
    }
}

/// Shorthand for a mineral-family resource type.
pub open spec fn kind_matches_minerals(rt: ResourceType) -> bool {
    crate::checks::kind_matches(rt, ResourceKind::Minerals)
}

/// Haul mined minerals to storage: the first adjacent taker, else the
/// nearest one; an empty hauler idles.
pub fn run_harvester_mineral(
    z: &Zone,
    m: &CostMatrix,
    start: Pos,
    carrying: &Vec<StoreEntry>,
    excl: ExclusionFlags,
) -> (r: Action)
    requires
        z.wf(),
        m.wf(),
        start.wf(),
    ensures
        harvester_mineral_contract(*z, *m, start, carrying@, excl, r),
{
    let carried = first_carried_of_kind(carrying, ResourceKind::Minerals);
    let rt = match carried {
        Some(rt) => rt,
        None => {
            return Action::Idle;
        }
    };
    let mut i: usize = 0;
    while i < z.structures.len()
        invariant
            i <= z.structures@.len(),
            z.wf(),
            kind_matches_minerals(rt),
            stored_of(carrying@, rt) > 0,
            forall|j: int| 0 <= j < i ==> !mineral_feed_candidate(*z, start, excl, j),
        decreases z.structures@.len() - i,
    {
        let s = &z.structures[i];
        let excluded = (excl.storages && (s.kind == StructureKind::Container || s.kind
            == StructureKind::Storage)) || (excl.terminal && s.kind == StructureKind::Terminal);
        if excluded == false {
            if s.kind == StructureKind::Container {
                if s.pos.x == start.x && s.pos.y == start.y {
                    if crate::checks::check_transferable(s, &rt, None) {
                        assert(z.structures@[i as int].pos == start);
                        return Action::DropOnContainer { structure: i, resource: rt };
                    }
                }
            } else if cheb_dist_exec(start, s.pos) <= 1 {
                if crate::checks::check_transferable(s, &rt, None) {
                    return Action::Transfer { structure: i, resource: rt };
                }
            }
        }
        proof {
            if z.structures@[i as int].kind == StructureKind::Container {
                assert(z.structures@[i as int].pos == start ==> (s.pos.x == start.x && s.pos.y
                    == start.y));
            }
        }
        i = i + 1;
    }
    let path = find_nearest_transfarable_item(z, m, start, &ResourceKind::Minerals, carrying, excl);
    if path.complete {
        if path.steps.len() > 0 {
            return Action::Travel { path };
        }
    }
    proof {
        lemma_fallthrough_owed_nothing(
            *z,
            *m,
            start,
            deliver_goals(z.structures@, ResourceKind::Minerals, excl, carrying@),
            path,
        );
    }
    Action::Idle
}

/// A terminal with room stands beside the agent.
pub open spec fn terminal_feed_candidate(z: Zone, start: Pos, i: int) -> bool {
    &&& z.structures@[i].kind == StructureKind::Terminal
    &&& spec_transferable(z.structures@[i], 0)
    &&& cheb_dist(start, z.structures@[i].pos) <= 1
}

/// What the terminal courier may do: hand the load to an adjacent
/// terminal, travel to one, and idle only when empty or when no terminal
/// stands beside it and the search owed nothing.
pub open spec fn carrier_mineral_contract(
    z: Zone,
    m: CostMatrix,
    start: Pos,
    carrying: Seq<StoreEntry>,
    r: Action,
) -> bool {
    match r {
        Action::Transfer { structure, resource } => {
            &&& structure < z.structures@.len()
            &&& kind_matches_minerals(resource)
            &&& stored_of(carrying, resource) > 0
            &&& terminal_feed_candidate(z, start, structure as int)
        },
        Action::Travel { path } => {
            &&& path.complete
            &&& path.steps@.len() > 0
            &&& (forall|j: int|
                0 <= j < z.structures@.len() ==> !terminal_feed_candidate(z, start, j))
            &&& result_over(
                z,
                m,
                start,
                terminal_goals(z.structures@, ResourceKind::Minerals, carrying),
                path,
            )
        },
        Action::Idle => {
            ||| !carrying_has_kind(carrying, ResourceKind::Minerals)
            ||| ((forall|j: int|
                0 <= j < z.structures@.len() ==> !terminal_feed_candidate(z, start, j))
                && nothing_owed(
                z,
                m,
                start,
                terminal_goals(z.structures@, ResourceKind::Minerals, carrying),
            ))
        },
        _ => false,
    }
}

/// Carry minerals to the terminal and nowhere else; an empty courier
/// idles.
pub fn run_carrier_mineral(
    z: &Zone,
    m: &CostMatrix,
    start: Pos,
    carrying: &Vec<StoreEntry>,
) -> (r: Action)
    requires
        z.wf(),
        m.wf(),
        start.wf(),
    ensures
        carrier_mineral_contract(*z, *m, start, carrying@, r),
{
    let carried = first_carried_of_kind(carrying, ResourceKind::Minerals);
    let rt = match carried {
        Some(rt) => rt,
        None => {
            return Action::Idle;
        }
    };
    let mut i: usize = 0;
    while i < z.structures.len()
        invariant
            i <= z.structures@.len(),
            z.wf(),
            kind_matches_minerals(rt),
            stored_of(carrying@, rt) > 0,
            forall|j: int| 0 <= j < i ==> !terminal_feed_candidate(*z, start, j),
        decreases z.structures@.len() - i,
    {
        let s = &z.structures[i];
        if s.kind == StructureKind::Terminal && cheb_dist_exec(start, s.pos) <= 1 {
            if crate::checks::check_transferable(s, &rt, None) {
                return Action::Transfer { structure: i, resource: rt };
            }
        }
        i = i + 1;
    }
    let path = find_nearest_transfarable_terminal(z, m, start, &ResourceKind::Minerals, carrying);
    if path.complete {
        if path.steps.len() > 0 {
            return Action::Travel { path };
        }
    }
    proof {
        lemma_fallthrough_owed_nothing(
            *z,
            *m,
            start,
            terminal_goals(z.structures@, ResourceKind::Minerals, carrying@),
            path,
        );
    }
    Action::Idle
}

} // verus!
