//! The per-tick scheduling pass over the whole population.
//!
//! First the role balancer labels every agent; then each agent takes its
//! turn: a spawning agent sleeps, an armed agent gets a combat decision
//! when a hostile demands attention, and everyone — an armed agent with
//! nothing to fight included — steps the gather/act machine: re-validating
//! the memoized target and picking a pickup or a move while gathering,
//! running the flee throttle and the role behavior while acting.  The
//! host executes each decision and reports move outcomes back through the
//! note functions of the state machine.

use vstd::prelude::*;

use crate::balancer::{
    assign_final, assign_from, balance_roles, counts_match, spec_tally, BalanceInput,
    BalancerConfig, RoleCounts,
};
use crate::behavior::{
    builder_contract, harvester_contract, harvester_mineral_contract, harvester_spawn_contract,
    repairer_contract, upgrader_contract, Action, BehaviorConfig, run_builder, run_harvester,
    run_harvester_mineral, run_harvester_spawn, run_repairer, run_upgrader,
};
use crate::cache::{ensure_cost_matrix, ensure_zone_stats, WorldCache};
use crate::cost::{spec_cost_matrix, CostMatrix};
use crate::machine::{
    acting_flee_precheck, attack_decision_ok, attacker_kind_of, attacker_routine,
    beside_active_node, choose_gather_action, gather_action_ok, gather_exclusions,
    get_role_and_attacker_kind, reset_contract, revalidate_target, spec_gather_exclusions,
    spec_toggle, target_trusted, toggle_gathering, AgentMemory, AttackDecision, GatherAction,
    TargetTier,
};
use crate::model::{
    spec_zone_lookup, stored_total, store_total_exec, zone_index_of, Agent, AttackerKind, Pos,
    ResourceKind, Role, World, Zone,
};
use crate::resolver::{flee_source_goals, ExclusionFlags};
use crate::search::{flee_result_over, PathResult};
use crate::stats::{spec_zone_stats, ZoneStats};

verus! {

/// All the scheduler's knobs in one place.
#[derive(Clone, Copy, PartialEq, Eq, Structural, Debug)]
pub struct SchedulerConfig {
    pub balancer: BalancerConfig,
    pub behavior: BehaviorConfig,
}

impl SchedulerConfig {
    pub open spec fn wf(self) -> bool {
        self.balancer.wf() && self.behavior.wf()
    }
}

/// One agent's decision for the tick.
#[derive(Clone, Debug)]
pub enum TickAction {
    Sleep,
    Combat { decision: AttackDecision },
    Gather { action: GatherAction, path: PathResult, target: Pos, tier: TargetTier },
    Act { action: Action },
    Flee { path: PathResult },
}

/// The resource kind a role gathers.
pub open spec fn role_kind(role: Role) -> ResourceKind {
    if role == Role::HarvesterMineral {
        ResourceKind::Minerals
    } else {
        ResourceKind::Energy
    }
}

/// Whether the role gathers at primary nodes first.
pub open spec fn role_is_harvester(role: Role) -> bool {
    role == Role::Harvester || role == Role::HarvesterMineral
}

/// The load the agent carries, and the room left beside it.
pub open spec fn spec_used_of(agent: Agent) -> u32 {
    stored_total(agent.store@) as u32
}

pub open spec fn spec_free_of(agent: Agent) -> u32 {
    (agent.store_capacity - stored_total(agent.store@)) as u32
}

/// The builder's work-left ceiling for the tick, from the statistics.
pub open spec fn spec_build_threshold(stats: ZoneStats) -> u32 {
    if stats.build_avg + 1 > u32::MAX as int {
        u32::MAX
    } else {
        (stats.build_avg + 1) as u32
    }
}

/// The repairer's hit-point ceiling for the tick, from the statistics.
pub open spec fn spec_hp_threshold(stats: ZoneStats) -> u128 {
    if stats.hp_avg >= stats.hp_min {
        (stats.hp_min + (stats.hp_avg - stats.hp_min) / 1000 + 1) as u128
    } else {
        (stats.hp_min + 1) as u128
    }
}

/// The behavior dispatch: which behavior contract the acting decision of
/// each role must satisfy.
pub open spec fn role_behavior_ok(
    z: Zone,
    mv: CostMatrix,
    start: Pos,
    carrying: Seq<crate::model::StoreEntry>,
    excl: ExclusionFlags,
    role: Role,
    build_th: u32,
    bcfg: BehaviorConfig,
    hp_th: u128,
    action: Action,
) -> bool {
    match role {
        Role::Harvester => harvester_contract(
            z,
            mv,
            start,
            carrying,
            excl,
            build_th,
            bcfg,
            hp_th,
            action,
        ),
        Role::HarvesterSpawn => harvester_spawn_contract(
            z,
            mv,
            start,
            carrying,
            excl,
            build_th,
            bcfg,
            hp_th,
            action,
        ),
        Role::HarvesterMineral => harvester_mineral_contract(z, mv, start, carrying, excl, action),
        Role::Builder => builder_contract(z, mv, start, build_th, bcfg, hp_th, action),
        Role::Upgrader => upgrader_contract(z, mv, start, action),
        Role::Repairer => repairer_contract(z, mv, start, bcfg, hp_th, action),
        Role::Attacker => action is Idle,
    }
}

/// What an acting agent's memory looks like after the flee throttle when
/// no flee was attempted.
pub open spec fn spec_flee_cooldown_mem(mem: AgentMemory) -> AgentMemory {
    let count = match mem.fleeing_count {
        Some(c) => c as int,
        None => 0int,
    };
    if count <= 0 {
        mem
    } else {
        AgentMemory { fleeing_count: Some((count - 1) as i32), ..mem }
    }
}

/// The whole contract of one non-combat agent turn against one zone and
/// its cost matrix.
pub open spec fn civil_tick_ok(
    z: Zone,
    mv: CostMatrix,
    zone_id: u16,
    agent: Agent,
    mem0: AgentMemory,
    cfg: SchedulerConfig,
    role: Role,
    out_mem: AgentMemory,
    act: TickAction,
) -> bool {
    let toggled = spec_toggle(mem0, spec_free_of(agent), spec_used_of(agent));
    let kind = role_kind(role);
    let is_harv = role_is_harvester(role);
    let stats = spec_zone_stats(z);
    match act {
        TickAction::Gather { action, path, target, tier } => {
            &&& toggled.gathering
            &&& exists|dmem: AgentMemory|
                {
                    &&& gather_action_ok(
                        z,
                        agent.pos,
                        kind,
                        dmem.will_harvest_from_storage == Some(true),
                        #[trigger] spec_gather_exclusions(dmem),
                        action,
                    )
                    &&& (target_trusted(z, zone_id, agent.id, toggled) ==> tier == TargetTier::Kept
                        && dmem == toggled)
                    &&& (!target_trusted(z, zone_id, agent.id, toggled) ==> tier
                        != TargetTier::Kept && reset_contract(
                        z,
                        mv,
                        zone_id,
                        agent.pos,
                        AgentMemory { target_pos: None, ..toggled },
                        is_harv,
                        kind,
                        cfg.behavior.terminal_keep_energy,
                        crate::machine::TargetDecision { mem: dmem, path, target, tier },
                    ))
                    &&& out_mem == (if action == GatherAction::MoveToTarget && target == agent.pos {
                        AgentMemory { target_pos: None, ..dmem }
                    } else {
                        dmem
                    })
                }
        },
        TickAction::Flee { path } => {
            &&& !toggled.gathering
            &&& beside_active_node(z, agent.pos)
            &&& (match toggled.fleeing_count {
                Some(c) => c as int <= 0,
                None => true,
            })
            &&& flee_result_over(z, mv, agent.pos, flee_source_goals(z.sources@), path)
            &&& out_mem == toggled
        },
        TickAction::Act { action } => {
            &&& !toggled.gathering
            &&& !((match toggled.fleeing_count {
                Some(c) => c as int,
                None => 0int,
            }) <= 0 && beside_active_node(z, agent.pos))
            &&& out_mem == spec_flee_cooldown_mem(toggled)
            &&& role_behavior_ok(
                z,
                mv,
                agent.pos,
                agent.store@,
                spec_gather_exclusions(toggled),
                role,
                spec_build_threshold(stats),
                cfg.behavior,
                spec_hp_threshold(stats),
                action,
            )
        },
        _ => false,
    }
}

/// The whole contract of one agent turn: sleep while spawning or with the
/// zone out of sight, decide combat when armed, and otherwise step the
/// gather/act machine against the tick's cached matrix of the agent's
/// zone.
pub open spec fn agent_tick_ok(
    world: World,
    agent: Agent,
    mem0: AgentMemory,
    cfg: SchedulerConfig,
    role: Role,
    out_mem: AgentMemory,
    act: TickAction,
) -> bool {
    if agent.spawning {
        out_mem == mem0 && act is Sleep
    } else {
        match spec_zone_lookup(world, agent.zone) {
            None => out_mem == mem0 && act is Sleep,
            Some(zi) => {
                let z = world.zones@[zi];
                match act {
                    TickAction::Combat { decision } => {
                        &&& attacker_kind_of(agent.body@) != AttackerKind::Unarmed
                        &&& !(decision is Stand)
                        &&& out_mem == mem0
                        &&& exists|mv: CostMatrix|
                            (#[trigger] mv.cells@) == spec_cost_matrix(z) && attack_decision_ok(
                                z,
                                mv,
                                agent.pos,
                                attacker_kind_of(agent.body@),
                                decision,
                            )
                    },
                    _ => {
                        &&& (attacker_kind_of(agent.body@) != AttackerKind::Unarmed
                            ==> exists|mv2: CostMatrix|
                            (#[trigger] mv2.cells@) == spec_cost_matrix(z) && attack_decision_ok(
                                z,
                                mv2,
                                agent.pos,
                                attacker_kind_of(agent.body@),
                                AttackDecision::Stand,
                            ))
                        &&& exists|mv: CostMatrix|
                            (#[trigger] mv.cells@) == spec_cost_matrix(z) && civil_tick_ok(
                                z,
                                mv,
                                agent.zone,
                                agent,
                                mem0,
                                cfg,
                                role,
                                out_mem,
                                act,
                            )
                    },
                }
            },
        }
    }
}

/// Run one agent's turn.  `mem0` already carries the role the balancer
/// settled on for this tick.
pub fn agent_tick(
    world: &World,
    cache: &mut WorldCache,
    agent: &Agent,
    mem0: AgentMemory,
    cfg: &SchedulerConfig,
    role: Role,
) -> (r: (AgentMemory, TickAction))
    requires
        world.wf(),
        old(cache).valid_for(*world),
        agent.wf(),
        cfg.wf(),
        forall|i: int|
            0 <= i < world.zones@.len() ==> (#[trigger] world.zones@[i]).structures@.len()
                < 0x1_0000_0000 && world.zones@[i].sites@.len() < 0x1_0000_0000,
    ensures
        final(cache).valid_for(*world),
        agent_tick_ok(*world, *agent, mem0, *cfg, role, r.0, r.1),
{
    if agent.spawning {
        return (mem0, TickAction::Sleep);
    }
    let zi = match zone_index_of(world, agent.zone) {
        Some(zi) => {
            proof {
                crate::model::lemma_zone_lookup_agrees(*world, agent.zone, zi as int);
            }
            zi
        }
        None => {
            proof {
                crate::model::lemma_zone_lookup_none(*world, agent.zone);
            }
            return (mem0, TickAction::Sleep);
        }
    };
    ensure_zone_stats(cache, world, zi);
    proof {
        crate::stats::lemma_stats_bounds(world.zones@[zi as int]);
    }
    let (build_th, hp_th) = match &cache.stats[zi] {
        Some(s) => {
            let b: u32 = if s.build_avg >= u32::MAX as u128 {
                u32::MAX
            } else {
                (s.build_avg + 1) as u32
            };
            let h: u128 = if s.hp_avg >= s.hp_min {
                s.hp_min + (s.hp_avg - s.hp_min) / 1000 + 1
            } else {
                s.hp_min + 1
            };
            (b, h)
        }
        None => (0, 0),
    };
    assert(build_th == spec_build_threshold(spec_zone_stats(world.zones@[zi as int])));
    assert(hp_th == spec_hp_threshold(spec_zone_stats(world.zones@[zi as int])));
    ensure_cost_matrix(cache, world, zi);
    let z = &world.zones[zi];
    let m = match &cache.matrices[zi] {
        Some(m) => m,
        None => {
            proof {
                assert(false);
            }
            return (mem0, TickAction::Sleep);
        }
    };
    assert(m.wf() && m.cells@ == spec_cost_matrix(world.zones@[zi as int]));

    let (_, akind) = get_role_and_attacker_kind(&mem0, &agent.body);
    if akind != AttackerKind::Unarmed {
        let decision = attacker_routine(z, m, agent.pos, akind);
        match decision {
            AttackDecision::Stand => {
                // no hostile demanded attention: the civil turn proceeds
            }
            _ => {
                return (mem0, TickAction::Combat { decision });
            }
        }
    }

    // gather/act toggle on the current load
    let used64 = match store_total_exec(&agent.store) {
        Some(v) => v,
        None => 0,
    };
    assert(used64 == stored_total(agent.store@));
    let used: u32 = used64 as u32;
    let free: u32 = agent.store_capacity - used;
    let toggled = toggle_gathering(mem0, free, used);

    if toggled.gathering {
        let kind = if role == Role::HarvesterMineral {
            ResourceKind::Minerals
        } else {
            ResourceKind::Energy
        };
        let is_harv = role == Role::Harvester || role == Role::HarvesterMineral;
        let d = revalidate_target(
            z,
            m,
            agent.zone,
            agent.id,
            agent.pos,
            toggled,
            is_harv,
            &kind,
            cfg.behavior.terminal_keep_energy,
        );
        let excl = gather_exclusions(&d.mem);
        let will = match d.mem.will_harvest_from_storage {
            Some(b) => b,
            None => false,
        };
        let action = choose_gather_action(z, agent.pos, &kind, will, excl);
        let arrived = action == GatherAction::MoveToTarget && d.target.x == agent.pos.x
            && d.target.y == agent.pos.y;
        let out_mem = if arrived {
            AgentMemory { target_pos: None, ..d.mem }
        } else {
            d.mem
        };
        proof {
            assert(d.target == agent.pos <==> (d.target.x == agent.pos.x && d.target.y
                == agent.pos.y));
        }
        (out_mem, TickAction::Gather { action, path: d.path, target: d.target, tier: d.tier })
    } else {
        let pre = acting_flee_precheck(z, m, agent.pos, toggled);
        match pre.1 {
            Some(path) => (pre.0, TickAction::Flee { path }),
            None => {
                let excl = gather_exclusions(&toggled);
                let action = match role {
                    Role::Harvester => run_harvester(
                        z,
                        m,
                        agent.pos,
                        &agent.store,
                        excl,
                        build_th,
                        &cfg.behavior,
                        hp_th,
                    ),
                    Role::HarvesterSpawn => run_harvester_spawn(
                        z,
                        m,
                        agent.pos,
                        &agent.store,
                        excl,
                        build_th,
                        &cfg.behavior,
                        hp_th,
                    ),
                    Role::HarvesterMineral => run_harvester_mineral(
                        z,
                        m,
                        agent.pos,
                        &agent.store,
                        excl,
                    ),
                    Role::Builder => run_builder(z, m, agent.pos, build_th, &cfg.behavior, hp_th),
                    Role::Upgrader => run_upgrader(z, m, agent.pos),
                    Role::Repairer => run_repairer(z, m, agent.pos, &cfg.behavior, hp_th),
                    Role::Attacker => Action::Idle,
                };
                (pre.0, TickAction::Act { action })
            }
        }
    }
}

/// The balancer inputs the population presents this tick.
pub open spec fn spec_infos(agents: Seq<Agent>, mems: Seq<AgentMemory>) -> Seq<BalanceInput> {
    Seq::new(
        agents.len(),
        |i: int|
            BalanceInput {
                role: mems[i].role,
                attacker: attacker_kind_of(agents[i].body@),
                capacity: agents[i].store_capacity,
            },
    )
}

/// The whole per-tick pass: balance the roles over the population, then
/// take every agent's turn in order.  Returns the updated memories, one
/// decision per agent, and the role counts the host publishes for the
/// production heuristic.
pub fn creep_loop(
    world: &World,
    cache: &mut WorldCache,
    agents: &Vec<Agent>,
    mems: &Vec<AgentMemory>,
    cfg: &SchedulerConfig,
) -> (r: (Vec<AgentMemory>, Vec<TickAction>, RoleCounts))
    requires
        world.wf(),
        old(cache).valid_for(*world),
        cfg.wf(),
        agents@.len() == mems@.len(),
        agents@.len() <= u32::MAX,
        forall|i: int| 0 <= i < agents@.len() ==> (#[trigger] agents@[i]).wf(),
        forall|i: int|
            0 <= i < world.zones@.len() ==> (#[trigger] world.zones@[i]).structures@.len()
                < 0x1_0000_0000 && world.zones@[i].sites@.len() < 0x1_0000_0000,
    ensures
        final(cache).valid_for(*world),
        r.0@.len() == agents@.len(),
        r.1@.len() == agents@.len(),
        ({
            let infos = spec_infos(agents@, mems@);
            let roles = assign_from(spec_tally(infos), infos.len() as int, cfg.balancer, infos);
            &&& counts_match(
                r.2,
                assign_final(spec_tally(infos), infos.len() as int, cfg.balancer, infos),
            )
            &&& forall|i: int| 0 <= i < agents@.len() ==> (#[trigger] r.0@[i]).role == Some(
                roles[i],
            )
            &&& forall|i: int|
                0 <= i < agents@.len() ==> agent_tick_ok(
                    *world,
                    agents@[i],
                    (#[trigger] spec_with_role(mems@[i], roles[i])),
                    *cfg,
                    roles[i],
                    r.0@[i],
                    r.1@[i],
                )
        }),
{
    // first pass: collect the balancer's view of the population
    let mut infos: Vec<BalanceInput> = Vec::new();
    let mut i: usize = 0;
    while i < agents.len()
        invariant
            i <= agents@.len(),
            agents@.len() == mems@.len(),
            infos@.len() == i,
            forall|j: int| 0 <= j < i ==> infos@[j] == spec_infos(agents@, mems@)[j],
        decreases agents@.len() - i,
    {
        let (role, akind) = get_role_and_attacker_kind(&mems[i], &agents[i].body);
        infos.push(BalanceInput { role, attacker: akind, capacity: agents[i].store_capacity });
        i = i + 1;
    }
    assert(infos@ =~= spec_infos(agents@, mems@));

    let (roles, counts) = balance_roles(&infos, &cfg.balancer);
    let ghost roles_spec = assign_from(
        spec_tally(spec_infos(agents@, mems@)),
        agents@.len() as int,
        cfg.balancer,
        spec_infos(agents@, mems@),
    );
    proof {
        crate::balancer::lemma_balancer_one_role_each(
            spec_tally(spec_infos(agents@, mems@)),
            agents@.len() as int,
            cfg.balancer,
            spec_infos(agents@, mems@),
        );
    }

    // second pass: every agent's turn, with its tick role written back
    let mut out_mems: Vec<AgentMemory> = Vec::new();
    let mut out_acts: Vec<TickAction> = Vec::new();
    let mut i: usize = 0;
    while i < agents.len()
        invariant
            world.wf(),
            cache.valid_for(*world),
            cfg.wf(),
            agents@.len() == mems@.len(),
            agents@.len() <= u32::MAX,
            forall|j: int| 0 <= j < agents@.len() ==> (#[trigger] agents@[j]).wf(),
            forall|j: int|
                0 <= j < world.zones@.len() ==> (#[trigger] world.zones@[j]).structures@.len()
                    < 0x1_0000_0000 && world.zones@[j].sites@.len() < 0x1_0000_0000,
            i <= agents@.len(),
            roles@ == roles_spec,
            roles@.len() == agents@.len(),
            out_mems@.len() == i,
            out_acts@.len() == i,
            forall|j: int| 0 <= j < i ==> (#[trigger] out_mems@[j]).role == Some(roles_spec[j]),
            forall|j: int|
                0 <= j < i ==> agent_tick_ok(
                    *world,
                    agents@[j],
                    (#[trigger] spec_with_role(mems@[j], roles_spec[j])),
                    *cfg,
                    roles_spec[j],
                    out_mems@[j],
                    out_acts@[j],
                ),
        decreases agents@.len() - i,
    {
        let role = roles[i];
        let mem0 = copy_mem_with_role(&mems[i], role);
        assert(mem0 == spec_with_role(mems@[i as int], roles_spec[i as int]));
        let (out_mem, act) = agent_tick(world, cache, &agents[i], mem0, cfg, role);
        assert(out_mem.role == Some(roles_spec[i as int])) by {
            reveal_agent_role(*world, agents@[i as int], spec_with_role(
                mems@[i as int],
                roles_spec[i as int],
            ), *cfg, roles_spec[i as int], out_mem, act);
        }
        out_mems.push(out_mem);
        out_acts.push(act);
        i = i + 1;
    }
    (out_mems, out_acts, counts)
}

/// A memory record with this tick's role written in.
pub open spec fn spec_with_role(mem: AgentMemory, role: Role) -> AgentMemory {
    AgentMemory { role: Some(role), ..mem }
}

/// Read a memory record back with this tick's role written in.
fn copy_mem_with_role(mem: &AgentMemory, role: Role) -> (r: AgentMemory)
    ensures
        r == spec_with_role(*mem, role),
{
    AgentMemory { role: Some(role), ..*mem }
}

/// Every step of the agent turn leaves the role field alone, so the role
/// the balancer wrote survives the turn.
pub proof fn reveal_agent_role(
    world: World,
    agent: Agent,
    mem0: AgentMemory,
    cfg: SchedulerConfig,
    role: Role,
    out_mem: AgentMemory,
    act: TickAction,
)
    requires
        agent_tick_ok(world, agent, mem0, cfg, role, out_mem, act),
        mem0.role == Some(role),
    ensures
        out_mem.role == Some(role),
{
    if !agent.spawning {
        match spec_zone_lookup(world, agent.zone) {
            None => {},
            Some(zi) => {
                let z = world.zones@[zi];
                if act matches TickAction::Combat { decision } {
                    // combat leaves memory untouched
                } else {
                    let mv = choose|mv: CostMatrix|
                        mv.cells@ == spec_cost_matrix(z) && civil_tick_ok(
                            z,
                            mv,
                            agent.zone,
                            agent,
                            mem0,
                            cfg,
                            role,
                            out_mem,
                            act,
                        );
                    let toggled = spec_toggle(mem0, spec_free_of(agent), spec_used_of(agent));
                    assert(toggled.role == Some(role));
                    match act {
                        TickAction::Gather { action, path, target, tier } => {
                            let dmem = choose|dmem: AgentMemory|
                                {
                                    &&& gather_action_ok(
                                        z,
                                        agent.pos,
                                        role_kind(role),
                                        dmem.will_harvest_from_storage == Some(true),
                                        spec_gather_exclusions(dmem),
                                        action,
                                    )
                                    &&& (target_trusted(z, agent.zone, agent.id, toggled)
                                        ==> tier == TargetTier::Kept && dmem == toggled)
                                    &&& (!target_trusted(z, agent.zone, agent.id, toggled)
                                        ==> tier != TargetTier::Kept && reset_contract(
                                        z,
                                        mv,
                                        agent.zone,
                                        agent.pos,
                                        AgentMemory { target_pos: None, ..toggled },
                                        role_is_harvester(role),
                                        role_kind(role),
                                        cfg.behavior.terminal_keep_energy,
                                        crate::machine::TargetDecision {
                                            mem: dmem,
                                            path,
                                            target,
                                            tier,
                                        },
                                    ))
                                    &&& out_mem == (if action == GatherAction::MoveToTarget
                                        && target == agent.pos {
                                        AgentMemory { target_pos: None, ..dmem }
                                    } else {
                                        dmem
                                    })
                                };
                            // in every tier the written memory keeps the
                            // role field of the record it was derived from
                            assert(dmem.role == Some(role));
                        },
                        _ => {},
                    }
                }
            },
        }
    }
}

} // verus!
