//! The agent state machine, the role balancer, the behaviors, and one
//! whole scheduling pass.

use gridplan::balancer::{balance_roles, BalanceInput, BalancerConfig};
use gridplan::behavior::{run_harvester, run_repairer, run_upgrader, Action, BehaviorConfig};
use gridplan::cache::WorldCache;
use gridplan::checks::{check_transferable, get_live_tickcount, DecayConfig};
use gridplan::codec::ZonePos;
use gridplan::cost::calc_room_cost;
use gridplan::machine::{
    attacker_routine, choose_gather_action, get_role_and_attacker_kind, note_move_result,
    toggle_gathering, AgentMemory, AttackDecision, CommandResult, GatherAction,
};
use gridplan::model::{
    Agent, AgentPresence, AttackerKind, DroppedResource, Owner, PartKind, Pos, ResourceKind,
    ResourceType, Role, SourceNode, StoreEntry, Structure, StructureKind, Terrain, World, Zone,
};
use gridplan::resolver::ExclusionFlags;
use gridplan::scheduler::{creep_loop, SchedulerConfig, TickAction};

fn open_zone(id: u16) -> Zone {
    Zone {
        id,
        terrain: vec![Terrain::Plain; 2500],
        structures: vec![],
        sites: vec![],
        agents: vec![],
        piles: vec![],
        tombstones: vec![],
        ruins: vec![],
        sources: vec![],
        minerals: vec![],
        deposits: vec![],
    }
}

fn decay_config() -> DecayConfig {
    DecayConfig {
        road_decay_time: 1000,
        road_decay_amount: 100,
        road_swamp_ratio: 5,
        road_wall_ratio: 150,
        container_decay_time: 500,
        container_decay: 5000,
        rampart_decay_time: 100,
        rampart_decay_amount: 300,
    }
}

fn behavior_config() -> BehaviorConfig {
    BehaviorConfig {
        extension_max_cost: 20,
        repairer_dying_threshold: 100,
        terminal_keep_energy: 10000,
        decay: decay_config(),
    }
}

fn scheduler_config() -> SchedulerConfig {
    SchedulerConfig {
        balancer: BalancerConfig { quota_divisor: 6, mineral_population_threshold: 20 },
        behavior: behavior_config(),
    }
}

fn plain_input() -> BalanceInput {
    BalanceInput { role: None, attacker: AttackerKind::Unarmed, capacity: 50 }
}

#[test]
fn transition_to_acting_clears_target() {
    let mem = AgentMemory {
        gathering: true,
        target_pos: Some(ZonePos { zone: 1, x: 5, y: 5 }),
        target_pos_count: Some(7),
        will_harvest_from_storage: Some(true),
        ..AgentMemory::new()
    };
    let after = toggle_gathering(mem, 0, 50);
    assert!(!after.gathering);
    assert!(after.target_pos.is_none());
    assert!(after.target_pos_count.is_none());
    assert!(after.will_harvest_from_storage.is_none());
}

#[test]
fn transition_to_gathering_clears_target() {
    let mem = AgentMemory {
        gathering: false,
        target_pos: Some(ZonePos { zone: 1, x: 5, y: 5 }),
        target_pos_count: Some(7),
        harvested_from_storage: Some(true),
        ..AgentMemory::new()
    };
    let after = toggle_gathering(mem, 50, 0);
    assert!(after.gathering);
    assert!(after.target_pos.is_none());
    assert!(after.target_pos_count.is_none());
    assert!(after.harvested_from_storage.is_none());
}

#[test]
fn toggle_waits_for_the_boundary() {
    let mem = AgentMemory {
        gathering: true,
        target_pos: Some(ZonePos { zone: 1, x: 5, y: 5 }),
        target_pos_count: Some(7),
        ..AgentMemory::new()
    };
    let after = toggle_gathering(mem, 10, 40);
    assert!(after.gathering);
    assert_eq!(after.target_pos, Some(ZonePos { zone: 1, x: 5, y: 5 }));
    assert_eq!(after.target_pos_count, Some(7));
}

#[test]
fn ttl_exhaustion_deletes_target() {
    let mem = AgentMemory {
        gathering: true,
        target_pos: Some(ZonePos { zone: 1, x: 5, y: 5 }),
        target_pos_count: Some(1),
        ..AgentMemory::new()
    };
    let after = note_move_result(mem, CommandResult::Tired);
    assert!(after.target_pos.is_none());
    assert!(after.target_pos_count.is_none());
}

#[test]
fn ttl_burns_one_tick_per_failure() {
    let mem = AgentMemory {
        target_pos: Some(ZonePos { zone: 1, x: 5, y: 5 }),
        target_pos_count: Some(3),
        ..AgentMemory::new()
    };
    let after = note_move_result(mem, CommandResult::Failed);
    assert_eq!(after.target_pos_count, Some(2));
    assert!(after.target_pos.is_some());
}

#[test]
fn unreachable_target_dropped_at_once() {
    let mem = AgentMemory {
        target_pos: Some(ZonePos { zone: 1, x: 5, y: 5 }),
        target_pos_count: Some(9),
        ..AgentMemory::new()
    };
    let after = note_move_result(mem, CommandResult::NoPath);
    assert!(after.target_pos.is_none());
    assert!(after.target_pos_count.is_none());
}

#[test]
fn successful_move_leaves_memory_alone() {
    let mem = AgentMemory {
        target_pos: Some(ZonePos { zone: 1, x: 5, y: 5 }),
        target_pos_count: Some(9),
        ..AgentMemory::new()
    };
    let after = note_move_result(mem, CommandResult::Done);
    assert_eq!(after.target_pos, Some(ZonePos { zone: 1, x: 5, y: 5 }));
    assert_eq!(after.target_pos_count, Some(9));
}

#[test]
fn balancer_seeds_the_spawn_courier() {
    let infos = vec![plain_input()];
    let (roles, counts) = balance_roles(&infos, &scheduler_config().balancer);
    assert_eq!(roles, vec![Role::HarvesterSpawn]);
    assert_eq!(counts.harvester_spawn, 1);
    assert_eq!(counts.cap_worker_carry, 50);
}

#[test]
fn balancer_quotas_over_eight_agents() {
    let infos = vec![plain_input(); 8];
    let (roles, counts) = balance_roles(&infos, &scheduler_config().balancer);
    assert_eq!(
        roles,
        vec![
            Role::HarvesterSpawn,
            Role::Upgrader,
            Role::Upgrader,
            Role::Builder,
            Role::Repairer,
            Role::Harvester,
            Role::Harvester,
            Role::Harvester,
        ]
    );
    let sum = counts.harvester + counts.harvester_spawn + counts.harvester_mineral + counts.builder
        + counts.upgrader + counts.repairer + counts.attacker;
    assert_eq!(sum, 8);
}

#[test]
fn balancer_seeds_one_mineral_harvester_in_large_populations() {
    let infos = vec![plain_input(); 24];
    let (roles, counts) = balance_roles(&infos, &scheduler_config().balancer);
    assert_eq!(roles[0], Role::HarvesterSpawn);
    assert_eq!(roles.iter().filter(|r| **r == Role::HarvesterMineral).count(), 1);
    assert_eq!(counts.harvester_mineral, 1);
    let sum = counts.harvester + counts.harvester_spawn + counts.harvester_mineral + counts.builder
        + counts.upgrader + counts.repairer + counts.attacker;
    assert_eq!(sum, 24);
}

#[test]
fn balancer_keeps_existing_roles() {
    let mut infos = vec![plain_input(); 3];
    infos[1].role = Some(Role::Builder);
    let (roles, _) = balance_roles(&infos, &scheduler_config().balancer);
    assert_eq!(roles[1], Role::Builder);
}

#[test]
fn attacker_kind_read_from_body() {
    let mem = AgentMemory::new();
    let body = vec![PartKind::Tough, PartKind::RangedAttack, PartKind::Attack];
    let (role, kind) = get_role_and_attacker_kind(&mem, &body);
    assert!(role.is_none());
    assert_eq!(kind, AttackerKind::Ranged);
    let (_, unarmed) = get_role_and_attacker_kind(&mem, &vec![PartKind::Work, PartKind::Carry]);
    assert_eq!(unarmed, AttackerKind::Unarmed);
}

#[test]
fn gather_priority_pile_before_node() {
    let mut z = open_zone(1);
    z.piles.push(DroppedResource { pos: Pos { x: 10, y: 11 }, resource: ResourceType::Energy, amount: 10 });
    z.sources.push(SourceNode { pos: Pos { x: 10, y: 9 }, energy: 100, ticks_to_regeneration: 0 });
    let action = choose_gather_action(
        &z,
        Pos { x: 10, y: 10 },
        &ResourceKind::Energy,
        false,
        ExclusionFlags::none(),
    );
    assert_eq!(action, GatherAction::PickupPile { index: 0 });
}

#[test]
fn gather_node_when_no_loot() {
    let mut z = open_zone(2);
    z.sources.push(SourceNode { pos: Pos { x: 10, y: 9 }, energy: 100, ticks_to_regeneration: 0 });
    let action = choose_gather_action(
        &z,
        Pos { x: 10, y: 10 },
        &ResourceKind::Energy,
        false,
        ExclusionFlags::none(),
    );
    assert_eq!(action, GatherAction::HarvestNode { index: 0 });
}

#[test]
fn gather_reserve_draw_honors_flag() {
    let mut z = open_zone(3);
    z.structures.push(Structure {
        kind: StructureKind::Container,
        pos: Pos { x: 10, y: 11 },
        owner: Owner::Neutral,
        hits: 100,
        hits_max: 100,
        store: vec![StoreEntry { resource: ResourceType::Energy, amount: 300 }],
        store_capacity: 2000,
    });
    let drawing = choose_gather_action(
        &z,
        Pos { x: 10, y: 10 },
        &ResourceKind::Energy,
        true,
        ExclusionFlags::none(),
    );
    assert_eq!(drawing, GatherAction::DrawReserve { index: 0, resource: ResourceType::Energy });
    let not_drawing = choose_gather_action(
        &z,
        Pos { x: 10, y: 10 },
        &ResourceKind::Energy,
        false,
        ExclusionFlags::none(),
    );
    assert_eq!(not_drawing, GatherAction::MoveToTarget);
    let excluded = choose_gather_action(
        &z,
        Pos { x: 10, y: 10 },
        &ResourceKind::Energy,
        true,
        ExclusionFlags { storages: true, terminal: false, link: false },
    );
    assert_eq!(excluded, GatherAction::MoveToTarget);
}

#[test]
fn attacker_strikes_adjacent_enemy() {
    let mut z = open_zone(4);
    z.agents.push(AgentPresence { id: 50, pos: Pos { x: 5, y: 5 }, mine: false });
    let m = calc_room_cost(&z);
    let d = attacker_routine(&z, &m, Pos { x: 5, y: 6 }, AttackerKind::Short);
    assert!(matches!(d, AttackDecision::Strike { enemy: 0 }));
}

#[test]
fn attacker_approaches_distant_enemy() {
    let mut z = open_zone(5);
    z.agents.push(AgentPresence { id: 50, pos: Pos { x: 30, y: 30 }, mine: false });
    let m = calc_room_cost(&z);
    let d = attacker_routine(&z, &m, Pos { x: 5, y: 5 }, AttackerKind::Short);
    match d {
        AttackDecision::Approach { path } => {
            assert!(path.complete);
            assert!(!path.steps.is_empty());
        }
        other => panic!("expected an approach, got {:?}", other),
    }
}

#[test]
fn upgrader_reaches_for_the_controller() {
    let mut z = open_zone(6);
    z.structures.push(Structure {
        kind: StructureKind::Controller,
        pos: Pos { x: 12, y: 10 },
        owner: Owner::Mine,
        hits: 1,
        hits_max: 1,
        store: vec![],
        store_capacity: 0,
    });
    let m = calc_room_cost(&z);
    let near = run_upgrader(&z, &m, Pos { x: 10, y: 10 });
    assert!(matches!(near, Action::Upgrade { structure: 0 }));
    let far = run_upgrader(&z, &m, Pos { x: 40, y: 40 });
    assert!(matches!(far, Action::Travel { .. }));
}

#[test]
fn repairer_prefers_the_spawn() {
    let mut z = open_zone(7);
    z.structures.push(Structure {
        kind: StructureKind::Spawn,
        pos: Pos { x: 11, y: 10 },
        owner: Owner::Mine,
        hits: 900,
        hits_max: 1000,
        store: vec![],
        store_capacity: 300,
    });
    let m = calc_room_cost(&z);
    let r = run_repairer(&z, &m, Pos { x: 10, y: 10 }, &behavior_config(), 50);
    assert!(matches!(r, Action::Repair { structure: 0 }));
}

#[test]
fn harvester_feeds_the_adjacent_spawn() {
    let mut z = open_zone(8);
    z.structures.push(Structure {
        kind: StructureKind::Spawn,
        pos: Pos { x: 11, y: 10 },
        owner: Owner::Mine,
        hits: 1000,
        hits_max: 1000,
        store: vec![StoreEntry { resource: ResourceType::Energy, amount: 100 }],
        store_capacity: 300,
    });
    let m = calc_room_cost(&z);
    let carrying = vec![StoreEntry { resource: ResourceType::Energy, amount: 40 }];
    let r = run_harvester(
        &z,
        &m,
        Pos { x: 10, y: 10 },
        &carrying,
        ExclusionFlags::none(),
        10,
        &behavior_config(),
        50,
    );
    match r {
        Action::Transfer { structure, resource } => {
            assert_eq!(structure, 0);
            assert_eq!(resource, ResourceType::Energy);
        }
        other => panic!("expected a transfer, got {:?}", other),
    }
}

#[test]
fn transferable_respects_the_capacity_share() {
    let s = Structure {
        kind: StructureKind::Storage,
        pos: Pos { x: 1, y: 1 },
        owner: Owner::Mine,
        hits: 100,
        hits_max: 100,
        store: vec![StoreEntry { resource: ResourceType::Energy, amount: 600 }],
        store_capacity: 1000,
    };
    assert!(check_transferable(&s, &ResourceType::Energy, None));
    assert!(!check_transferable(&s, &ResourceType::Energy, Some(500)));
    assert!(check_transferable(&s, &ResourceType::Energy, Some(300)));
}

#[test]
fn live_tickcount_formulas() {
    let cfg = decay_config();
    let road = Structure {
        kind: StructureKind::Road,
        pos: Pos { x: 1, y: 1 },
        owner: Owner::Neutral,
        hits: 5000,
        hits_max: 5000,
        store: vec![],
        store_capacity: 0,
    };
    assert_eq!(get_live_tickcount(&road, Terrain::Plain, &cfg), Some(50000));
    assert_eq!(get_live_tickcount(&road, Terrain::Swamp, &cfg), Some(10000));
    let container = Structure {
        kind: StructureKind::Container,
        pos: Pos { x: 2, y: 2 },
        owner: Owner::Neutral,
        hits: 100000,
        hits_max: 250000,
        store: vec![],
        store_capacity: 2000,
    };
    assert_eq!(get_live_tickcount(&container, Terrain::Plain, &cfg), Some(10000));
    let tower = Structure {
        kind: StructureKind::Tower,
        pos: Pos { x: 3, y: 3 },
        owner: Owner::Mine,
        hits: 10,
        hits_max: 3000,
        store: vec![],
        store_capacity: 1000,
    };
    assert_eq!(get_live_tickcount(&tower, Terrain::Plain, &cfg), None);
}

#[test]
fn one_scheduling_pass_over_a_small_world() {
    let mut z = open_zone(3);
    z.sources.push(SourceNode { pos: Pos { x: 10, y: 10 }, energy: 300, ticks_to_regeneration: 0 });
    let world = World { zones: vec![z] };
    let mut cache = WorldCache::new(1);
    let agents = vec![
        Agent {
            id: 1,
            zone: 3,
            pos: Pos { x: 10, y: 14 },
            body: vec![PartKind::Work, PartKind::Carry, PartKind::MovePart],
            store: vec![],
            store_capacity: 50,
            spawning: false,
        },
        Agent {
            id: 2,
            zone: 3,
            pos: Pos { x: 20, y: 20 },
            body: vec![PartKind::Work, PartKind::Carry, PartKind::MovePart],
            store: vec![],
            store_capacity: 50,
            spawning: false,
        },
    ];
    let mems = vec![AgentMemory::new(), AgentMemory::new()];
    let (out_mems, actions, counts) = creep_loop(&world, &mut cache, &agents, &mems, &scheduler_config());
    assert_eq!(out_mems.len(), 2);
    assert_eq!(actions.len(), 2);
    assert_eq!(out_mems[0].role, Some(Role::HarvesterSpawn));
    assert_eq!(out_mems[1].role, Some(Role::Upgrader));
    let sum = counts.harvester + counts.harvester_spawn + counts.harvester_mineral + counts.builder
        + counts.upgrader + counts.repairer + counts.attacker;
    assert_eq!(sum, 2);
    // both agents are empty, so both gather
    for action in &actions {
        assert!(matches!(action, TickAction::Gather { .. }));
    }
}

#[test]
fn agent_in_an_unobserved_zone_sleeps() {
    let z = open_zone(9);
    let world = World { zones: vec![z] };
    let mut cache = WorldCache::new(1);
    let agents = vec![Agent {
        id: 1,
        zone: 777, // not a zone the world can see this tick
        pos: Pos { x: 10, y: 10 },
        body: vec![PartKind::Work],
        store: vec![],
        store_capacity: 50,
        spawning: false,
    }];
    let mems = vec![AgentMemory::new()];
    let (out_mems, actions, _) = creep_loop(&world, &mut cache, &agents, &mems, &scheduler_config());
    assert!(matches!(actions[0], TickAction::Sleep));
    assert_eq!(out_mems[0].role, Some(Role::HarvesterSpawn));
}

#[test]
fn full_load_flips_to_acting() {
    let mut z = open_zone(11);
    z.structures.push(Structure {
        kind: StructureKind::Controller,
        pos: Pos { x: 12, y: 10 },
        owner: Owner::Mine,
        hits: 1,
        hits_max: 1,
        store: vec![],
        store_capacity: 0,
    });
    let world = World { zones: vec![z] };
    let mut cache = WorldCache::new(1);
    let agents = vec![Agent {
        id: 1,
        zone: 11,
        pos: Pos { x: 10, y: 10 },
        body: vec![PartKind::Work, PartKind::Carry],
        store: vec![StoreEntry { resource: ResourceType::Energy, amount: 50 }],
        store_capacity: 50,
        spawning: false,
    }];
    let mems = vec![AgentMemory {
        gathering: true,
        target_pos: Some(ZonePos { zone: 11, x: 5, y: 5 }),
        target_pos_count: Some(4),
        ..AgentMemory::new()
    }];
    let (out_mems, actions, _) = creep_loop(&world, &mut cache, &agents, &mems, &scheduler_config());
    // the load is full: the machine flips to acting and forgets the target
    assert!(!out_mems[0].gathering);
    assert!(out_mems[0].target_pos.is_none());
    assert!(out_mems[0].target_pos_count.is_none());
    match &actions[0] {
        TickAction::Act { action } => assert!(matches!(action, Action::Upgrade { structure: 0 })),
        other => panic!("expected an acting decision, got {:?}", other),
    }
}

#[test]
fn spawning_agent_sleeps() {
    let z = open_zone(12);
    let world = World { zones: vec![z] };
    let mut cache = WorldCache::new(1);
    let agents = vec![Agent {
        id: 1,
        zone: 12,
        pos: Pos { x: 10, y: 10 },
        body: vec![PartKind::Work],
        store: vec![],
        store_capacity: 50,
        spawning: true,
    }];
    let mems = vec![AgentMemory::new()];
    let (_, actions, _) = creep_loop(&world, &mut cache, &agents, &mems, &scheduler_config());
    assert!(matches!(actions[0], TickAction::Sleep));
}

#[test]
fn armed_agent_without_hostiles_takes_its_civil_turn() {
    let mut z = open_zone(13);
    z.sources.push(SourceNode { pos: Pos { x: 10, y: 10 }, energy: 300, ticks_to_regeneration: 0 });
    let world = World { zones: vec![z] };
    let mut cache = WorldCache::new(1);
    let agents = vec![Agent {
        id: 1,
        zone: 13,
        pos: Pos { x: 10, y: 14 },
        body: vec![PartKind::Attack, PartKind::Work, PartKind::Carry],
        store: vec![],
        store_capacity: 50,
        spawning: false,
    }];
    let mems = vec![AgentMemory::new()];
    let (_, actions, _) = creep_loop(&world, &mut cache, &agents, &mems, &scheduler_config());
    // nothing to fight: the turn falls through to gathering
    assert!(matches!(actions[0], TickAction::Gather { .. }));
}

#[test]
fn armed_agent_fights_when_a_hostile_is_near() {
    let mut z = open_zone(14);
    z.agents.push(AgentPresence { id: 99, pos: Pos { x: 11, y: 14 }, mine: false });
    let world = World { zones: vec![z] };
    let mut cache = WorldCache::new(1);
    let agents = vec![Agent {
        id: 1,
        zone: 14,
        pos: Pos { x: 10, y: 14 },
        body: vec![PartKind::Attack, PartKind::Work],
        store: vec![],
        store_capacity: 50,
        spawning: false,
    }];
    let mems = vec![AgentMemory::new()];
    let (_, actions, _) = creep_loop(&world, &mut cache, &agents, &mems, &scheduler_config());
    match &actions[0] {
        TickAction::Combat { decision } => {
            assert!(matches!(decision, AttackDecision::Strike { enemy: 0 }));
        }
        other => panic!("expected a combat decision, got {:?}", other),
    }
}

#[test]
fn acting_agent_beside_node_attempts_the_reroute() {
    let mut z = open_zone(15);
    z.sources.push(SourceNode { pos: Pos { x: 10, y: 10 }, energy: 300, ticks_to_regeneration: 0 });
    let world = World { zones: vec![z] };
    let mut cache = WorldCache::new(1);
    let agents = vec![Agent {
        id: 1,
        zone: 15,
        pos: Pos { x: 11, y: 11 },
        body: vec![PartKind::Work, PartKind::Carry],
        store: vec![StoreEntry { resource: ResourceType::Energy, amount: 20 }],
        store_capacity: 50,
        spawning: false,
    }];
    let mems = vec![AgentMemory { gathering: false, ..AgentMemory::new() }];
    let (out_mems, actions, _) = creep_loop(&world, &mut cache, &agents, &mems, &scheduler_config());
    match &actions[0] {
        TickAction::Flee { path } => assert!(path.complete),
        other => panic!("expected an evasive reroute, got {:?}", other),
    }
    // the cooldown starts only once the host reports the move done
    assert!(out_mems[0].fleeing_count.is_none());
}
