//! Role behaviors, target re-validation, the flee throttle, and the
//! structure predicates.

use gridplan::behavior::{
    run_builder, run_carrier_mineral, run_harvester, run_harvester_mineral, run_harvester_spawn,
    Action, BehaviorConfig,
};
use gridplan::checks::{
    check_repairable, check_repairable_hp, check_resouce_type_kind_matching, check_stored,
    check_walkable, get_repairable_hp, make_resoucetype_list, DecayConfig,
};
use gridplan::codec::ZonePos;
use gridplan::cost::calc_room_cost;
use gridplan::machine::{acting_flee_precheck, revalidate_target, AgentMemory, TargetTier};
use gridplan::model::{
    cheb_dist_exec, AgentPresence, ConstructionSite, DroppedResource, Owner, Pos, ResourceKind,
    ResourceType, SourceNode, StoreEntry, Structure, StructureKind, Terrain, Zone,
};
use gridplan::resolver::ExclusionFlags;

fn open_zone(id: u16) -> Zone {
    Zone {
        id,
        terrain: vec![Terrain::Plain; 2500],
        structures: vec![],
        sites: vec![],
        agents: vec![],
        piles: vec![],
        tombstones: vec![],
        ruins: vec![],
        sources: vec![],
        minerals: vec![],
        deposits: vec![],
    }
}

fn behavior_config() -> BehaviorConfig {
    BehaviorConfig {
        extension_max_cost: 20,
        repairer_dying_threshold: 100,
        terminal_keep_energy: 10000,
        decay: DecayConfig {
            road_decay_time: 1000,
            road_decay_amount: 100,
            road_swamp_ratio: 5,
            road_wall_ratio: 150,
            container_decay_time: 500,
            container_decay: 5000,
            rampart_decay_time: 100,
            rampart_decay_amount: 300,
        },
    }
}

fn stocked(kind: StructureKind, x: u8, y: u8, owner: Owner, amount: u32, capacity: u32)
    -> Structure {
    Structure {
        kind,
        pos: Pos { x, y },
        owner,
        hits: 100,
        hits_max: 100,
        store: vec![StoreEntry { resource: ResourceType::Energy, amount }],
        store_capacity: capacity,
    }
}

#[test]
fn revalidation_keeps_a_trusted_target() {
    let z = open_zone(1);
    let m = calc_room_cost(&z);
    let mem = AgentMemory {
        target_pos: Some(ZonePos { zone: 1, x: 30, y: 30 }),
        target_pos_count: Some(15),
        ..AgentMemory::new()
    };
    let d = revalidate_target(&z, &m, 1, 7, Pos { x: 10, y: 10 }, mem, true, &ResourceKind::Energy, 0);
    assert_eq!(d.tier, TargetTier::Kept);
    assert_eq!((d.target.x, d.target.y), (30, 30));
    assert_eq!(d.mem.target_pos_count, Some(15));
    assert!(d.path.complete);
}

#[test]
fn revalidation_drops_an_occupied_target() {
    let mut z = open_zone(2);
    z.agents.push(AgentPresence { id: 99, pos: Pos { x: 30, y: 30 }, mine: true });
    z.sources.push(SourceNode { pos: Pos { x: 5, y: 5 }, energy: 100, ticks_to_regeneration: 0 });
    let m = calc_room_cost(&z);
    let mem = AgentMemory {
        target_pos: Some(ZonePos { zone: 2, x: 30, y: 30 }),
        target_pos_count: Some(15),
        ..AgentMemory::new()
    };
    let d = revalidate_target(&z, &m, 2, 7, Pos { x: 10, y: 10 }, mem, true, &ResourceKind::Energy, 0);
    assert_eq!(d.tier, TargetTier::ActivePrimary);
    assert!(cheb_dist_exec(d.target, Pos { x: 5, y: 5 }) <= 1);
    assert_eq!(d.mem.target_pos_count, Some(20));
}

#[test]
fn revalidation_tolerates_the_agent_itself() {
    let mut z = open_zone(3);
    z.agents.push(AgentPresence { id: 7, pos: Pos { x: 30, y: 30 }, mine: true });
    let m = calc_room_cost(&z);
    let mem = AgentMemory {
        target_pos: Some(ZonePos { zone: 3, x: 30, y: 30 }),
        ..AgentMemory::new()
    };
    let d = revalidate_target(&z, &m, 3, 7, Pos { x: 30, y: 30 }, mem, true, &ResourceKind::Energy, 0);
    assert_eq!(d.tier, TargetTier::Kept);
}

#[test]
fn revalidation_drops_a_foreign_zone_target() {
    let mut z = open_zone(4);
    z.sources.push(SourceNode { pos: Pos { x: 5, y: 5 }, energy: 100, ticks_to_regeneration: 0 });
    let m = calc_room_cost(&z);
    let mem = AgentMemory {
        target_pos: Some(ZonePos { zone: 77, x: 30, y: 30 }),
        ..AgentMemory::new()
    };
    let d = revalidate_target(&z, &m, 4, 7, Pos { x: 10, y: 10 }, mem, true, &ResourceKind::Energy, 0);
    assert_eq!(d.tier, TargetTier::ActivePrimary);
}

#[test]
fn flee_throttle_reroutes_and_cools_down() {
    let mut z = open_zone(5);
    z.sources.push(SourceNode { pos: Pos { x: 10, y: 10 }, energy: 100, ticks_to_regeneration: 0 });
    let m = calc_room_cost(&z);
    // idle beside the node with no cooldown: an evasive path comes back
    let mem = AgentMemory { gathering: false, ..AgentMemory::new() };
    let (out, path) = acting_flee_precheck(&z, &m, Pos { x: 11, y: 11 }, mem);
    let path = path.expect("an evasive reroute");
    assert!(path.complete);
    assert!(out.fleeing_count.is_none());
    let end = *path.steps.last().expect("the reroute moves");
    assert!(cheb_dist_exec(end, Pos { x: 10, y: 10 }) >= 3);
    // under cooldown the counter burns down instead
    let cooling = AgentMemory { gathering: false, fleeing_count: Some(3), ..AgentMemory::new() };
    let (out2, path2) = acting_flee_precheck(&z, &m, Pos { x: 11, y: 11 }, cooling);
    assert!(path2.is_none());
    assert_eq!(out2.fleeing_count, Some(2));
}

#[test]
fn builder_builds_and_travels() {
    let mut z = open_zone(6);
    z.sites.push(ConstructionSite {
        kind: StructureKind::Extension,
        pos: Pos { x: 11, y: 10 },
        progress: 90,
        progress_total: 100,
    });
    let m = calc_room_cost(&z);
    let near = run_builder(&z, &m, Pos { x: 10, y: 10 }, 50, &behavior_config(), 0);
    assert!(matches!(near, Action::Build { site: 0 }));
    let far = run_builder(&z, &m, Pos { x: 40, y: 40 }, 50, &behavior_config(), 0);
    assert!(matches!(far, Action::Travel { .. }));
    // a site with too much work left is nobody's business yet
    let over = run_builder(&z, &m, Pos { x: 10, y: 10 }, 5, &behavior_config(), 0);
    assert!(matches!(over, Action::Idle));
}

#[test]
fn harvester_spawn_feeds_tower_after_spawn() {
    let mut z = open_zone(7);
    z.structures.push(stocked(StructureKind::Spawn, 11, 10, Owner::Mine, 300, 300)); // full
    z.structures.push(stocked(StructureKind::Tower, 9, 10, Owner::Mine, 10, 1000));
    let m = calc_room_cost(&z);
    let carrying = vec![StoreEntry { resource: ResourceType::Energy, amount: 40 }];
    let r = run_harvester_spawn(
        &z,
        &m,
        Pos { x: 10, y: 10 },
        &carrying,
        ExclusionFlags::none(),
        10,
        &behavior_config(),
        0,
    );
    match r {
        Action::Transfer { structure, .. } => assert_eq!(structure, 1),
        other => panic!("expected a tower transfer, got {:?}", other),
    }
}

#[test]
fn harvester_delegates_with_nothing_to_deliver() {
    let mut z = open_zone(8);
    z.structures.push(Structure {
        kind: StructureKind::Controller,
        pos: Pos { x: 12, y: 10 },
        owner: Owner::Mine,
        hits: 1,
        hits_max: 1,
        store: vec![],
        store_capacity: 0,
    });
    let m = calc_room_cost(&z);
    let carrying = vec![StoreEntry { resource: ResourceType::Energy, amount: 40 }];
    // no sink anywhere: the chain falls through builder and repairer to
    // the upgrader
    let r = run_harvester(
        &z,
        &m,
        Pos { x: 10, y: 10 },
        &carrying,
        ExclusionFlags::none(),
        10,
        &behavior_config(),
        0,
    );
    assert!(matches!(r, Action::Upgrade { structure: 0 }));
}

#[test]
fn mineral_hauler_drops_on_its_container() {
    let mut z = open_zone(9);
    z.structures.push(Structure {
        kind: StructureKind::Container,
        pos: Pos { x: 10, y: 10 },
        owner: Owner::Neutral,
        hits: 100,
        hits_max: 100,
        store: vec![],
        store_capacity: 2000,
    });
    let m = calc_room_cost(&z);
    let carrying = vec![StoreEntry { resource: ResourceType::Oxygen, amount: 25 }];
    let r = run_harvester_mineral(&z, &m, Pos { x: 10, y: 10 }, &carrying, ExclusionFlags::none());
    match r {
        Action::DropOnContainer { structure, resource } => {
            assert_eq!(structure, 0);
            assert_eq!(resource, ResourceType::Oxygen);
        }
        other => panic!("expected a container drop, got {:?}", other),
    }
    // an empty hauler idles
    let idle = run_harvester_mineral(&z, &m, Pos { x: 10, y: 10 }, &vec![], ExclusionFlags::none());
    assert!(matches!(idle, Action::Idle));
}

#[test]
fn mineral_courier_serves_the_terminal_only() {
    let mut z = open_zone(10);
    z.structures.push(stocked(StructureKind::Storage, 11, 10, Owner::Mine, 0, 5000));
    z.structures.push(stocked(StructureKind::Terminal, 30, 30, Owner::Mine, 0, 5000));
    let m = calc_room_cost(&z);
    let carrying = vec![StoreEntry { resource: ResourceType::Hydrogen, amount: 25 }];
    let r = run_carrier_mineral(&z, &m, Pos { x: 10, y: 10 }, &carrying);
    match r {
        Action::Travel { path } => {
            let end = *path.steps.last().expect("the courier travels");
            assert!(cheb_dist_exec(end, Pos { x: 30, y: 30 }) <= 1);
        }
        other => panic!("expected travel to the terminal, got {:?}", other),
    }
}

#[test]
fn walkability_reads_the_whole_tile() {
    let mut z = open_zone(11);
    z.terrain[5 * 50 + 5] = Terrain::Wall;
    z.structures.push(stocked(StructureKind::Container, 6, 6, Owner::Neutral, 0, 2000));
    z.structures.push(stocked(StructureKind::Tower, 7, 7, Owner::Mine, 0, 1000));
    z.structures.push(Structure {
        kind: StructureKind::Rampart,
        pos: Pos { x: 8, y: 8 },
        owner: Owner::Mine,
        hits: 100,
        hits_max: 100,
        store: vec![],
        store_capacity: 0,
    });
    z.structures.push(Structure {
        kind: StructureKind::Rampart,
        pos: Pos { x: 9, y: 9 },
        owner: Owner::Enemy,
        hits: 100,
        hits_max: 100,
        store: vec![],
        store_capacity: 0,
    });
    z.agents.push(AgentPresence { id: 1, pos: Pos { x: 4, y: 4 }, mine: false });
    assert!(check_walkable(&z, Pos { x: 3, y: 3 }));
    assert!(!check_walkable(&z, Pos { x: 4, y: 4 })); // an agent stands there
    assert!(!check_walkable(&z, Pos { x: 5, y: 5 })); // wall ground
    assert!(check_walkable(&z, Pos { x: 6, y: 6 })); // containers stay open
    assert!(!check_walkable(&z, Pos { x: 7, y: 7 })); // towers block
    assert!(check_walkable(&z, Pos { x: 8, y: 8 })); // own rampart is open
    assert!(!check_walkable(&z, Pos { x: 9, y: 9 })); // hostile rampart blocks
}

#[test]
fn repair_predicates_line_up() {
    let damaged = Structure {
        kind: StructureKind::Tower,
        pos: Pos { x: 1, y: 1 },
        owner: Owner::Mine,
        hits: 40,
        hits_max: 100,
        store: vec![],
        store_capacity: 0,
    };
    assert!(check_repairable(&damaged));
    assert_eq!(get_repairable_hp(&damaged), Some(60));
    assert!(check_repairable_hp(&damaged, 50));
    assert!(!check_repairable_hp(&damaged, 40));
    let hostile = Structure { owner: Owner::Enemy, ..damaged.clone() };
    assert!(!check_repairable(&hostile));
    assert_eq!(get_repairable_hp(&hostile), None);
    let intact = Structure { hits: 100, ..damaged.clone() };
    assert!(!check_repairable(&intact));
}

#[test]
fn resource_kind_lists_cover_their_families() {
    assert_eq!(make_resoucetype_list(&ResourceKind::Energy).len(), 1);
    assert_eq!(make_resoucetype_list(&ResourceKind::Minerals).len(), 41);
    assert_eq!(make_resoucetype_list(&ResourceKind::Commodities).len(), 40);
    assert_eq!(make_resoucetype_list(&ResourceKind::Power).len(), 2);
    assert!(check_resouce_type_kind_matching(&ResourceType::Energy, &ResourceKind::Energy));
    assert!(check_resouce_type_kind_matching(&ResourceType::Catalyst, &ResourceKind::Minerals));
    assert!(check_resouce_type_kind_matching(&ResourceType::Machine, &ResourceKind::Commodities));
    assert!(check_resouce_type_kind_matching(&ResourceType::Ops, &ResourceKind::Power));
    assert!(!check_resouce_type_kind_matching(&ResourceType::Energy, &ResourceKind::Minerals));
}

#[test]
fn stored_amount_gates_the_reserve() {
    let full = stocked(StructureKind::Container, 1, 1, Owner::Neutral, 500, 2000);
    assert!(check_stored(&full, ResourceType::Energy, 0));
    assert!(check_stored(&full, ResourceType::Energy, 499));
    assert!(!check_stored(&full, ResourceType::Energy, 500));
    assert!(!check_stored(&full, ResourceType::Oxygen, 0));
}
