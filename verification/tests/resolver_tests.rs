//! Scenario tests of the tiered target resolver and the path search.

use gridplan::cost::calc_room_cost;
use gridplan::machine::{reset_source_target, AgentMemory, TargetTier};
use gridplan::model::{
    cheb_dist_exec, DroppedResource, Owner, Pos, ResourceKind, ResourceType, SourceNode,
    StoreEntry, Structure, StructureKind, Terrain, Zone,
};
use gridplan::checks::DecayConfig;
use gridplan::resolver::{
    find_nearest_active_source, find_nearest_dropped_resource,
    find_nearest_repairable_item_except_wall_dying, find_nearest_repairable_item_hp,
    find_nearest_stored_source, find_nearest_transferable_structure, ExclusionFlags,
};
use gridplan::search::{find_path, search_many};

fn open_zone(id: u16) -> Zone {
    Zone {
        id,
        terrain: vec![Terrain::Plain; 2500],
        structures: vec![],
        sites: vec![],
        agents: vec![],
        piles: vec![],
        tombstones: vec![],
        ruins: vec![],
        sources: vec![],
        minerals: vec![],
        deposits: vec![],
    }
}

fn energy_store(amount: u32) -> Vec<StoreEntry> {
    vec![StoreEntry { resource: ResourceType::Energy, amount }]
}

fn stocked(kind: StructureKind, x: u8, y: u8, owner: Owner, amount: u32) -> Structure {
    Structure {
        kind,
        pos: Pos { x, y },
        owner,
        hits: 100,
        hits_max: 100,
        store: energy_store(amount),
        store_capacity: 2000,
    }
}

fn path_end(start: Pos, steps: &[Pos]) -> Pos {
    *steps.last().unwrap_or(&start)
}

#[test]
fn search_reaches_a_goal() {
    let z = open_zone(1);
    let m = calc_room_cost(&z);
    let start = Pos { x: 1, y: 1 };
    let r = find_path(&z, &m, start, Pos { x: 8, y: 1 }, 0);
    assert!(r.complete);
    let end = path_end(start, &r.steps);
    assert_eq!((end.x, end.y), (8, 1));
    assert_eq!(r.steps.len(), 7);
}

#[test]
fn search_already_in_range_holds_position() {
    let z = open_zone(2);
    let m = calc_room_cost(&z);
    let start = Pos { x: 5, y: 5 };
    let r = find_path(&z, &m, start, Pos { x: 6, y: 6 }, 1);
    assert!(r.complete);
    assert!(r.steps.is_empty());
    assert_eq!(r.cost, 0);
}

#[test]
fn search_stops_at_walls() {
    let mut z = open_zone(3);
    for x in 0..50 {
        z.terrain[25 * 50 + x] = Terrain::Wall;
    }
    let m = calc_room_cost(&z);
    let r = find_path(&z, &m, Pos { x: 10, y: 10 }, Pos { x: 10, y: 40 }, 0);
    assert!(!r.complete);
    assert!(r.steps.is_empty());
}

#[test]
fn search_prefers_the_cheaper_goal() {
    let z = open_zone(4);
    let m = calc_room_cost(&z);
    let start = Pos { x: 10, y: 10 };
    let goals = vec![(Pos { x: 40, y: 40 }, 0), (Pos { x: 12, y: 10 }, 0)];
    let r = search_many(&z, &m, start, &goals);
    assert!(r.complete);
    assert_eq!(r.target, Some(1));
    let end = path_end(start, &r.steps);
    assert_eq!((end.x, end.y), (12, 10));
}

#[test]
fn resolver_scenario_active_node() {
    // one active energy node at (10,10), one empty agent at (10,12):
    // the resolver returns a path ending adjacent to the node
    let mut z = open_zone(5);
    z.sources.push(SourceNode { pos: Pos { x: 10, y: 10 }, energy: 300, ticks_to_regeneration: 0 });
    let m = calc_room_cost(&z);
    let start = Pos { x: 10, y: 12 };
    let r = find_nearest_active_source(&z, &m, start, &ResourceKind::Energy, false);
    assert!(r.complete);
    assert!(!r.steps.is_empty());
    let end = path_end(start, &r.steps);
    assert_eq!(cheb_dist_exec(end, Pos { x: 10, y: 10 }), 1);
}

#[test]
fn resolver_scenario_nothing_anywhere() {
    // zero resources visible: the resolver falls to the absolute
    // fallback and holds position, without panicking
    let z = open_zone(6);
    let m = calc_room_cost(&z);
    let mem = AgentMemory::new();
    let d = reset_source_target(&z, &m, 6, Pos { x: 25, y: 25 }, mem, true, &ResourceKind::Energy, 0);
    assert_eq!(d.tier, TargetTier::Hold);
    assert!(d.path.steps.is_empty());
    assert_eq!((d.target.x, d.target.y), (25, 25));
}

#[test]
fn tier_ordering_ground_before_reserve() {
    // a ground pile and a stocked container both in sight, no
    // exclusions: the ground tier wins
    let mut z = open_zone(7);
    z.piles.push(DroppedResource { pos: Pos { x: 5, y: 5 }, resource: ResourceType::Energy, amount: 60 });
    z.structures.push(stocked(StructureKind::Container, 40, 40, Owner::Neutral, 900));
    let m = calc_room_cost(&z);
    let start = Pos { x: 10, y: 10 };
    let r = find_nearest_stored_source(
        &z,
        &m,
        start,
        &ResourceKind::Energy,
        false,
        ExclusionFlags::none(),
        0,
    );
    assert!(r.complete);
    let end = path_end(start, &r.steps);
    assert!(cheb_dist_exec(end, Pos { x: 5, y: 5 }) <= 1);
    assert!(cheb_dist_exec(end, Pos { x: 40, y: 40 }) > 1);
}

#[test]
fn exclusion_respected_for_storage() {
    // the storage tier is shut out and a storage is the only source:
    // the reserve tier yields nothing
    let mut z = open_zone(8);
    z.structures.push(stocked(StructureKind::Storage, 20, 20, Owner::Mine, 500));
    let m = calc_room_cost(&z);
    let excl = ExclusionFlags { storages: true, terminal: false, link: false };
    let r = find_nearest_stored_source(&z, &m, Pos { x: 10, y: 10 }, &ResourceKind::Energy, true, excl, 0);
    assert!(!r.complete);
    assert!(r.steps.is_empty());
    // and the whole re-resolution falls through to the hold fallback
    let mem = AgentMemory { harvested_from_storage: Some(true), ..AgentMemory::new() };
    let d = reset_source_target(&z, &m, 8, Pos { x: 10, y: 10 }, mem, true, &ResourceKind::Energy, 0);
    assert_eq!(d.tier, TargetTier::Hold);
}

#[test]
fn storage_found_when_not_excluded() {
    let mut z = open_zone(9);
    z.structures.push(stocked(StructureKind::Storage, 20, 20, Owner::Mine, 500));
    let m = calc_room_cost(&z);
    let start = Pos { x: 10, y: 10 };
    let r = find_nearest_stored_source(
        &z,
        &m,
        start,
        &ResourceKind::Energy,
        true,
        ExclusionFlags::none(),
        0,
    );
    assert!(r.complete);
    let end = path_end(start, &r.steps);
    assert!(cheb_dist_exec(end, Pos { x: 20, y: 20 }) <= 1);
}

#[test]
fn container_searched_at_range_zero() {
    // containers allow transfer from their own tile, so the path may
    // end on the container itself
    let mut z = open_zone(10);
    z.structures.push(stocked(StructureKind::Container, 12, 10, Owner::Neutral, 100));
    let m = calc_room_cost(&z);
    let start = Pos { x: 10, y: 10 };
    let r = find_nearest_stored_source(
        &z,
        &m,
        start,
        &ResourceKind::Energy,
        true,
        ExclusionFlags::none(),
        0,
    );
    assert!(r.complete);
    let end = path_end(start, &r.steps);
    assert_eq!((end.x, end.y), (12, 10));
}

#[test]
fn terminal_keeps_its_energy_floor() {
    // a terminal under its keep threshold is no reserve source
    let mut z = open_zone(11);
    z.structures.push(stocked(StructureKind::Terminal, 20, 20, Owner::Mine, 5000));
    let m = calc_room_cost(&z);
    let r = find_nearest_stored_source(
        &z,
        &m,
        Pos { x: 10, y: 10 },
        &ResourceKind::Energy,
        true,
        ExclusionFlags::none(),
        10000,
    );
    assert!(!r.complete);
    let r2 = find_nearest_stored_source(
        &z,
        &m,
        Pos { x: 10, y: 10 },
        &ResourceKind::Energy,
        true,
        ExclusionFlags::none(),
        4000,
    );
    assert!(r2.complete);
}

#[test]
fn exhausted_node_is_last_resort() {
    let mut z = open_zone(12);
    z.sources.push(SourceNode { pos: Pos { x: 30, y: 30 }, energy: 0, ticks_to_regeneration: 10 });
    let m = calc_room_cost(&z);
    let mem = AgentMemory::new();
    let start = Pos { x: 10, y: 10 };
    let d = reset_source_target(&z, &m, 12, start, mem, true, &ResourceKind::Energy, 0);
    assert_eq!(d.tier, TargetTier::LastResort);
    assert_eq!(d.mem.target_pos_count, Some(5));
    assert!(cheb_dist_exec(d.target, Pos { x: 30, y: 30 }) <= 1);
}

#[test]
fn active_node_resolution_memoizes_target() {
    let mut z = open_zone(13);
    z.sources.push(SourceNode { pos: Pos { x: 10, y: 10 }, energy: 300, ticks_to_regeneration: 0 });
    let m = calc_room_cost(&z);
    let mem = AgentMemory::new();
    let d = reset_source_target(&z, &m, 13, Pos { x: 10, y: 12 }, mem, true, &ResourceKind::Energy, 0);
    assert_eq!(d.tier, TargetTier::ActivePrimary);
    assert_eq!(d.mem.target_pos_count, Some(20));
    assert_eq!(d.mem.will_harvest_from_storage, Some(false));
    let stored = d.mem.target_pos.expect("target memoized");
    assert_eq!(stored.zone, 13);
    assert_eq!((stored.x, stored.y), (d.target.x, d.target.y));
}

#[test]
fn dropped_resource_kind_filter() {
    let mut z = open_zone(14);
    z.piles.push(DroppedResource { pos: Pos { x: 5, y: 5 }, resource: ResourceType::Hydrogen, amount: 10 });
    let m = calc_room_cost(&z);
    let r = find_nearest_dropped_resource(&z, &m, Pos { x: 10, y: 10 }, ResourceKind::Energy);
    assert!(!r.complete);
    let r2 = find_nearest_dropped_resource(&z, &m, Pos { x: 10, y: 10 }, ResourceKind::Minerals);
    assert!(r2.complete);
}

#[test]
fn repair_searches_pick_their_own_targets() {
    let mut z = open_zone(15);
    // a badly damaged wall and a rotting road far apart
    z.structures.push(Structure {
        kind: StructureKind::Wall,
        pos: Pos { x: 5, y: 40 },
        owner: Owner::Neutral,
        hits: 10,
        hits_max: 1000000,
        store: vec![],
        store_capacity: 0,
    });
    z.structures.push(Structure {
        kind: StructureKind::Road,
        pos: Pos { x: 40, y: 5 },
        owner: Owner::Neutral,
        hits: 50,
        hits_max: 5000,
        store: vec![],
        store_capacity: 0,
    });
    let m = calc_room_cost(&z);
    let start = Pos { x: 25, y: 25 };
    let cfg = DecayConfig {
        road_decay_time: 1000,
        road_decay_amount: 100,
        road_swamp_ratio: 5,
        road_wall_ratio: 150,
        container_decay_time: 500,
        container_decay: 5000,
        rampart_decay_time: 100,
        rampart_decay_amount: 300,
    };
    // the dying search skips walls and goes for the road
    let dying = find_nearest_repairable_item_except_wall_dying(&z, &m, start, 100, &cfg);
    assert!(dying.complete);
    let end = path_end(start, &dying.steps);
    assert!(cheb_dist_exec(end, Pos { x: 40, y: 5 }) <= 3);
    // the hit-point search takes whatever is under the threshold
    let low_hp = find_nearest_repairable_item_hp(&z, &m, start, 20);
    assert!(low_hp.complete);
    let end2 = path_end(start, &low_hp.steps);
    assert!(cheb_dist_exec(end2, Pos { x: 5, y: 40 }) <= 3);
    // a threshold under everything finds nothing
    let none = find_nearest_repairable_item_hp(&z, &m, start, 5);
    assert!(!none.complete);
}

#[test]
fn delivery_cost_ceiling_limits_the_detour() {
    let mut z = open_zone(16);
    z.structures.push(Structure {
        kind: StructureKind::Extension,
        pos: Pos { x: 45, y: 45 },
        owner: Owner::Mine,
        hits: 100,
        hits_max: 100,
        store: vec![],
        store_capacity: 50,
    });
    let m = calc_room_cost(&z);
    let start = Pos { x: 5, y: 5 };
    // the far extension costs more than the ceiling allows
    let capped = find_nearest_transferable_structure(
        &z,
        &m,
        start,
        &StructureKind::Extension,
        &ResourceType::Energy,
        Some(20),
        None,
    );
    assert!(!capped.complete);
    // without a ceiling the same sink is accepted
    let open = find_nearest_transferable_structure(
        &z,
        &m,
        start,
        &StructureKind::Extension,
        &ResourceType::Energy,
        None,
        None,
    );
    assert!(open.complete);
}

#[test]
fn depleted_node_found_even_far_from_regeneration() {
    // the last resort admits any node of the kind, depleted or not
    let mut z = open_zone(17);
    z.sources.push(SourceNode { pos: Pos { x: 30, y: 30 }, energy: 0, ticks_to_regeneration: 100 });
    let m = calc_room_cost(&z);
    let start = Pos { x: 10, y: 10 };
    let d = reset_source_target(&z, &m, 17, start, AgentMemory::new(), true, &ResourceKind::Energy, 0);
    assert_eq!(d.tier, TargetTier::LastResort);
    assert_eq!(d.mem.target_pos_count, Some(5));
    assert!(cheb_dist_exec(d.target, Pos { x: 30, y: 30 }) <= 1);
}

#[test]
fn search_takes_the_cheaper_detour_over_the_swamp() {
    // the nearer-by-tiles goal sits behind swamps; the farther goal on
    // plain ground is cheaper to reach and must win
    let mut z = open_zone(18);
    for x in 11..=13u8 {
        for y in 8..=12u8 {
            z.terrain[y as usize * 50 + x as usize] = Terrain::Swamp;
        }
    }
    let m = calc_room_cost(&z);
    let start = Pos { x: 10, y: 10 };
    let goals = vec![(Pos { x: 12, y: 10 }, 0), (Pos { x: 16, y: 10 }, 0)];
    let r = search_many(&z, &m, start, &goals);
    assert!(r.complete);
    assert_eq!(r.target, Some(1));
    // eight plain steps around the band beat two swamp steps into it
    assert_eq!(r.cost, 16);
}
