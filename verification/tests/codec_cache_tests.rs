//! Round-trip of the position codec, the cost matrix cells, the zone
//! statistics, and the per-tick cache.

use gridplan::cache::{clear_init_flag, get_hp_average, WorldCache};
use gridplan::codec::{encode_pos, parse_pos, ZonePos};
use gridplan::cost::calc_room_cost;
use gridplan::model::{
    AgentPresence, ConstructionSite, Owner, Pos, SourceNode, StoreEntry, Structure, StructureKind,
    Terrain, World, Zone,
};
use gridplan::model::{store_lookup, ResourceType};
use gridplan::stats::calc_average;

fn open_zone(id: u16) -> Zone {
    Zone {
        id,
        terrain: vec![Terrain::Plain; 2500],
        structures: vec![],
        sites: vec![],
        agents: vec![],
        piles: vec![],
        tombstones: vec![],
        ruins: vec![],
        sources: vec![],
        minerals: vec![],
        deposits: vec![],
    }
}

fn bare_structure(kind: StructureKind, x: u8, y: u8, owner: Owner) -> Structure {
    Structure {
        kind,
        pos: Pos { x, y },
        owner,
        hits: 100,
        hits_max: 100,
        store: vec![],
        store_capacity: 0,
    }
}

#[test]
fn position_round_trip() {
    let p = ZonePos { zone: 513, x: 10, y: 42 };
    let bytes = encode_pos(p);
    assert_eq!(bytes.len(), 9);
    let back = parse_pos(&bytes).expect("a fresh encoding parses");
    assert_eq!(back, p);
}

#[test]
fn position_round_trip_extremes() {
    for p in [
        ZonePos { zone: 0, x: 0, y: 0 },
        ZonePos { zone: 65535, x: 49, y: 49 },
        ZonePos { zone: 9, x: 7, y: 0 },
    ] {
        assert_eq!(parse_pos(&encode_pos(p)), Some(p));
    }
}

#[test]
fn garbled_position_parses_to_nothing() {
    assert_eq!(parse_pos(&vec![]), None);
    assert_eq!(parse_pos(&vec![b'1'; 8]), None);
    assert_eq!(parse_pos(&vec![b'1'; 10]), None);
    let mut bytes = encode_pos(ZonePos { zone: 1, x: 2, y: 3 });
    bytes[4] = b'x';
    assert_eq!(parse_pos(&bytes), None);
    // coordinates off the grid are rejected
    assert_eq!(parse_pos(&b"990000001".to_vec()), None);
    assert_eq!(parse_pos(&b"009900001".to_vec()), None);
}

#[test]
fn cost_matrix_cells() {
    let mut z = open_zone(1);
    z.terrain[7 * 50 + 7] = Terrain::Swamp;
    z.terrain[8 * 50 + 8] = Terrain::Wall;
    z.structures.push(bare_structure(StructureKind::Road, 3, 3, Owner::Neutral));
    z.structures.push(bare_structure(StructureKind::Tower, 4, 4, Owner::Mine));
    z.structures.push(bare_structure(StructureKind::Container, 5, 5, Owner::Neutral));
    z.agents.push(AgentPresence { id: 9, pos: Pos { x: 6, y: 6 }, mine: true });
    z.sources.push(SourceNode { pos: Pos { x: 20, y: 20 }, energy: 100, ticks_to_regeneration: 0 });
    let m = calc_room_cost(&z);
    // terrain alone leaves the cell at the default marker
    assert_eq!(m.cells[0], 0);
    assert_eq!(m.cells[7 * 50 + 7], 0);
    // roads discount, blocking structures and standing agents block
    assert_eq!(m.cells[3 * 50 + 3], 1);
    assert_eq!(m.cells[4 * 50 + 4], 255);
    assert_eq!(m.cells[5 * 50 + 5], 0); // containers stay walkable
    assert_eq!(m.cells[6 * 50 + 6], 255);
    // the ring around the active node carries the surcharge
    assert_eq!(m.cells[20 * 50 + 20], 11);
    assert_eq!(m.cells[19 * 50 + 21], 11);
    assert_eq!(m.cells[22 * 50 + 20], 0); // two steps out is past the ring
}

#[test]
fn cost_matrix_rebuild_is_identical() {
    let mut z = open_zone(2);
    z.structures.push(bare_structure(StructureKind::Road, 3, 3, Owner::Neutral));
    z.agents.push(AgentPresence { id: 1, pos: Pos { x: 10, y: 10 }, mine: false });
    z.sources.push(SourceNode { pos: Pos { x: 30, y: 30 }, energy: 5, ticks_to_regeneration: 0 });
    let first = calc_room_cost(&z);
    let second = calc_room_cost(&z);
    assert_eq!(first.cells, second.cells);
}

#[test]
fn zone_statistics_exact() {
    let mut z = open_zone(3);
    let mut damaged = bare_structure(StructureKind::Tower, 1, 1, Owner::Mine);
    damaged.hits = 100;
    damaged.hits_max = 1000;
    let mut damaged2 = bare_structure(StructureKind::Extension, 2, 2, Owner::Mine);
    damaged2.hits = 200;
    damaged2.hits_max = 1000;
    let intact = bare_structure(StructureKind::Spawn, 3, 3, Owner::Mine);
    z.structures.push(damaged);
    z.structures.push(damaged2);
    z.structures.push(intact);
    z.sites.push(ConstructionSite {
        kind: StructureKind::Extension,
        pos: Pos { x: 4, y: 4 },
        progress: 30,
        progress_total: 100,
    });
    z.sites.push(ConstructionSite {
        kind: StructureKind::Road,
        pos: Pos { x: 5, y: 5 },
        progress: 90,
        progress_total: 100,
    });
    let stats = calc_average(&z);
    assert_eq!(stats.hp_avg, 150);
    assert_eq!(stats.hp_min, 100);
    assert_eq!(stats.build_avg, 40); // (70 + 10) / 2
    assert_eq!(stats.build_min, 10);
}

#[test]
fn statistics_ignore_hostile_and_intact() {
    let mut z = open_zone(4);
    let mut enemy = bare_structure(StructureKind::Tower, 1, 1, Owner::Enemy);
    enemy.hits = 5;
    enemy.hits_max = 100;
    z.structures.push(enemy);
    let stats = calc_average(&z);
    assert_eq!(stats.hp_avg, 0);
    assert_eq!(stats.hp_min, 0);
}

#[test]
fn cache_serves_and_clears() {
    let mut z = open_zone(7);
    let mut damaged = bare_structure(StructureKind::Tower, 1, 1, Owner::Mine);
    damaged.hits = 40;
    damaged.hits_max = 100;
    z.structures.push(damaged);
    let world = World { zones: vec![z] };
    let mut cache = WorldCache::new(1);
    let first = get_hp_average(&mut cache, &world, 7);
    assert_eq!(first, (40, 40));
    // the cached snapshot answers again, identically
    let second = get_hp_average(&mut cache, &world, 7);
    assert_eq!(second, first);
    // an unobservable zone reads as zeros
    assert_eq!(get_hp_average(&mut cache, &world, 999), (0, 0));
    clear_init_flag(&mut cache);
    assert!(cache.stats.iter().all(|s| s.is_none()));
    assert!(cache.matrices.iter().all(|m| m.is_none()));
    let third = get_hp_average(&mut cache, &world, 7);
    assert_eq!(third, first);
}

#[test]
fn store_lookup_reads_entries() {
    let store = vec![
        StoreEntry { resource: ResourceType::Energy, amount: 50 },
        StoreEntry { resource: ResourceType::Hydrogen, amount: 7 },
    ];
    assert_eq!(store_lookup(&store, ResourceType::Energy), 50);
    assert_eq!(store_lookup(&store, ResourceType::Hydrogen), 7);
    assert_eq!(store_lookup(&store, ResourceType::Oxygen), 0);
}
