//! Per-zone movement cost matrices and their once-per-tick cache.
//!
//! Every pathfinding call in a tick reads the same matrix for a zone.  The
//! matrix is a pure function of the zone snapshot: a cell holds 0 where the
//! terrain speaks for itself, a road discount, a blocked marker for walls,
//! blocking structures, standing agents and blocking build sites, and a
//! surcharge ring around active energy nodes that discourages routing
//! through harvesting lanes without forbidding it.

use vstd::prelude::*;

use crate::checks::structure_blocks;
use crate::model::{
    cheb_dist, cheb_dist_exec, AgentPresence, ConstructionSite, Pos, SourceNode, Structure,
    StructureKind, Terrain, Zone, ZONE_SIDE, ZONE_TILES,
};

verus! {

/// Matrix cell of a tile carrying a road.
pub const COST_ROAD: u8 = 1;

/// Pathfinding cost of open ground.
pub const COST_PLAIN: u8 = 2;

/// Pathfinding cost of difficult ground.
pub const COST_SWAMP: u8 = 10;

/// Matrix cell of a tile next to an active energy node.
pub const COST_SOURCE_RING: u8 = 11;

/// Matrix cell of an impassable tile.
pub const COST_BLOCKED: u8 = 255;

/// A zone-sized grid of per-tile movement costs, row-major.
#[derive(Clone, Debug)]
pub struct CostMatrix {
    pub cells: Vec<u8>,
}

impl CostMatrix {
    pub open spec fn wf(self) -> bool {
        self.cells@.len() == ZONE_TILES
    }

    pub open spec fn at(self, p: Pos) -> u8 {
        self.cells@[p.idx()]
    }
}

/// The tile at a row-major index.
pub open spec fn pos_of_index(i: int) -> Pos {
    Pos { x: (i % (ZONE_SIDE as int)) as u8, y: (i / (ZONE_SIDE as int)) as u8 }
}

/// A tile's row-major index maps back to the tile.
pub proof fn lemma_pos_index_roundtrip(p: Pos)
    requires
        p.wf(),
    ensures
        pos_of_index(p.idx()) == p,
{
    assert((p.y as int * (ZONE_SIDE as int) + p.x as int) % (ZONE_SIDE as int) == p.x as int)
        by (nonlinear_arith)
        requires
            p.x < 50,
            ZONE_SIDE as int == 50,
    ;
    assert((p.y as int * (ZONE_SIDE as int) + p.x as int) / (ZONE_SIDE as int) == p.y as int)
        by (nonlinear_arith)
        requires
            p.x < 50,
            ZONE_SIDE as int == 50,
    ;
}

/// Matrix cell after laying the structures down in order: a road writes its
/// discount, a blocking structure writes the blocked marker, and walkable
/// structures leave the cell alone; the last writer wins.
pub open spec fn struct_cost_layer(structs: Seq<Structure>, p: Pos) -> u8
    decreases structs.len(),
{
    if structs.len() == 0 {
        0u8
    } else {
        let prev = struct_cost_layer(structs.drop_last(), p);
        let s = structs.last();
        if s.pos == p {
            if s.kind == StructureKind::Road {
                COST_ROAD
            } else if structure_blocks(s) {
                COST_BLOCKED
            } else {
                prev
            }
        } else {
            prev
        }
    }
}

/// A build site whose finished structure would block the tile.
pub open spec fn site_blocks(cs: ConstructionSite) -> bool {
    cs.kind != StructureKind::Road && cs.kind != StructureKind::Container && cs.kind
        != StructureKind::Rampart
}

/// Some agent, own or hostile, stands on the tile.
pub open spec fn agent_on(z: Zone, p: Pos) -> bool {
    exists|i: int| 0 <= i < z.agents@.len() && (#[trigger] z.agents@[i]).pos == p
}

/// Some blocking build site covers the tile.
pub open spec fn blocking_site_on(z: Zone, p: Pos) -> bool {
    exists|i: int|
        0 <= i < z.sites@.len() && (#[trigger] z.sites@[i]).pos == p && site_blocks(z.sites@[i])
}

/// The tile lies within one step of an active energy node.
pub open spec fn near_active_source(z: Zone, p: Pos) -> bool {
    exists|i: int|
        0 <= i < z.sources@.len() && (#[trigger] z.sources@[i]).active() && cheb_dist(
            z.sources@[i].pos,
            p,
        ) <= 1
}

/// Whether some agent stands on the tile.
pub fn agent_on_exec(z: &Zone, p: Pos) -> (r: bool)
    ensures
        r == agent_on(*z, p),
{
    let mut i: usize = 0;
    while i < z.agents.len()
        invariant
            i <= z.agents@.len(),
            forall|j: int| 0 <= j < i ==> (#[trigger] z.agents@[j]).pos != p,
        decreases z.agents@.len() - i,
    {
        if z.agents[i].pos.x == p.x && z.agents[i].pos.y == p.y {
            assert(z.agents@[i as int].pos == p);
            return true;
        }
        i = i + 1;
    }
    false
}

/// Whether a blocking build site covers the tile.
pub fn blocking_site_on_exec(z: &Zone, p: Pos) -> (r: bool)
    ensures
        r == blocking_site_on(*z, p),
{
    let mut i: usize = 0;
    while i < z.sites.len()
        invariant
            i <= z.sites@.len(),
            forall|j: int|
                0 <= j < i ==> !((#[trigger] z.sites@[j]).pos == p && site_blocks(z.sites@[j])),
        decreases z.sites@.len() - i,
    {
        let cs = &z.sites[i];
        if cs.pos.x == p.x && cs.pos.y == p.y && cs.kind != StructureKind::Road && cs.kind
            != StructureKind::Container && cs.kind != StructureKind::Rampart {
            assert(z.sites@[i as int].pos == p && site_blocks(z.sites@[i as int]));
            return true;
        }
        i = i + 1;
    }
    false
}

/// Whether the tile lies within one step of an active energy node.
pub fn near_active_source_exec(z: &Zone, p: Pos) -> (r: bool)
    ensures
        r == near_active_source(*z, p),
{
    let mut i: usize = 0;
    while i < z.sources.len()
        invariant
            i <= z.sources@.len(),
            forall|j: int|
                0 <= j < i ==> !((#[trigger] z.sources@[j]).active() && cheb_dist(
                    z.sources@[j].pos,
                    p,
                ) <= 1),
        decreases z.sources@.len() - i,
    {
        let node = &z.sources[i];
        if node.energy > 0 && cheb_dist_exec(node.pos, p) <= 1 {
            assert(z.sources@[i as int].active() && cheb_dist(z.sources@[i as int].pos, p) <= 1);
            return true;
        }
        i = i + 1;
    }
    false
}

/// The cost-matrix cell of one tile, from the zone snapshot alone.
pub open spec fn spec_tile_cost(z: Zone, p: Pos) -> u8 {
    let base = struct_cost_layer(z.structures@, p);
    let with_agents = if agent_on(z, p) {
        COST_BLOCKED
    } else {
        base
    };
    let with_sites = if blocking_site_on(z, p) {
        COST_BLOCKED
    } else {
        with_agents
    };
    if with_sites != COST_BLOCKED && z.terrain_at(p) != Terrain::Wall && near_active_source(z, p) {
        COST_SOURCE_RING
    } else {
        with_sites
    }
}

/// The whole matrix of a zone, cell by cell.
pub open spec fn spec_cost_matrix(z: Zone) -> Seq<u8> {
    Seq::new(ZONE_TILES as nat, |i: int| spec_tile_cost(z, pos_of_index(i)))
}

/// Compute one tile's matrix cell.
pub fn tile_cost(z: &Zone, p: Pos) -> (c: u8)
    requires
        z.wf(),
        p.wf(),
    ensures
        c == spec_tile_cost(*z, p),
{
    let mut acc: u8 = 0;
    let mut i: usize = 0;
    assert(z.structures@.take(0) =~= Seq::<Structure>::empty());
    while i < z.structures.len()
        invariant
            i <= z.structures@.len(),
            acc == struct_cost_layer(z.structures@.take(i as int), p),
        decreases z.structures@.len() - i,
    {
        let s = &z.structures[i];
        proof {
            assert(z.structures@.take(i as int + 1).drop_last() =~= z.structures@.take(i as int));
            assert(z.structures@.take(i as int + 1).last() == z.structures@[i as int]);
        }
        if s.pos.x == p.x && s.pos.y == p.y {
            assert(s.pos == p);
            if s.kind == StructureKind::Road {
                acc = COST_ROAD;
            } else if s.kind != StructureKind::Container && !(s.kind == StructureKind::Rampart
                && s.owner == crate::model::Owner::Mine) {
                acc = COST_BLOCKED;
            }
        }
        i = i + 1;
    }
    assert(z.structures@.take(i as int) =~= z.structures@);

    if agent_on_exec(z, p) {
        acc = COST_BLOCKED;
    }
    if blocking_site_on_exec(z, p) {
        acc = COST_BLOCKED;
    }
    if acc != COST_BLOCKED {
        let ground = z.terrain[p.y as usize * 50 + p.x as usize];
        assert(ground == z.terrain_at(p));
        if ground != Terrain::Wall {
            if near_active_source_exec(z, p) {
                acc = COST_SOURCE_RING;
            }
        }
    }
    acc
}

/// Build the full movement cost matrix of a zone.
pub fn calc_room_cost(z: &Zone) -> (m: CostMatrix)
    requires
        z.wf(),
    ensures
        m.wf(),
        m.cells@ == spec_cost_matrix(*z),
{
    let mut cells: Vec<u8> = Vec::new();
    let mut idx: usize = 0;
    while idx < 2500
        invariant
            z.wf(),
            idx <= 2500,
            cells@.len() == idx,
            forall|j: int| 0 <= j < idx ==> cells@[j] == spec_cost_matrix(*z)[j],
        decreases 2500 - idx,
    {
        let x: u8 = (idx % 50) as u8;
        let y: u8 = (idx / 50) as u8;
        let p = Pos { x, y };
        assert(p.wf());
        assert(pos_of_index(idx as int) == p);
        let c = tile_cost(z, p);
        cells.push(c);
        idx = idx + 1;
    }
    let m = CostMatrix { cells };
    assert(m.cells@ =~= spec_cost_matrix(*z));
    m
}

/// The matrix is a function of the zone snapshot alone, so rebuilding it
/// within one tick, with no state change, yields the identical matrix.
pub proof fn lemma_cost_matrix_idempotent(z: Zone, first: CostMatrix, second: CostMatrix)
    requires
        first.cells@ == spec_cost_matrix(z),
        second.cells@ == spec_cost_matrix(z),
    ensures
        first.cells@ == second.cells@,
{
}

} // verus!
