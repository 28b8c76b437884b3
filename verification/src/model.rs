//! Data model of the tile world: zones, structures, resources and agents.
//!
//! Every type here holds plain values that the scheduler reads.  The host
//! that owns the live world hands these snapshots in and carries the
//! scheduler's decisions back out.

use vstd::prelude::*;

verus! {

/// Side length of a zone's square tile grid.
pub const ZONE_SIDE: u8 = 50;

/// Number of tiles in a zone (`ZONE_SIDE * ZONE_SIDE`).
pub const ZONE_TILES: usize = 2500;

/// A tile coordinate inside one zone.
#[derive(Clone, Copy, PartialEq, Eq, Structural, Debug)]
pub struct Pos {
    pub x: u8,
    pub y: u8,
}

impl Pos {
    /// Both coordinates lie on the grid.
    pub open spec fn wf(self) -> bool {
        self.x < ZONE_SIDE && self.y < ZONE_SIDE
    }

    /// Row-major index of this tile in a zone-sized array.
    pub open spec fn idx(self) -> int {
        self.y as int * ZONE_SIDE as int + self.x as int
    }
}

/// Chebyshev distance between two tiles: moves may be diagonal, so this is
/// the number of steps between them on an open grid.
pub open spec fn cheb_dist(a: Pos, b: Pos) -> int {
    let dx = if a.x >= b.x { a.x - b.x } else { b.x - a.x };
    let dy = if a.y >= b.y { a.y - b.y } else { b.y - a.y };
    if dx >= dy { dx as int } else { dy as int }
}

/// Two distinct tiles that one step can bridge.
pub open spec fn adjacent(a: Pos, b: Pos) -> bool {
    a != b && cheb_dist(a, b) <= 1
}

/// Chebyshev distance, executable form.
pub fn cheb_dist_exec(a: Pos, b: Pos) -> (d: u8)
    ensures
        d as int == cheb_dist(a, b),
{
    let dx: u8 = if a.x >= b.x { a.x - b.x } else { b.x - a.x };
    let dy: u8 = if a.y >= b.y { a.y - b.y } else { b.y - a.y };
    if dx >= dy { dx } else { dy }
}

/// Ground type of a tile.
#[derive(Clone, Copy, PartialEq, Eq, Structural, Debug)]
pub enum Terrain {
    Plain,
    Swamp,
    Wall,
}

/// Who owns a structure, as far as this population is concerned.
#[derive(Clone, Copy, PartialEq, Eq, Structural, Debug)]
pub enum Owner {
    Mine,
    Enemy,
    Neutral,
}

/// The structure kinds the scheduler distinguishes.
#[derive(Clone, Copy, PartialEq, Eq, Structural, Debug)]
pub enum StructureKind {
    Spawn,
    Extension,
    Road,
    Wall,
    Rampart,
    Container,
    Storage,
    Terminal,
    Link,
    Lab,
    Tower,
    Extractor,
    Controller,
    PowerBank,
    Other,
}

/// Broad resource families used to pick target sets.
#[derive(Clone, Copy, PartialEq, Eq, Structural, Debug)]
pub enum ResourceKind {
    Energy,
    Minerals,
    Power,
    Commodities,
}

/// Concrete resource types carried in stores.
#[derive(Clone, Copy, PartialEq, Eq, Structural, Debug)]
pub enum ResourceType {
    Energy,
    // base minerals and compounds
    Hydrogen,
    Oxygen,
    Utrium,
    Lemergium,
    Keanium,
    Zynthium,
    Catalyst,
    Ghodium,
    Hydroxide,
    ZynthiumKeanite,
    UtriumLemergite,
    UtriumHydride,
    UtriumOxide,
    KeaniumHydride,
    KeaniumOxide,
    LemergiumHydride,
    LemergiumOxide,
    ZynthiumHydride,
    ZynthiumOxide,
    GhodiumHydride,
    GhodiumOxide,
    UtriumAcid,
    UtriumAlkalide,
    KeaniumAcid,
    KeaniumAlkalide,
    LemergiumAcid,
    LemergiumAlkalide,
    ZynthiumAcid,
    ZynthiumAlkalide,
    GhodiumAcid,
    GhodiumAlkalide,
    CatalyzedUtriumAcid,
    CatalyzedUtriumAlkalide,
    CatalyzedKeaniumAcid,
    CatalyzedKeaniumAlkalide,
    CatalyzedLemergiumAcid,
    CatalyzedLemergiumAlkalide,
    CatalyzedZynthiumAcid,
    CatalyzedZynthiumAlkalide,
    CatalyzedGhodiumAcid,
    CatalyzedGhodiumAlkalide,
    // commodities
    Silicon,
    Metal,
    Biomass,
    Mist,
    UtriumBar,
    LemergiumBar,
    ZynthiumBar,
    KeaniumBar,
    GhodiumMelt,
    Oxidant,
    Reductant,
    Purifier,
    Battery,
    Composite,
    Crystal,
    Liquid,
    Wire,
    Switch,
    Transistor,
    Microchip,
    Circuit,
    Device,
    Cell,
    Phlegm,
    Tissue,
    Muscle,
    Organoid,
    Organism,
    Alloy,
    Tube,
    Fixtures,
    Frame,
    Hydraulics,
    Machine,
    Condensate,
    Concentrate,
    Extract,
    Spirit,
    Emanation,
    Essence,
    // power family
    Power,
    Ops,
}

/// Body part kinds of an agent; only the combat parts steer behavior here.
#[derive(Clone, Copy, PartialEq, Eq, Structural, Debug)]
pub enum PartKind {
    MovePart,
    Work,
    Carry,
    Attack,
    RangedAttack,
    Heal,
    Tough,
    Claim,
}

/// Combat capability derived from the body.
#[derive(Clone, Copy, PartialEq, Eq, Structural, Debug)]
pub enum AttackerKind {
    Short,
    Ranged,
    Unarmed,
}

/// Closed set of behavior roles an agent may carry.
#[derive(Clone, Copy, PartialEq, Eq, Structural, Debug)]
pub enum Role {
    Harvester,
    HarvesterSpawn,
    HarvesterMineral,
    Builder,
    Upgrader,
    Repairer,
    Attacker,
}

/// One stored amount of one resource type.
#[derive(Clone, Copy, PartialEq, Eq, Structural, Debug)]
pub struct StoreEntry {
    pub resource: ResourceType,
    pub amount: u32,
}

/// Amount of `rt` in a store given as a list of entries; the first matching
/// entry counts, and well-formed stores have at most one per resource.
pub open spec fn stored_of(entries: Seq<StoreEntry>, rt: ResourceType) -> u32
    decreases entries.len(),
{
    if entries.len() == 0 {
        0u32
    } else if entries[0].resource == rt {
        entries[0].amount
    } else {
        stored_of(entries.skip(1), rt)
    }
}

/// Sum of all amounts in a store.
pub open spec fn stored_total(entries: Seq<StoreEntry>) -> int
    decreases entries.len(),
{
    if entries.len() == 0 {
        0
    } else {
        entries[0].amount as int + stored_total(entries.skip(1))
    }
}

/// Look an amount up in a store list.
pub fn store_lookup(entries: &Vec<StoreEntry>, rt: ResourceType) -> (r: u32)
    ensures
        r == stored_of(entries@, rt),
{
    let mut i: usize = 0;
    assert(entries@.skip(0) =~= entries@);
    while i < entries.len()
        invariant
            i <= entries.len(),
            stored_of(entries@, rt) == stored_of(entries@.skip(i as int), rt),
        decreases entries.len() - i,
    {
        if entries[i].resource == rt {
            assert(entries@.skip(i as int)[0] == entries@[i as int]);
            return entries[i].amount;
        }
        assert(entries@.skip(i as int).skip(1) =~= entries@.skip(i as int + 1));
        i = i + 1;
    }
    assert(entries@.skip(i as int).len() == 0);
    0
}

/// A structure standing in a zone.
#[derive(Clone, Debug)]
pub struct Structure {
    pub kind: StructureKind,
    pub pos: Pos,
    pub owner: Owner,
    pub hits: u32,
    pub hits_max: u32,
    pub store: Vec<StoreEntry>,
    pub store_capacity: u32,
}

/// A pending build site owned by this population.
#[derive(Clone, Copy, PartialEq, Eq, Structural, Debug)]
pub struct ConstructionSite {
    pub kind: StructureKind,
    pub pos: Pos,
    pub progress: u32,
    pub progress_total: u32,
}

/// A loose pile of one resource on the ground.
#[derive(Clone, Copy, PartialEq, Eq, Structural, Debug)]
pub struct DroppedResource {
    pub pos: Pos,
    pub resource: ResourceType,
    pub amount: u32,
}

/// Lootable remains (a tombstone or a ruin) holding a store.
#[derive(Clone, Debug)]
pub struct LootStore {
    pub pos: Pos,
    pub store: Vec<StoreEntry>,
}

/// A harvestable energy node.
#[derive(Clone, Copy, PartialEq, Eq, Structural, Debug)]
pub struct SourceNode {
    pub pos: Pos,
    pub energy: u32,
    pub ticks_to_regeneration: u32,
}

impl SourceNode {
    /// A node that currently yields energy.
    pub open spec fn active(self) -> bool {
        self.energy > 0
    }
}

/// A mineral deposit; mining it needs an extractor structure on its tile.
#[derive(Clone, Copy, PartialEq, Eq, Structural, Debug)]
pub struct MineralNode {
    pub pos: Pos,
}

/// A commodity deposit.
#[derive(Clone, Copy, PartialEq, Eq, Structural, Debug)]
pub struct DepositNode {
    pub pos: Pos,
}

/// Another agent seen standing in the zone (own or hostile).
#[derive(Clone, Copy, PartialEq, Eq, Structural, Debug)]
pub struct AgentPresence {
    pub id: u32,
    pub pos: Pos,
    pub mine: bool,
}

/// Snapshot of one zone for the current tick.
#[derive(Clone, Debug)]
pub struct Zone {
    pub id: u16,
    pub terrain: Vec<Terrain>,
    pub structures: Vec<Structure>,
    pub sites: Vec<ConstructionSite>,
    pub agents: Vec<AgentPresence>,
    pub piles: Vec<DroppedResource>,
    pub tombstones: Vec<LootStore>,
    pub ruins: Vec<LootStore>,
    pub sources: Vec<SourceNode>,
    pub minerals: Vec<MineralNode>,
    pub deposits: Vec<DepositNode>,
}

impl Zone {
    /// Terrain of a tile.
    pub open spec fn terrain_at(self, p: Pos) -> Terrain {
        self.terrain@[p.idx()]
    }

    /// The snapshot covers the whole grid and places everything on it.
    pub open spec fn wf(self) -> bool {
        &&& self.terrain@.len() == ZONE_TILES
        &&& forall|i: int|
            0 <= i < self.structures@.len() ==> (#[trigger] self.structures@[i]).pos.wf()
                && self.structures@[i].store@.len() < 0x1_0000_0000
                && self.structures@[i].hits <= self.structures@[i].hits_max
        &&& forall|i: int|
            0 <= i < self.sites@.len() ==> (#[trigger] self.sites@[i]).pos.wf()
                && self.sites@[i].progress <= self.sites@[i].progress_total
        &&& forall|i: int| 0 <= i < self.agents@.len() ==> (#[trigger] self.agents@[i]).pos.wf()
        &&& forall|i: int| 0 <= i < self.piles@.len() ==> (#[trigger] self.piles@[i]).pos.wf()
        &&& forall|i: int| 0 <= i < self.tombstones@.len() ==> (#[trigger] self.tombstones@[i]).pos.wf()
        &&& forall|i: int| 0 <= i < self.ruins@.len() ==> (#[trigger] self.ruins@[i]).pos.wf()
        &&& forall|i: int| 0 <= i < self.sources@.len() ==> (#[trigger] self.sources@[i]).pos.wf()
        &&& forall|i: int| 0 <= i < self.minerals@.len() ==> (#[trigger] self.minerals@[i]).pos.wf()
        &&& forall|i: int| 0 <= i < self.deposits@.len() ==> (#[trigger] self.deposits@[i]).pos.wf()
    }
}

/// The visible world: every zone observable this tick.
#[derive(Clone, Debug)]
pub struct World {
    pub zones: Vec<Zone>,
}

impl World {
    pub open spec fn wf(self) -> bool {
        &&& forall|i: int| 0 <= i < self.zones@.len() ==> (#[trigger] self.zones@[i]).wf()
        &&& forall|i: int, j: int|
            0 <= i < self.zones@.len() && 0 <= j < self.zones@.len() && i != j
                ==> (#[trigger] self.zones@[i]).id != (#[trigger] self.zones@[j]).id
    }
}

/// Index of the zone carrying `id`, as a specification; zone ids are unique
/// in a well-formed world, so the index is determined.
pub open spec fn spec_zone_lookup(w: World, id: u16) -> Option<int> {
    if exists|i: int| 0 <= i < w.zones@.len() && (#[trigger] w.zones@[i]).id == id {
        Some(choose|i: int| 0 <= i < w.zones@.len() && (#[trigger] w.zones@[i]).id == id)
    } else {
        None
    }
}

/// A found index is the looked-up index.
pub proof fn lemma_zone_lookup_agrees(w: World, id: u16, i: int)
    requires
        w.wf(),
        0 <= i < w.zones@.len(),
        w.zones@[i].id == id,
    ensures
        spec_zone_lookup(w, id) == Some(i),
{
    assert(exists|j: int| 0 <= j < w.zones@.len() && (#[trigger] w.zones@[j]).id == id);
    let j = choose|j: int| 0 <= j < w.zones@.len() && (#[trigger] w.zones@[j]).id == id;
    assert(j == i);
}

/// When no zone carries the id, the lookup is empty.
pub proof fn lemma_zone_lookup_none(w: World, id: u16)
    requires
        forall|i: int| 0 <= i < w.zones@.len() ==> (#[trigger] w.zones@[i]).id != id,
    ensures
        spec_zone_lookup(w, id) is None,
{
}

/// Index of the zone carrying `id`, if that zone is observable.
pub fn zone_index_of(world: &World, id: u16) -> (r: Option<usize>)
    ensures
        match r {
            Some(i) => i < world.zones@.len() && world.zones@[i as int].id == id,
            None => forall|i: int| 0 <= i < world.zones@.len()
                ==> (#[trigger] world.zones@[i]).id != id,
        },
{
    let mut i: usize = 0;
    while i < world.zones.len()
        invariant
            i <= world.zones@.len(),
            forall|j: int| 0 <= j < i ==> (#[trigger] world.zones@[j]).id != id,
        decreases world.zones.len() - i,
    {
        if world.zones[i].id == id {
            return Some(i);
        }
        i = i + 1;
    }
    None
}

/// One of this population's agents, as the scheduler sees it this tick.
#[derive(Clone, Debug)]
pub struct Agent {
    pub id: u32,
    pub zone: u16,
    pub pos: Pos,
    pub body: Vec<PartKind>,
    pub store: Vec<StoreEntry>,
    pub store_capacity: u32,
    pub spawning: bool,
}

impl Agent {
    /// Total amount the agent carries.
    pub open spec fn carried(self) -> int {
        stored_total(self.store@)
    }

    pub open spec fn wf(self) -> bool {
        &&& self.pos.wf()
        &&& 0 <= self.carried() <= self.store_capacity
        &&& self.store@.len() < 0x1_0000_0000
    }
}

/// Total amount carried in a store list, executable form.
pub fn store_total_exec(entries: &Vec<StoreEntry>) -> (r: Option<u64>)
    requires
        entries@.len() < 0x1_0000_0000,
    ensures
        match r {
            Some(v) => v == stored_total(entries@),
            None => stored_total(entries@) > u64::MAX,
        },
{
    let mut total: u64 = 0;
    let mut i: usize = 0;
    assert(entries@.skip(0) =~= entries@);
    proof {
        lemma_stored_total_nonneg(entries@);
    }
    while i < entries.len()
        invariant
            i <= entries.len(),
            stored_total(entries@) == total + stored_total(entries@.skip(i as int)),
            total <= stored_total(entries@),
            stored_total(entries@) >= 0,
        decreases entries.len() - i,
    {
        proof {
            assert(entries@.skip(i as int)[0] == entries@[i as int]);
            assert(entries@.skip(i as int).skip(1) =~= entries@.skip(i as int + 1));
            lemma_stored_total_nonneg(entries@.skip(i as int + 1));
        }
        let amt = entries[i].amount;
        if total > u64::MAX - amt as u64 {
            proof {
                lemma_stored_total_nonneg(entries@.skip(i as int + 1));
            }
            return None;
        }
        total = total + amt as u64;
        i = i + 1;
    }
    assert(entries@.skip(i as int).len() == 0);
    Some(total)
}

/// A store's total is never negative.
pub proof fn lemma_stored_total_nonneg(entries: Seq<StoreEntry>)
    ensures
        stored_total(entries) >= 0,
    decreases entries.len(),
{
    if entries.len() > 0 {
        lemma_stored_total_nonneg(entries.skip(1));
    }
}

} // verus!
