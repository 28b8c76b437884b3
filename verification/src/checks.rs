//! Predicates over structures and resources that the resolver and the role
//! behaviors share: ownership, capacity, repair state, decay lifetime, and
//! the resource types belonging to each resource kind.

use vstd::prelude::*;

use crate::model::{
    stored_of, stored_total, store_lookup, lemma_stored_total_nonneg, Owner, Pos, ResourceKind,
    ResourceType, Structure, StructureKind, Terrain, Zone,
};

verus! {

/// Kinds whose structures accept a transfer into their store.
pub open spec fn kind_transferable(k: StructureKind) -> bool {
    match k {
        StructureKind::Spawn => true,
        StructureKind::Extension => true,
        StructureKind::Tower => true,
        StructureKind::Storage => true,
        StructureKind::Container => true,
        StructureKind::Terminal => true,
        StructureKind::Link => true,
        StructureKind::Lab => true,
        _ => false,
    }
}

/// Kinds whose structures expose a store at all.
pub open spec fn kind_has_store(k: StructureKind) -> bool {
    kind_transferable(k) || k == StructureKind::PowerBank
}

/// Kinds that can be damaged and repaired.
pub open spec fn kind_attackable(k: StructureKind) -> bool {
    k != StructureKind::Controller
}

/// Free room left in a structure's store.
pub open spec fn free_capacity_of(s: Structure) -> int {
    if stored_total(s.store@) <= s.store_capacity {
        s.store_capacity - stored_total(s.store@)
    } else {
        0
    }
}

/// The structure blocks movement across its tile.  Roads, containers and
/// this population's own ramparts are the walkable exceptions.
pub open spec fn structure_blocks(s: Structure) -> bool {
    s.kind != StructureKind::Road && s.kind != StructureKind::Container && !(s.kind
        == StructureKind::Rampart && s.owner == Owner::Mine)
}

/// This structure belongs to this population.
pub fn check_my_structure(s: &Structure) -> (r: bool)
    ensures
        r == (s.owner == Owner::Mine),
{
    s.owner == Owner::Mine
}

/// Meaning of `check_transferable`: the structure accepts a deposit of `rt`,
/// with `rate_permille` thousandths of its capacity demanded free first.
/// Hostile structures never qualify; neutral ones only need room.
pub open spec fn spec_transferable(s: Structure, rate_permille: int) -> bool {
    match s.owner {
        Owner::Mine => kind_transferable(s.kind) && free_capacity_of(s) > s.store_capacity as int
            * rate_permille / 1000,
        Owner::Enemy => false,
        Owner::Neutral => kind_transferable(s.kind) && free_capacity_of(s) > 0,
    }
}

/// Whether a deposit into this structure can succeed.  `capacity_rate` keeps
/// a deposit out unless that share (in thousandths) of the capacity is free;
/// absent it demands only some room.
pub fn check_transferable(s: &Structure, resource_type: &ResourceType, capacity_rate: Option<u32>)
    -> (r: bool)
    requires
        s.store@.len() < 0x1_0000_0000,
    ensures
        r == spec_transferable(*s, match capacity_rate {
            Some(v) => v as int,
            None => 0,
        }),
{
    // these stores share one pool of room across resource types, so the
    // requested type does not change the free capacity
    let _ = resource_type;
    let rate: u32 = match capacity_rate {
        Some(v) => v,
        None => 0,
    };
    let free = free_capacity(s);
    match s.owner {
        Owner::Mine => {
            assert(s.store_capacity as int * rate as int <= u32::MAX as int * u32::MAX as int)
                by (nonlinear_arith)
                requires
                    s.store_capacity as int <= u32::MAX as int,
                    0 <= rate as int <= u32::MAX as int,
            ;
            let threshold = s.store_capacity as u64 * rate as u64 / 1000;
            kind_transferable_exec(s.kind) && free as u64 > threshold
        }
        Owner::Enemy => false,
        Owner::Neutral => kind_transferable_exec(s.kind) && free > 0,
    }
}

/// Free room left in a structure's store.
pub fn free_capacity(s: &Structure) -> (r: u32)
    requires
        s.store@.len() < 0x1_0000_0000,
    ensures
        r == free_capacity_of(*s),
{
    let mut total: u64 = 0;
    let mut i: usize = 0;
    assert(s.store@.skip(0) =~= s.store@);
    proof {
        lemma_stored_total_nonneg(s.store@);
    }
    while i < s.store.len()
        invariant
            i <= s.store@.len(),
            s.store@.len() < 0x1_0000_0000,
            stored_total(s.store@) == total + stored_total(s.store@.skip(i as int)),
            total <= i * 0x1_0000_0000,
        decreases s.store@.len() - i,
    {
        proof {
            assert(s.store@.skip(i as int)[0] == s.store@[i as int]);
            assert(s.store@.skip(i as int).skip(1) =~= s.store@.skip(i as int + 1));
        }
        total = total + s.store[i].amount as u64;
        i = i + 1;
    }
    assert(s.store@.skip(i as int).len() == 0);
    if total >= s.store_capacity as u64 {
        0
    } else {
        s.store_capacity - total as u32
    }
}

/// Executable form of `kind_transferable`.
pub fn kind_transferable_exec(k: StructureKind) -> (r: bool)
    ensures
        r == kind_transferable(k),
{
    match k {
        StructureKind::Spawn => true,
        StructureKind::Extension => true,
        StructureKind::Tower => true,
        StructureKind::Storage => true,
        StructureKind::Container => true,
        StructureKind::Terminal => true,
        StructureKind::Link => true,
        StructureKind::Lab => true,
        _ => false,
    }
}

/// Meaning of `check_repairable`: damaged but standing, and not hostile.
pub open spec fn spec_repairable(s: Structure) -> bool {
    s.owner != Owner::Enemy && kind_attackable(s.kind) && 0 < s.hits < s.hits_max
}

/// Whether repairing this structure is worthwhile at all.
pub fn check_repairable(s: &Structure) -> (r: bool)
    ensures
        r == spec_repairable(*s),
{
    s.owner != Owner::Enemy && s.kind != StructureKind::Controller && 0 < s.hits && s.hits
        < s.hits_max
}

/// Meaning of `get_hp`: current hit points of a damaged, standing,
/// non-hostile structure.
pub open spec fn spec_hp(s: Structure) -> Option<u32> {
    if s.owner != Owner::Enemy && kind_attackable(s.kind) && 0 < s.hits < s.hits_max {
        Some(s.hits)
    } else {
        None
    }
}

/// Hit points of a structure that counts toward the damage statistics.
pub fn get_hp(s: &Structure) -> (r: Option<u32>)
    ensures
        r == spec_hp(*s),
{
    if s.owner != Owner::Enemy && s.kind != StructureKind::Controller && 0 < s.hits && s.hits
        < s.hits_max {
        Some(s.hits)
    } else {
        None
    }
}

/// Meaning of `get_repairable_hp`: hit points a repairer could still add.
pub open spec fn spec_repairable_hp(s: Structure) -> Option<u32> {
    if s.owner != Owner::Enemy && kind_attackable(s.kind) && s.hits > 0 {
        Some((s.hits_max - s.hits) as u32)
    } else {
        None
    }
}

/// Hit points missing from a standing, non-hostile structure.
pub fn get_repairable_hp(s: &Structure) -> (r: Option<u32>)
    requires
        s.hits <= s.hits_max,
    ensures
        r == spec_repairable_hp(*s),
{
    if s.owner != Owner::Enemy && s.kind != StructureKind::Controller && s.hits > 0 {
        Some(s.hits_max - s.hits)
    } else {
        None
    }
}

/// Whether the structure is damaged and below the hit-point threshold.
pub fn check_repairable_hp(s: &Structure, hp_th: u32) -> (r: bool)
    ensures
        r == (spec_repairable(*s) && s.hits < hp_th),
{
    s.owner != Owner::Enemy && s.kind != StructureKind::Controller && s.hits < s.hits_max
        && 0 < s.hits && s.hits < hp_th
}

/// Whether the structure holds more than `keep_amount` of `rt`.
pub fn check_stored(s: &Structure, rt: ResourceType, keep_amount: u32) -> (r: bool)
    ensures
        r == (kind_has_store(s.kind) && stored_of(s.store@, rt) > keep_amount),
{
    let has = match s.kind {
        StructureKind::PowerBank => true,
        _ => kind_transferable_exec(s.kind),
    };
    if has == false {
        return false;
    }
    let amount = store_lookup(&s.store, rt);
    amount > keep_amount
}

/// Decay rates of the structures that rot away over time.  The world hands
/// these in as configuration; the scheduler treats them as opaque rates.
#[derive(Clone, Copy, PartialEq, Eq, Structural, Debug)]
pub struct DecayConfig {
    pub road_decay_time: u32,
    pub road_decay_amount: u32,
    pub road_swamp_ratio: u32,
    pub road_wall_ratio: u32,
    pub container_decay_time: u32,
    pub container_decay: u32,
    pub rampart_decay_time: u32,
    pub rampart_decay_amount: u32,
}

impl DecayConfig {
    /// All decay amounts divide, and all ratios multiply, meaningfully.
    pub open spec fn wf(self) -> bool {
        &&& self.road_decay_amount > 0
        &&& self.road_swamp_ratio > 0
        &&& self.road_wall_ratio > 0
        &&& self.container_decay > 0
        &&& self.rampart_decay_amount > 0
    }
}

/// Meaning of `get_live_tickcount`: ticks a decaying structure has left,
/// from its hit points and its decay rate; anything that does not decay, or
/// is hostile, has no such count.
pub open spec fn spec_live_tickcount(s: Structure, ground: Terrain, cfg: DecayConfig) -> Option<
    int,
> {
    if s.owner == Owner::Enemy || !kind_attackable(s.kind) {
        None
    } else {
        match s.kind {
            StructureKind::Road => Some(
                cfg.road_decay_time as int * (s.hits as int / (cfg.road_decay_amount as int
                    * (match ground {
                        Terrain::Plain => 1int,
                        Terrain::Swamp => cfg.road_swamp_ratio as int,
                        Terrain::Wall => cfg.road_wall_ratio as int,
                    }))),
            ),
            StructureKind::Container => Some(
                cfg.container_decay_time as int * (s.hits as int / cfg.container_decay as int),
            ),
            StructureKind::Rampart => Some(
                cfg.rampart_decay_time as int * (s.hits as int / cfg.rampart_decay_amount as int),
            ),
            _ => None,
        }
    }
}

/// Remaining lifetime, in ticks, of a decaying structure standing on the
/// given ground.
pub fn get_live_tickcount(s: &Structure, ground: Terrain, cfg: &DecayConfig) -> (r: Option<u128>)
    requires
        cfg.wf(),
    ensures
        match r {
            Some(v) => spec_live_tickcount(*s, ground, *cfg) == Some(v as int),
            None => spec_live_tickcount(*s, ground, *cfg) is None,
        },
{
    if s.owner == Owner::Enemy {
        return None;
    }
    match s.kind {
        StructureKind::Road => {
            let ratio: u64 = match ground {
                Terrain::Plain => 1,
                Terrain::Swamp => cfg.road_swamp_ratio as u64,
                Terrain::Wall => cfg.road_wall_ratio as u64,
            };
            assert(cfg.road_decay_amount as int * ratio as int <= u32::MAX as int * u32::MAX
                as int) by (nonlinear_arith)
                requires
                    cfg.road_decay_amount as int <= u32::MAX as int,
                    0 <= ratio as int <= u32::MAX as int,
            ;
            let per = cfg.road_decay_amount as u64 * ratio;
            assert(per >= 1) by (nonlinear_arith)
                requires
                    per as int == cfg.road_decay_amount as int * ratio as int,
                    cfg.road_decay_amount >= 1,
                    ratio >= 1,
            ;
            let q = s.hits as u64 / per;
            assert(q <= u32::MAX as u64);
            assert(cfg.road_decay_time as int * q as int <= u32::MAX as int * u32::MAX as int)
                by (nonlinear_arith)
                requires
                    cfg.road_decay_time as int <= u32::MAX as int,
                    0 <= q as int <= u32::MAX as int,
            ;
            Some(cfg.road_decay_time as u128 * q as u128)
        }
        StructureKind::Container => {
            let q = s.hits / cfg.container_decay;
            assert(cfg.container_decay_time as int * q as int <= u32::MAX as int * u32::MAX
                as int) by (nonlinear_arith)
                requires
                    cfg.container_decay_time as int <= u32::MAX as int,
                    0 <= q as int <= u32::MAX as int,
            ;
            Some(cfg.container_decay_time as u128 * q as u128)
        }
        StructureKind::Rampart => {
            let q = s.hits / cfg.rampart_decay_amount;
            assert(cfg.rampart_decay_time as int * q as int <= u32::MAX as int * u32::MAX
                as int) by (nonlinear_arith)
                requires
                    cfg.rampart_decay_time as int <= u32::MAX as int,
                    0 <= q as int <= u32::MAX as int,
            ;
            Some(cfg.rampart_decay_time as u128 * q as u128)
        }
        _ => None,
    }
}

/// A tile nobody can step onto: an agent stands there, the ground is a wall,
/// or a blocking structure covers it.
pub open spec fn spec_walkable(z: Zone, p: Pos) -> bool {
    &&& !(exists|i: int| 0 <= i < z.agents@.len() && (#[trigger] z.agents@[i]).pos == p)
    &&& z.terrain_at(p) != Terrain::Wall
    &&& !(exists|i: int|
        0 <= i < z.structures@.len() && (#[trigger] z.structures@[i]).pos == p
            && structure_blocks(z.structures@[i]))
}

/// Whether an agent could stand on this tile right now.
pub fn check_walkable(z: &Zone, p: Pos) -> (r: bool)
    requires
        z.wf(),
        p.wf(),
    ensures
        r == spec_walkable(*z, p),
{
    let mut i: usize = 0;
    while i < z.agents.len()
        invariant
            i <= z.agents@.len(),
            forall|j: int| 0 <= j < i ==> (#[trigger] z.agents@[j]).pos != p,
        decreases z.agents@.len() - i,
    {
        if z.agents[i].pos.x == p.x && z.agents[i].pos.y == p.y {
            assert(z.agents@[i as int].pos == p);
            return false;
        }
        i = i + 1;
    }
    let t = z.terrain[p.y as usize * ZONE_SIDE_USIZE + p.x as usize];
    if t == Terrain::Wall {
        return false;
    }
    let mut i: usize = 0;
    while i < z.structures.len()
        invariant
            i <= z.structures@.len(),
            forall|j: int|
                0 <= j < i ==> !((#[trigger] z.structures@[j]).pos == p && structure_blocks(
                    z.structures@[j],
                )),
        decreases z.structures@.len() - i,
    {
        let s = &z.structures[i];
        if s.pos.x == p.x && s.pos.y == p.y && s.kind != StructureKind::Road && s.kind
            != StructureKind::Container && !(s.kind == StructureKind::Rampart && s.owner
            == Owner::Mine) {
            assert(z.structures@[i as int].pos == p && structure_blocks(z.structures@[i as int]));
            return false;
        }
        i = i + 1;
    }
    true
}

/// `ZONE_SIDE` as a usize index step.
pub const ZONE_SIDE_USIZE: usize = 50;

/// The resource types making up each resource kind, in fixed order.
pub open spec fn spec_kind_list(kind: ResourceKind) -> Seq<ResourceType> {
    match kind {
        ResourceKind::Energy => seq![ResourceType::Energy],
        ResourceKind::Minerals => seq![
            ResourceType::Hydrogen,
            ResourceType::Oxygen,
            ResourceType::Utrium,
            ResourceType::Lemergium,
            ResourceType::Keanium,
            ResourceType::Zynthium,
            ResourceType::Catalyst,
            ResourceType::Ghodium,
            ResourceType::Hydroxide,
            ResourceType::ZynthiumKeanite,
            ResourceType::UtriumLemergite,
            ResourceType::UtriumHydride,
            ResourceType::UtriumOxide,
            ResourceType::KeaniumHydride,
            ResourceType::KeaniumOxide,
            ResourceType::LemergiumHydride,
            ResourceType::LemergiumOxide,
            ResourceType::ZynthiumHydride,
            ResourceType::ZynthiumOxide,
            ResourceType::GhodiumHydride,
            ResourceType::GhodiumOxide,
            ResourceType::UtriumAcid,
            ResourceType::UtriumAlkalide,
            ResourceType::KeaniumAcid,
            ResourceType::KeaniumAlkalide,
            ResourceType::LemergiumAcid,
            ResourceType::LemergiumAlkalide,
            ResourceType::ZynthiumAcid,
            ResourceType::ZynthiumAlkalide,
            ResourceType::GhodiumAcid,
            ResourceType::GhodiumAlkalide,
            ResourceType::CatalyzedUtriumAcid,
            ResourceType::CatalyzedUtriumAlkalide,
            ResourceType::CatalyzedKeaniumAcid,
            ResourceType::CatalyzedKeaniumAlkalide,
            ResourceType::CatalyzedLemergiumAcid,
            ResourceType::CatalyzedLemergiumAlkalide,
            ResourceType::CatalyzedZynthiumAcid,
            ResourceType::CatalyzedZynthiumAlkalide,
            ResourceType::CatalyzedGhodiumAcid,
            ResourceType::CatalyzedGhodiumAlkalide,
        ],
        ResourceKind::Commodities => seq![
            ResourceType::Silicon,
            ResourceType::Metal,
            ResourceType::Biomass,
            ResourceType::Mist,
            ResourceType::UtriumBar,
            ResourceType::LemergiumBar,
            ResourceType::ZynthiumBar,
            ResourceType::KeaniumBar,
            ResourceType::GhodiumMelt,
            ResourceType::Oxidant,
            ResourceType::Reductant,
            ResourceType::Purifier,
            ResourceType::Battery,
            ResourceType::Composite,
            ResourceType::Crystal,
            ResourceType::Liquid,
            ResourceType::Wire,
            ResourceType::Switch,
            ResourceType::Transistor,
            ResourceType::Microchip,
            ResourceType::Circuit,
            ResourceType::Device,
            ResourceType::Cell,
            ResourceType::Phlegm,
            ResourceType::Tissue,
            ResourceType::Muscle,
            ResourceType::Organoid,
            ResourceType::Organism,
            ResourceType::Alloy,
            ResourceType::Tube,
            ResourceType::Fixtures,
            ResourceType::Frame,
            ResourceType::Hydraulics,
            ResourceType::Machine,
            ResourceType::Condensate,
            ResourceType::Concentrate,
            ResourceType::Extract,
            ResourceType::Spirit,
            ResourceType::Emanation,
            ResourceType::Essence,
        ],
        ResourceKind::Power => seq![ResourceType::Power, ResourceType::Ops],
    }
}

/// A resource type belongs to a kind when the kind's list carries it.
pub open spec fn kind_matches(rt: ResourceType, kind: ResourceKind) -> bool {
    spec_kind_list(kind).contains(rt)
}

/// The resource types of one kind, in the fixed order the resolver scans.
pub fn make_resoucetype_list(resource_kind: &ResourceKind) -> (r: Vec<ResourceType>)
    ensures
        r@ == spec_kind_list(*resource_kind),
{
    let mut v: Vec<ResourceType> = Vec::new();
    match resource_kind {
        ResourceKind::Energy => {
            v.push(ResourceType::Energy);
        }
        ResourceKind::Minerals => {
            v.push(ResourceType::Hydrogen);
            v.push(ResourceType::Oxygen);
            v.push(ResourceType::Utrium);
            v.push(ResourceType::Lemergium);
            v.push(ResourceType::Keanium);
            v.push(ResourceType::Zynthium);
            v.push(ResourceType::Catalyst);
            v.push(ResourceType::Ghodium);
            v.push(ResourceType::Hydroxide);
            v.push(ResourceType::ZynthiumKeanite);
            v.push(ResourceType::UtriumLemergite);
            v.push(ResourceType::UtriumHydride);
            v.push(ResourceType::UtriumOxide);
            v.push(ResourceType::KeaniumHydride);
            v.push(ResourceType::KeaniumOxide);
            v.push(ResourceType::LemergiumHydride);
            v.push(ResourceType::LemergiumOxide);
            v.push(ResourceType::ZynthiumHydride);
            v.push(ResourceType::ZynthiumOxide);
            v.push(ResourceType::GhodiumHydride);
            v.push(ResourceType::GhodiumOxide);
            v.push(ResourceType::UtriumAcid);
            v.push(ResourceType::UtriumAlkalide);
            v.push(ResourceType::KeaniumAcid);
            v.push(ResourceType::KeaniumAlkalide);
            v.push(ResourceType::LemergiumAcid);
            v.push(ResourceType::LemergiumAlkalide);
            v.push(ResourceType::ZynthiumAcid);
            v.push(ResourceType::ZynthiumAlkalide);
            v.push(ResourceType::GhodiumAcid);
            v.push(ResourceType::GhodiumAlkalide);
            v.push(ResourceType::CatalyzedUtriumAcid);
            v.push(ResourceType::CatalyzedUtriumAlkalide);
            v.push(ResourceType::CatalyzedKeaniumAcid);
            v.push(ResourceType::CatalyzedKeaniumAlkalide);
            v.push(ResourceType::CatalyzedLemergiumAcid);
            v.push(ResourceType::CatalyzedLemergiumAlkalide);
            v.push(ResourceType::CatalyzedZynthiumAcid);
            v.push(ResourceType::CatalyzedZynthiumAlkalide);
            v.push(ResourceType::CatalyzedGhodiumAcid);
            v.push(ResourceType::CatalyzedGhodiumAlkalide);
        }
        ResourceKind::Commodities => {
            v.push(ResourceType::Silicon);
            v.push(ResourceType::Metal);
            v.push(ResourceType::Biomass);
            v.push(ResourceType::Mist);
            v.push(ResourceType::UtriumBar);
            v.push(ResourceType::LemergiumBar);
            v.push(ResourceType::ZynthiumBar);
            v.push(ResourceType::KeaniumBar);
            v.push(ResourceType::GhodiumMelt);
            v.push(ResourceType::Oxidant);
            v.push(ResourceType::Reductant);
            v.push(ResourceType::Purifier);
            v.push(ResourceType::Battery);
            v.push(ResourceType::Composite);
            v.push(ResourceType::Crystal);
            v.push(ResourceType::Liquid);
            v.push(ResourceType::Wire);
            v.push(ResourceType::Switch);
            v.push(ResourceType::Transistor);
            v.push(ResourceType::Microchip);
            v.push(ResourceType::Circuit);
            v.push(ResourceType::Device);
            v.push(ResourceType::Cell);
            v.push(ResourceType::Phlegm);
            v.push(ResourceType::Tissue);
            v.push(ResourceType::Muscle);
            v.push(ResourceType::Organoid);
            v.push(ResourceType::Organism);
            v.push(ResourceType::Alloy);
            v.push(ResourceType::Tube);
            v.push(ResourceType::Fixtures);
            v.push(ResourceType::Frame);
            v.push(ResourceType::Hydraulics);
            v.push(ResourceType::Machine);
            v.push(ResourceType::Condensate);
            v.push(ResourceType::Concentrate);
            v.push(ResourceType::Extract);
            v.push(ResourceType::Spirit);
            v.push(ResourceType::Emanation);
            v.push(ResourceType::Essence);
        }
        ResourceKind::Power => {
            v.push(ResourceType::Power);
            v.push(ResourceType::Ops);
        }
    }
    assert(v@ =~= spec_kind_list(*resource_kind));
    v
}

/// Whether a concrete resource type falls under a resource kind.
pub fn check_resouce_type_kind_matching(resource_type: &ResourceType, resource_kind: &ResourceKind)
    -> (r: bool)
    ensures
        r == kind_matches(*resource_type, *resource_kind),
{
    let type_list = make_resoucetype_list(resource_kind);
    let mut i: usize = 0;
    while i < type_list.len()
        invariant
            i <= type_list@.len(),
            type_list@ == spec_kind_list(*resource_kind),
            forall|j: int| 0 <= j < i ==> type_list@[j] != *resource_type,
        decreases type_list@.len() - i,
    {
        if type_list[i] == *resource_type {
            assert(spec_kind_list(*resource_kind)[i as int] == *resource_type);
            return true;
        }
        i = i + 1;
    }
    assert(forall|j: int| 0 <= j < type_list@.len() ==> type_list@[j] != *resource_type);
    false
}

} // verus!
