//! The population-wide role balancer.
//!
//! One pass tallies the current roles and combat capability; a second pass
//! walks the unassigned agents and hands each exactly one role, checking
//! every quota against the running counts so that one assignment can shift
//! the threshold for the next.  Quota divisors and the mineral-harvester
//! population threshold are configuration.

use vstd::prelude::*;

use crate::model::{AttackerKind, Role};

verus! {

/// What the balancer reads of one agent: its stored role, its combat
/// capability, and its carrying capacity.
#[derive(Clone, Copy, PartialEq, Eq, Structural, Debug)]
pub struct BalanceInput {
    pub role: Option<Role>,
    pub attacker: AttackerKind,
    pub capacity: u32,
}

/// Quota knobs of the balancer.
#[derive(Clone, Copy, PartialEq, Eq, Structural, Debug)]
pub struct BalancerConfig {
    pub quota_divisor: u32,
    pub mineral_population_threshold: u32,
}

impl BalancerConfig {
    pub open spec fn wf(self) -> bool {
        self.quota_divisor > 0
    }
}

/// The running role counts, in specification form.
pub struct BalanceState {
    pub harvester: int,
    pub harvester_spawn: int,
    pub harvester_mineral: int,
    pub builder: int,
    pub upgrader: int,
    pub repairer: int,
    pub attacker: int,
    pub short_attackers: int,
    pub ranged_attackers: int,
    pub cap_worker_carry: int,
}

/// Add one agent's stored role and combat capability to the tally.
pub open spec fn tally_one(st: BalanceState, info: BalanceInput) -> BalanceState {
    let st1 = match info.attacker {
        AttackerKind::Short => BalanceState { short_attackers: st.short_attackers + 1, ..st },
        AttackerKind::Ranged => BalanceState { ranged_attackers: st.ranged_attackers + 1, ..st },
        AttackerKind::Unarmed => st,
    };
    match info.role {
        Some(Role::Harvester) => BalanceState {
            harvester: st1.harvester + 1,
            cap_worker_carry: st1.cap_worker_carry + info.capacity,
            ..st1
        },
        Some(Role::HarvesterSpawn) => BalanceState {
            harvester_spawn: st1.harvester_spawn + 1,
            cap_worker_carry: st1.cap_worker_carry + info.capacity,
            ..st1
        },
        Some(Role::HarvesterMineral) => BalanceState {
            harvester_mineral: st1.harvester_mineral + 1,
            ..st1
        },
        Some(Role::Builder) => BalanceState { builder: st1.builder + 1, ..st1 },
        Some(Role::Upgrader) => BalanceState { upgrader: st1.upgrader + 1, ..st1 },
        Some(Role::Repairer) => BalanceState { repairer: st1.repairer + 1, ..st1 },
        Some(Role::Attacker) => BalanceState { attacker: st1.attacker + 1, ..st1 },
        None => st1,
    }
}

/// The empty tally.
pub open spec fn zero_state() -> BalanceState {
    BalanceState {
        harvester: 0,
        harvester_spawn: 0,
        harvester_mineral: 0,
        builder: 0,
        upgrader: 0,
        repairer: 0,
        attacker: 0,
        short_attackers: 0,
        ranged_attackers: 0,
        cap_worker_carry: 0,
    }
}

/// Tally the whole population.
pub open spec fn spec_tally(infos: Seq<BalanceInput>) -> BalanceState
    decreases infos.len(),
{
    if infos.len() == 0 {
        zero_state()
    } else {
        tally_one(spec_tally(infos.drop_last()), infos.last())
    }
}

/// Assign one agent: a stored role is kept without touching the counts
/// (the tally already holds it); an unassigned agent takes the first role
/// whose condition holds against the running counts, in the fixed priority
/// order.
pub open spec fn assign_one(
    st: BalanceState,
    total: int,
    cfg: BalancerConfig,
    info: BalanceInput,
) -> (Role, BalanceState) {
    match info.role {
        Some(r) => (r, st),
        None => {
            let quota = total / cfg.quota_divisor as int;
            if st.harvester_spawn == 0 {
                (
                    Role::HarvesterSpawn,
                    BalanceState {
                        harvester_spawn: st.harvester_spawn + 1,
                        cap_worker_carry: st.cap_worker_carry + info.capacity,
                        ..st
                    },
                )
            } else if st.upgrader < quota + 1 {
                (Role::Upgrader, BalanceState { upgrader: st.upgrader + 1, ..st })
            } else if st.builder < quota {
                (Role::Builder, BalanceState { builder: st.builder + 1, ..st })
            } else if st.repairer < quota {
                (Role::Repairer, BalanceState { repairer: st.repairer + 1, ..st })
            } else if st.harvester_mineral == 0 && total > cfg.mineral_population_threshold as int {
                (
                    Role::HarvesterMineral,
                    BalanceState { harvester_mineral: st.harvester_mineral + 1, ..st },
                )
            } else {
                (
                    Role::Harvester,
                    BalanceState {
                        harvester: st.harvester + 1,
                        cap_worker_carry: st.cap_worker_carry + info.capacity,
                        ..st
                    },
                )
            }
        },
    }
}

/// The roles the whole pass hands out, front to back.
pub open spec fn assign_from(
    st: BalanceState,
    total: int,
    cfg: BalancerConfig,
    infos: Seq<BalanceInput>,
) -> Seq<Role>
    decreases infos.len(),
{
    if infos.len() == 0 {
        Seq::empty()
    } else {
        let step = assign_one(st, total, cfg, infos[0]);
        seq![step.0] + assign_from(step.1, total, cfg, infos.skip(1))
    }
}

/// The counts after the whole pass.
pub open spec fn assign_final(
    st: BalanceState,
    total: int,
    cfg: BalancerConfig,
    infos: Seq<BalanceInput>,
) -> BalanceState
    decreases infos.len(),
{
    if infos.len() == 0 {
        st
    } else {
        let step = assign_one(st, total, cfg, infos[0]);
        assign_final(step.1, total, cfg, infos.skip(1))
    }
}

/// Sum of all per-role counts.
pub open spec fn sum_counts(st: BalanceState) -> int {
    st.harvester + st.harvester_spawn + st.harvester_mineral + st.builder + st.upgrader
        + st.repairer + st.attacker
}

/// How many agents carry no role yet.
pub open spec fn count_unassigned(infos: Seq<BalanceInput>) -> int
    decreases infos.len(),
{
    if infos.len() == 0 {
        0
    } else {
        (if infos.last().role is None {
            1int
        } else {
            0int
        }) + count_unassigned(infos.drop_last())
    }
}

/// The tally covers every agent once: roles plus unassigned agents add up
/// to the population.
pub proof fn lemma_tally_covers(infos: Seq<BalanceInput>)
    ensures
        sum_counts(spec_tally(infos)) + count_unassigned(infos) == infos.len(),
    decreases infos.len(),
{
    if infos.len() > 0 {
        lemma_tally_covers(infos.drop_last());
    }
}

/// Unassigned agents counted front to back equal those counted back to
/// front.
pub proof fn lemma_count_unassigned_front(infos: Seq<BalanceInput>)
    requires
        infos.len() > 0,
    ensures
        count_unassigned(infos) == (if infos[0].role is None {
            1int
        } else {
            0int
        }) + count_unassigned(infos.skip(1)),
    decreases infos.len(),
{
    if infos.len() == 1 {
        assert(infos.skip(1) =~= Seq::<BalanceInput>::empty());
        assert(infos.drop_last() =~= Seq::<BalanceInput>::empty());
    } else {
        lemma_count_unassigned_front(infos.drop_last());
        assert(infos.drop_last()[0] == infos[0]);
        assert(infos.skip(1).drop_last() =~= infos.drop_last().skip(1));
        assert(infos.skip(1).last() == infos.last());
    }
}

/// One assignment step adds exactly one role for an unassigned agent and
/// none for an agent that already carries one.
pub proof fn lemma_assign_one_sum(st: BalanceState, total: int, cfg: BalancerConfig, info: BalanceInput)
    ensures
        sum_counts(assign_one(st, total, cfg, info).1) == sum_counts(st) + (
        if info.role is None {
            1int
        } else {
            0int
        }),
{
}

/// The pass gives every agent exactly one role: the output lists one role
/// per agent, an agent that already carried a role keeps it, and the final
/// counts grow by exactly the number of agents that had none.
pub proof fn lemma_balancer_one_role_each(
    st: BalanceState,
    total: int,
    cfg: BalancerConfig,
    infos: Seq<BalanceInput>,
)
    ensures
        assign_from(st, total, cfg, infos).len() == infos.len(),
        forall|i: int|
            0 <= i < infos.len() && (#[trigger] infos[i]).role is Some ==> assign_from(
                st,
                total,
                cfg,
                infos,
            )[i] == infos[i].role.unwrap(),
        sum_counts(assign_final(st, total, cfg, infos)) == sum_counts(st) + count_unassigned(
            infos,
        ),
    decreases infos.len(),
{
    if infos.len() > 0 {
        let step = assign_one(st, total, cfg, infos[0]);
        lemma_balancer_one_role_each(step.1, total, cfg, infos.skip(1));
        lemma_assign_one_sum(st, total, cfg, infos[0]);
        lemma_count_unassigned_front(infos);
        assert forall|i: int|
            0 <= i < infos.len() && (#[trigger] infos[i]).role is Some implies assign_from(
            st,
            total,
            cfg,
            infos,
        )[i] == infos[i].role.unwrap() by {
            if i == 0 {
            } else {
                assert(infos.skip(1)[i - 1] == infos[i]);
                assert(assign_from(st, total, cfg, infos)[i] == assign_from(
                    step.1,
                    total,
                    cfg,
                    infos.skip(1),
                )[i - 1]);
            }
        }
    }
}

/// After balancing a population whose roles the balancer itself manages,
/// the role counts add up to the whole population: no agent is counted
/// twice and none is dropped.
pub proof fn lemma_balancer_counts_population(
    total: int,
    cfg: BalancerConfig,
    infos: Seq<BalanceInput>,
)
    ensures
        sum_counts(assign_final(spec_tally(infos), total, cfg, infos)) == infos.len(),
{
    lemma_tally_covers(infos);
    lemma_balancer_one_role_each(spec_tally(infos), total, cfg, infos);
}

/// The tally's counts stay within the population's size.
pub proof fn lemma_tally_bounds(infos: Seq<BalanceInput>)
    ensures
        ({
            let t = spec_tally(infos);
            &&& 0 <= t.harvester <= infos.len()
            &&& 0 <= t.harvester_spawn <= infos.len()
            &&& 0 <= t.harvester_mineral <= infos.len()
            &&& 0 <= t.builder <= infos.len()
            &&& 0 <= t.upgrader <= infos.len()
            &&& 0 <= t.repairer <= infos.len()
            &&& 0 <= t.attacker <= infos.len()
            &&& 0 <= t.short_attackers <= infos.len()
            &&& 0 <= t.ranged_attackers <= infos.len()
            &&& 0 <= t.cap_worker_carry <= infos.len() * (u32::MAX as int)
        }),
    decreases infos.len(),
{
    if infos.len() > 0 {
        lemma_tally_bounds(infos.drop_last());
        assert((infos.len() - 1) * (u32::MAX as int) + u32::MAX as int == infos.len() * (
        u32::MAX as int)) by (nonlinear_arith);
    }
}

/// The per-tick role counts, as the host reads them back.
#[derive(Clone, Copy, PartialEq, Eq, Structural, Debug)]
pub struct RoleCounts {
    pub harvester: u64,
    pub harvester_spawn: u64,
    pub harvester_mineral: u64,
    pub builder: u64,
    pub upgrader: u64,
    pub repairer: u64,
    pub attacker: u64,
    pub short_attackers: u64,
    pub ranged_attackers: u64,
    pub cap_worker_carry: u128,
}

/// The executable counts carry exactly the specification state.
pub open spec fn counts_match(c: RoleCounts, st: BalanceState) -> bool {
    &&& c.harvester as int == st.harvester
    &&& c.harvester_spawn as int == st.harvester_spawn
    &&& c.harvester_mineral as int == st.harvester_mineral
    &&& c.builder as int == st.builder
    &&& c.upgrader as int == st.upgrader
    &&& c.repairer as int == st.repairer
    &&& c.attacker as int == st.attacker
    &&& c.short_attackers as int == st.short_attackers
    &&& c.ranged_attackers as int == st.ranged_attackers
    &&& c.cap_worker_carry as int == st.cap_worker_carry
}

/// Run the whole balancing pass: tally the population, then give every
/// unassigned agent its role by the running quotas.  The result lists one
/// role per agent, in order, and the counts after the pass.
pub fn balance_roles(infos: &Vec<BalanceInput>, cfg: &BalancerConfig) -> (r: (Vec<Role>, RoleCounts))
    requires
        cfg.wf(),
        infos@.len() <= u32::MAX,
    ensures
        r.0@ == assign_from(spec_tally(infos@), infos@.len() as int, *cfg, infos@),
        counts_match(r.1, assign_final(spec_tally(infos@), infos@.len() as int, *cfg, infos@)),
{
    let total: u32 = infos.len() as u32;
    // first pass: tally stored roles and combat capability
    let mut c = RoleCounts {
        harvester: 0,
        harvester_spawn: 0,
        harvester_mineral: 0,
        builder: 0,
        upgrader: 0,
        repairer: 0,
        attacker: 0,
        short_attackers: 0,
        ranged_attackers: 0,
        cap_worker_carry: 0,
    };
    let mut i: usize = 0;
    assert(infos@.take(0) =~= Seq::<BalanceInput>::empty());
    while i < infos.len()
        invariant
            i <= infos@.len(),
            infos@.len() <= u32::MAX,
            counts_match(c, spec_tally(infos@.take(i as int))),
        decreases infos@.len() - i,
    {
        proof {
            assert(infos@.take(i as int + 1).drop_last() =~= infos@.take(i as int));
            assert(infos@.take(i as int + 1).last() == infos@[i as int]);
            lemma_tally_bounds(infos@.take(i as int));
            assert(infos@.take(i as int).len() == i as int);
        }
        let info = infos[i];
        match info.attacker {
            AttackerKind::Short => {
                c.short_attackers = c.short_attackers + 1;
            }
            AttackerKind::Ranged => {
                c.ranged_attackers = c.ranged_attackers + 1;
            }
            AttackerKind::Unarmed => {}
        }
        match info.role {
            Some(Role::Harvester) => {
                c.harvester = c.harvester + 1;
                c.cap_worker_carry = c.cap_worker_carry + info.capacity as u128;
            }
            Some(Role::HarvesterSpawn) => {
                c.harvester_spawn = c.harvester_spawn + 1;
                c.cap_worker_carry = c.cap_worker_carry + info.capacity as u128;
            }
            Some(Role::HarvesterMineral) => {
                c.harvester_mineral = c.harvester_mineral + 1;
            }
            Some(Role::Builder) => {
                c.builder = c.builder + 1;
            }
            Some(Role::Upgrader) => {
                c.upgrader = c.upgrader + 1;
            }
            Some(Role::Repairer) => {
                c.repairer = c.repairer + 1;
            }
            Some(Role::Attacker) => {
                c.attacker = c.attacker + 1;
            }
            None => {}
        }
        i = i + 1;
    }
    assert(infos@.take(i as int) =~= infos@);
    let ghost st0 = spec_tally(infos@);
    proof {
        lemma_tally_bounds(infos@);
    }

    // second pass: assign every agent that carries no role yet
    let mut roles: Vec<Role> = Vec::new();
    let mut i: usize = 0;
    assert(infos@.skip(0) =~= infos@);
    while i < infos.len()
        invariant
            i <= infos@.len(),
            infos@.len() <= u32::MAX,
            total == infos@.len(),
            cfg.wf(),
            assign_from(st0, total as int, *cfg, infos@) == roles@ + assign_from(
                spec_of_counts(c),
                total as int,
                *cfg,
                infos@.skip(i as int),
            ),
            assign_final(st0, total as int, *cfg, infos@) == assign_final(
                spec_of_counts(c),
                total as int,
                *cfg,
                infos@.skip(i as int),
            ),
            roles@.len() == i,
            c.harvester <= st0.harvester + i,
            c.harvester_spawn <= st0.harvester_spawn + i,
            c.harvester_mineral <= st0.harvester_mineral + i,
            c.builder <= st0.builder + i,
            c.upgrader <= st0.upgrader + i,
            c.repairer <= st0.repairer + i,
            c.cap_worker_carry <= st0.cap_worker_carry + i * (u32::MAX as int),
            st0 == spec_tally(infos@),
        decreases infos@.len() - i,
    {
        proof {
            lemma_tally_bounds(infos@);
            assert(infos@.skip(i as int)[0] == infos@[i as int]);
            assert(infos@.skip(i as int).skip(1) =~= infos@.skip(i as int + 1));
        }
        let info = infos[i];
        let ghost cur = spec_of_counts(c);
        let role: Role;
        match info.role {
            Some(r) => {
                role = r;
            }
            None => {
                let quota: u64 = (total / cfg.quota_divisor) as u64;
                if c.harvester_spawn == 0 {
                    role = Role::HarvesterSpawn;
                    c.harvester_spawn = c.harvester_spawn + 1;
                    c.cap_worker_carry = c.cap_worker_carry + info.capacity as u128;
                } else if c.upgrader < quota + 1 {
                    role = Role::Upgrader;
                    c.upgrader = c.upgrader + 1;
                } else if c.builder < quota {
                    role = Role::Builder;
                    c.builder = c.builder + 1;
                } else if c.repairer < quota {
                    role = Role::Repairer;
                    c.repairer = c.repairer + 1;
                } else if c.harvester_mineral == 0 && total > cfg.mineral_population_threshold {
                    role = Role::HarvesterMineral;
                    c.harvester_mineral = c.harvester_mineral + 1;
                } else {
                    role = Role::Harvester;
                    c.harvester = c.harvester + 1;
                    c.cap_worker_carry = c.cap_worker_carry + info.capacity as u128;
                }
            }
        }
        proof {
            assert(total as int / cfg.quota_divisor as int == (total / cfg.quota_divisor) as int);
            assert((role, spec_of_counts(c)) == assign_one(cur, total as int, *cfg, infos@[i as int]));
        }
        roles.push(role);
        proof {
            assert(assign_from(cur, total as int, *cfg, infos@.skip(i as int)) == seq![role]
                + assign_from(spec_of_counts(c), total as int, *cfg, infos@.skip(i as int + 1)));
            assert(roles@ + assign_from(spec_of_counts(c), total as int, *cfg, infos@.skip(i as int + 1))
                =~= (roles@.drop_last() + (seq![role] + assign_from(
                spec_of_counts(c),
                total as int,
                *cfg,
                infos@.skip(i as int + 1),
            ))));
        }
        i = i + 1;
    }
    assert(infos@.skip(i as int).len() == 0);
    assert(roles@ + assign_from(spec_of_counts(c), total as int, *cfg, infos@.skip(i as int))
        =~= roles@);
    (roles, c)
}

/// The specification state an executable count record denotes.
pub open spec fn spec_of_counts(c: RoleCounts) -> BalanceState {
    BalanceState {
        harvester: c.harvester as int,
        harvester_spawn: c.harvester_spawn as int,
        harvester_mineral: c.harvester_mineral as int,
        builder: c.builder as int,
        upgrader: c.upgrader as int,
        repairer: c.repairer as int,
        attacker: c.attacker as int,
        short_attackers: c.short_attackers as int,
        ranged_attackers: c.ranged_attackers as int,
        cap_worker_carry: c.cap_worker_carry as int,
    }
}

} // verus!
