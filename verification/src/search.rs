//! Cheapest-path-to-any-of-N search over a zone's cost matrix.
//!
//! The resolver hands over a set of candidate goals, each with a range; the
//! search walks the matrix and returns one reachable goal with a step path
//! toward it, or an incomplete result holding no steps.  A separate flee
//! variant finds the nearest tile outside every goal's range.
//!
//! The contracts pin down validity and price: every returned path starts
//! beside the agent, moves one adjacent tile at a time across passable
//! tiles only, ends within the promised range of a returned candidate, and
//! costs no more than any valid path into any candidate's range — the
//! cheapest-to-reach member wins.  An agent that already stands in range
//! gets the zero-length path, and an incomplete result certifies that no
//! plausibly priced path reached any candidate at all.  The certificate
//! behind both directions is a relaxation sweep run to quiescence after
//! the cheapest-first expansion.

use vstd::prelude::*;
use vstd::pervasive::VecAdditionalExecFns;

use crate::cost::{
    lemma_pos_index_roundtrip, pos_of_index, CostMatrix, COST_BLOCKED, COST_PLAIN, COST_SWAMP,
};
use crate::model::{adjacent, cheb_dist, cheb_dist_exec, Pos, Terrain, Zone, ZONE_TILES};

verus! {

/// Distance marker of a tile the search has not reached.
pub const UNREACHED: u32 = 0xffff_ffff;

/// Cost of stepping onto a tile: the matrix cell where one is written, the
/// terrain's own cost where the cell is 0, and nothing where the tile is
/// impassable.
pub open spec fn spec_step_cost(z: Zone, m: CostMatrix, p: Pos) -> Option<u8> {
    let c = m.at(p);
    if c == COST_BLOCKED {
        None
    } else if c != 0 {
        Some(c)
    } else {
        match z.terrain_at(p) {
            Terrain::Plain => Some(COST_PLAIN),
            Terrain::Swamp => Some(COST_SWAMP),
            Terrain::Wall => None,
        }
    }
}

/// A tile an agent may step onto.
pub open spec fn passable(z: Zone, m: CostMatrix, p: Pos) -> bool {
    spec_step_cost(z, m, p) is Some
}

/// Executable step cost.
pub fn step_cost(z: &Zone, m: &CostMatrix, p: Pos) -> (r: Option<u8>)
    requires
        z.wf(),
        m.wf(),
        p.wf(),
    ensures
        r == spec_step_cost(*z, *m, p),
        r matches Some(c) ==> c >= 1,
{
    let c = m.cells[p.y as usize * 50 + p.x as usize];
    assert(c == m.at(p));
    if c == COST_BLOCKED {
        None
    } else if c != 0 {
        Some(c)
    } else {
        match z.terrain[p.y as usize * 50 + p.x as usize] {
            Terrain::Plain => Some(COST_PLAIN),
            Terrain::Swamp => Some(COST_SWAMP),
            Terrain::Wall => None,
        }
    }
}

/// A valid step path: it leaves from beside `start`, every step is onto a
/// passable tile, and consecutive steps are adjacent.
pub open spec fn valid_steps(z: Zone, m: CostMatrix, start: Pos, steps: Seq<Pos>) -> bool {
    &&& forall|i: int|
        0 <= i < steps.len() ==> (#[trigger] steps[i]).wf() && passable(z, m, steps[i])
    &&& forall|i: int| 0 <= i < steps.len() - 1 ==> adjacent(#[trigger] steps[i], steps[i + 1])
    &&& steps.len() > 0 ==> adjacent(start, steps[0])
}

/// Where a path leaves an agent standing.
pub open spec fn end_of(start: Pos, steps: Seq<Pos>) -> Pos {
    if steps.len() == 0 {
        start
    } else {
        steps.last()
    }
}

/// The tile lies within range of some goal.
pub open spec fn in_goal_range(goals: Seq<(Pos, u32)>, p: Pos) -> bool {
    exists|k: int|
        0 <= k < goals.len() && cheb_dist((#[trigger] goals[k]).0, p) <= goals[k].1
}

/// The tile lies outside the range of every goal.
pub open spec fn outside_goal_ranges(goals: Seq<(Pos, u32)>, p: Pos) -> bool {
    forall|k: int|
        0 <= k < goals.len() ==> cheb_dist((#[trigger] goals[k]).0, p) >= goals[k].1
}

/// Total movement cost of a step path.
pub open spec fn path_cost(z: Zone, m: CostMatrix, steps: Seq<Pos>) -> int
    decreases steps.len(),
{
    if steps.len() == 0 {
        0
    } else {
        path_cost(z, m, steps.drop_last()) + (match spec_step_cost(z, m, steps.last()) {
            Some(c) => c as int,
            None => 0int,
        })
    }
}

/// A path never costs less than nothing.
pub proof fn lemma_path_cost_nonneg(z: Zone, m: CostMatrix, steps: Seq<Pos>)
    ensures
        path_cost(z, m, steps) >= 0,
    decreases steps.len(),
{
    if steps.len() > 0 {
        lemma_path_cost_nonneg(z, m, steps.drop_last());
    }
}

/// A distance table with no relaxable edge left: stepping from any reached
/// tile onto a passable neighbor never improves on the table.
pub open spec fn tables_consistent(z: Zone, m: CostMatrix, dist: Seq<u32>) -> bool {
    forall|a: Pos, b: Pos|
        #![trigger dist[a.idx()], dist[b.idx()]]
        a.wf() && b.wf() && adjacent(a, b) && passable(z, m, b) && dist[a.idx()] < UNREACHED
            ==> dist[b.idx()] as int <= dist[a.idx()] + (match spec_step_cost(z, m, b) {
            Some(c) => c as int,
            None => 0int,
        })
}

/// Against a consistent table rooted at the start, no valid path can beat
/// the table's distance to its own endpoint.
pub proof fn lemma_dist_lower_bound(
    z: Zone,
    m: CostMatrix,
    start: Pos,
    dist: Seq<u32>,
    steps: Seq<Pos>,
)
    requires
        start.wf(),
        dist.len() == ZONE_TILES,
        dist[start.idx()] == 0,
        tables_consistent(z, m, dist),
        valid_steps(z, m, start, steps),
        path_cost(z, m, steps) < UNREACHED,
    ensures
        dist[end_of(start, steps).idx()] <= path_cost(z, m, steps),
    decreases steps.len(),
{
    if steps.len() > 0 {
        let prefix = steps.drop_last();
        let last = steps.last();
        assert(valid_steps(z, m, start, prefix)) by {
            assert(forall|i: int| 0 <= i < prefix.len() ==> prefix[i] == steps[i]);
        }
        lemma_path_cost_nonneg(z, m, prefix);
        assert(match spec_step_cost(z, m, last) {
            Some(c) => c as int >= 0,
            None => true,
        });
        lemma_dist_lower_bound(z, m, start, dist, prefix);
        let a = end_of(start, prefix);
        assert(a.wf());
        assert(adjacent(a, last)) by {
            if prefix.len() == 0 {
                assert(adjacent(start, steps[0]));
            } else {
                assert(adjacent(steps[steps.len() - 2], steps[steps.len() - 1]));
            }
        }
        assert(passable(z, m, last));
        assert(dist[a.idx()] < UNREACHED);
        assert(dist[last.idx()] as int <= dist[a.idx()] + (match spec_step_cost(z, m, last) {
            Some(c) => c as int,
            None => 0int,
        }));
    }
}

/// A search owes a usable travel path whenever any valid path of sane
/// cost leads into some candidate's range from a start that is itself out
/// of range.  This predicate says that no such obligation existed for the
/// set — the agent already stood in range, or no plausibly priced path
/// reached any candidate at all — so a resolver tier or behavior step that
/// was passed over may claim it of the set it left behind.
pub open spec fn nothing_owed(z: Zone, m: CostMatrix, start: Pos, goals: Seq<(Pos, u32)>) -> bool {
    ||| in_goal_range(goals, start)
    ||| (forall|steps2: Seq<Pos>, k2: int|
        #![trigger path_cost(z, m, steps2), goals[k2]]
        valid_steps(z, m, start, steps2) && 0 <= k2 < goals.len() && cheb_dist(
            goals[k2].0,
            end_of(start, steps2),
        ) <= goals[k2].1 ==> path_cost(z, m, steps2) >= UNREACHED)
}

/// A search whose result was not a usable travel path (complete with at
/// least one step) owed nothing from its candidate set.
pub proof fn lemma_fallthrough_owed_nothing(
    z: Zone,
    m: CostMatrix,
    start: Pos,
    goals: Seq<(Pos, u32)>,
    r: PathResult,
)
    requires
        result_over(z, m, start, goals, r),
        !(r.complete && r.steps@.len() > 0),
    ensures
        nothing_owed(z, m, start, goals),
{
    if r.complete {
        assert(r.steps@.len() == 0);
        assert(end_of(start, r.steps@) == start);
        assert(r.target matches Some(k) && 0 <= k < goals.len() && cheb_dist(
            goals[r.target.unwrap() as int].0,
            start,
        ) <= goals[r.target.unwrap() as int].1);
        assert(in_goal_range(goals, start));
    }
}

/// No tile before `t` in scan order is both reached and inside a goal's
/// range.
#[verifier::opaque]
pub open spec fn no_reached_goal_before(goals: Seq<(Pos, u32)>, dist: Seq<u32>, t: int) -> bool {
    forall|j: int|
        0 <= j < t ==> !((#[trigger] dist[j]) < UNREACHED && in_goal_range(
            goals,
            pos_of_index(j),
        ))
}

/// No tile before `t` in scan order that lies inside a goal's range beats
/// the bound.
#[verifier::opaque]
pub open spec fn goal_dist_at_least(
    goals: Seq<(Pos, u32)>,
    dist: Seq<u32>,
    t: int,
    bound: u32,
) -> bool {
    forall|j: int|
        0 <= j < t && in_goal_range(goals, pos_of_index(j)) ==> (#[trigger] dist[j]) >= bound
}

/// Outcome of a search: a step path toward the chosen goal, or an
/// incomplete marker with no steps.
#[derive(Clone, Debug)]
pub struct PathResult {
    pub steps: Vec<Pos>,
    pub complete: bool,
    pub cost: u32,
    pub target: Option<usize>,
}

/// What a goal-directed search promises of its result: a complete result
/// is a valid step path ending within the chosen candidate's range and no
/// valid path into any candidate's range costs less; an incomplete result
/// is empty and rules out every plausibly priced path into any candidate's
/// range, so a reachable candidate forces success; no candidates means no
/// success, and an agent already in range holds position.
pub open spec fn result_over(
    z: Zone,
    m: CostMatrix,
    start: Pos,
    goals: Seq<(Pos, u32)>,
    r: PathResult,
) -> bool {
    &&& r.complete ==> valid_steps(z, m, start, r.steps@)
    &&& r.complete ==> (r.target matches Some(k) && 0 <= k < goals.len() && cheb_dist(
        goals[k as int].0,
        end_of(start, r.steps@),
    ) <= goals[k as int].1)
    &&& !r.complete ==> r.steps@.len() == 0 && r.target is None
    &&& goals.len() == 0 ==> !r.complete
    &&& in_goal_range(goals, start) ==> r.complete && r.steps@.len() == 0 && r.cost == 0
    &&& goal_beside_start(z, m, start, goals) ==> r.complete
    &&& (r.complete ==> forall|steps2: Seq<Pos>, k2: int|
        #![trigger path_cost(z, m, steps2), goals[k2]]
        valid_steps(z, m, start, steps2) && 0 <= k2 < goals.len() && cheb_dist(
            goals[k2].0,
            end_of(start, steps2),
        ) <= goals[k2].1 ==> r.cost as int <= path_cost(z, m, steps2))
    &&& (!r.complete ==> forall|steps2: Seq<Pos>, k2: int|
        #![trigger path_cost(z, m, steps2), goals[k2]]
        valid_steps(z, m, start, steps2) && 0 <= k2 < goals.len() && cheb_dist(
            goals[k2].0,
            end_of(start, steps2),
        ) <= goals[k2].1 ==> path_cost(z, m, steps2) >= UNREACHED)
}

/// What a flee search promises: a complete result is a valid step path
/// ending outside every goal's range, and an agent already clear of every
/// range holds position.
pub open spec fn flee_result_over(
    z: Zone,
    m: CostMatrix,
    start: Pos,
    goals: Seq<(Pos, u32)>,
    r: PathResult,
) -> bool {
    &&& r.complete ==> valid_steps(z, m, start, r.steps@)
    &&& r.complete ==> outside_goal_ranges(goals, end_of(start, r.steps@))
    &&& !r.complete ==> r.steps@.len() == 0
    &&& outside_goal_ranges(goals, start) ==> r.complete && r.steps@.len() == 0
    &&& r.target is None
}

/// Every passable tile one step from the start has been reached by the
/// expansion.
pub open spec fn neighbors_reached(z: Zone, m: CostMatrix, start: Pos, dist: Seq<u32>) -> bool {
    forall|np: Pos|
        #![trigger dist[np.idx()]]
        np.wf() && adjacent(start, np) && passable(z, m, np) ==> dist[np.idx()] < UNREACHED
}

/// Some goal's range covers a passable tile one step from the start.
pub open spec fn goal_beside_start(
    z: Zone,
    m: CostMatrix,
    start: Pos,
    goals: Seq<(Pos, u32)>,
) -> bool {
    exists|np: Pos|
        np.wf() && adjacent(start, np) && passable(z, m, np) && in_goal_range(goals, np)
}

/// The neighbor of the start at one offset of the three-by-three block, if
/// it lies on the grid and is passable, has been reached.
pub open spec fn offset_done(
    z: Zone,
    m: CostMatrix,
    start: Pos,
    dist: Seq<u32>,
    ddx: int,
    ddy: int,
) -> bool {
    let nx = start.x + ddx - 1;
    let ny = start.y + ddy - 1;
    (0 <= nx < 50 && 0 <= ny < 50 && !(ddx == 1 && ddy == 1) && passable(
        z,
        m,
        Pos { x: nx as u8, y: ny as u8 },
    )) ==> dist[ny * 50 + nx] < UNREACHED
}

/// All offsets of the first `dx` columns of the block are done.
pub open spec fn offset_cols_done(
    z: Zone,
    m: CostMatrix,
    start: Pos,
    dist: Seq<u32>,
    dx: int,
) -> bool {
    forall|ddx: int, ddy: int|
        0 <= ddx < dx && 0 <= ddy < 3 ==> #[trigger] offset_done(z, m, start, dist, ddx, ddy)
}

/// A finished block of offsets covers every adjacent tile.
pub proof fn lemma_offsets_cover(z: Zone, m: CostMatrix, start: Pos, dist: Seq<u32>)
    requires
        start.wf(),
        dist.len() == ZONE_TILES,
        offset_cols_done(z, m, start, dist, 3),
    ensures
        neighbors_reached(z, m, start, dist),
{
    assert forall|np: Pos|
        np.wf() && adjacent(start, np) && passable(z, m, np) implies dist[np.idx()]
        < UNREACHED by {
        let ddx = np.x - start.x + 1;
        let ddy = np.y - start.y + 1;
        assert(0 <= ddx < 3 && 0 <= ddy < 3);
        assert(!(ddx == 1 && ddy == 1));
        assert(offset_done(z, m, start, dist, ddx, ddy));
        assert(Pos { x: (start.x + ddx - 1) as u8, y: (start.y + ddy - 1) as u8 } == np);
        assert(np.idx() == (start.y + ddy - 1) * 50 + (start.x + ddx - 1));
    }
}

/// Lowering distances never un-reaches an offset.
pub proof fn lemma_offset_done_monotone(
    z: Zone,
    m: CostMatrix,
    start: Pos,
    d1: Seq<u32>,
    d2: Seq<u32>,
    ddx: int,
    ddy: int,
)
    requires
        d1.len() == ZONE_TILES,
        d2.len() == ZONE_TILES,
        offset_done(z, m, start, d1, ddx, ddy),
        forall|j: int| 0 <= j < ZONE_TILES && d1[j] < UNREACHED ==> (#[trigger] d2[j]) < UNREACHED,
    ensures
        offset_done(z, m, start, d2, ddx, ddy),
{
    let nx = start.x + ddx - 1;
    let ny = start.y + ddy - 1;
    if 0 <= nx < 50 && 0 <= ny < 50 && !(ddx == 1 && ddy == 1) && passable(
        z,
        m,
        Pos { x: nx as u8, y: ny as u8 },
    ) {
        assert(0 <= ny * 50 + nx < ZONE_TILES);
        assert(d1[ny * 50 + nx] < UNREACHED);
    }
}

/// Sum of a distance table, the measure the certification sweeps burn.
pub open spec fn dist_sum(dist: Seq<u32>) -> int
    decreases dist.len(),
{
    if dist.len() == 0 {
        0
    } else {
        dist_sum(dist.drop_last()) + dist.last()
    }
}

/// A table's sum is never negative.
pub proof fn lemma_dist_sum_nonneg(dist: Seq<u32>)
    ensures
        dist_sum(dist) >= 0,
    decreases dist.len(),
{
    if dist.len() > 0 {
        lemma_dist_sum_nonneg(dist.drop_last());
    }
}

/// Writing one cell moves the sum by exactly the cell's change.
pub proof fn lemma_dist_sum_update(dist: Seq<u32>, i: int, v: u32)
    requires
        0 <= i < dist.len(),
    ensures
        dist_sum(dist.update(i, v)) == dist_sum(dist) - dist[i] + v,
    decreases dist.len(),
{
    if i == dist.len() - 1 {
        assert(dist.update(i, v).drop_last() =~= dist.drop_last());
        assert(dist.update(i, v).last() == v);
    } else {
        assert(dist.update(i, v).drop_last() =~= dist.drop_last().update(i, v));
        assert(dist.update(i, v).last() == dist.last());
        lemma_dist_sum_update(dist.drop_last(), i, v);
    }
}

/// The neighbor of `ap` at one offset of the three-by-three block, if on
/// the grid and passable, cannot be improved by stepping from `ap`.
pub open spec fn offset_consistent(
    z: Zone,
    m: CostMatrix,
    dist: Seq<u32>,
    ap: Pos,
    ddx: int,
    ddy: int,
) -> bool {
    let nx = ap.x + ddx - 1;
    let ny = ap.y + ddy - 1;
    (0 <= nx < 50 && 0 <= ny < 50 && !(ddx == 1 && ddy == 1) && passable(
        z,
        m,
        Pos { x: nx as u8, y: ny as u8 },
    )) ==> dist[ny * 50 + nx] as int <= dist[ap.idx()] + (match spec_step_cost(
        z,
        m,
        Pos { x: nx as u8, y: ny as u8 },
    ) {
        Some(c) => c as int,
        None => 0int,
    })
}

/// Tiles before `lim` in scan order have no relaxable edge out of them.
#[verifier::opaque]
pub open spec fn consistent_before(z: Zone, m: CostMatrix, dist: Seq<u32>, lim: int) -> bool {
    forall|ap: Pos, ddx: int, ddy: int|
        #![trigger offset_consistent(z, m, dist, ap, ddx, ddy)]
        ap.wf() && ap.idx() < lim && 0 <= ddx < 3 && 0 <= ddy < 3 && dist[ap.idx()] < UNREACHED
            ==> offset_consistent(z, m, dist, ap, ddx, ddy)
}

/// A table whose whole scan found no relaxable edge is consistent.
pub proof fn lemma_consistent_before_covers(z: Zone, m: CostMatrix, dist: Seq<u32>)
    requires
        dist.len() == ZONE_TILES,
        consistent_before(z, m, dist, ZONE_TILES as int),
    ensures
        tables_consistent(z, m, dist),
{
    reveal(consistent_before);
    assert forall|a: Pos, b: Pos|
        a.wf() && b.wf() && adjacent(a, b) && passable(z, m, b) && dist[a.idx()]
            < UNREACHED implies dist[b.idx()] as int <= dist[a.idx()] + (match spec_step_cost(
        z,
        m,
        b,
    ) {
        Some(c) => c as int,
        None => 0int,
    }) by {
        let ddx = b.x - a.x + 1;
        let ddy = b.y - a.y + 1;
        assert(0 <= ddx < 3 && 0 <= ddy < 3);
        assert(a.idx() < ZONE_TILES as int);
        assert(offset_consistent(z, m, dist, a, ddx, ddy));
        assert(Pos { x: (a.x + ddx - 1) as u8, y: (a.y + ddy - 1) as u8 } == b);
        assert(b.idx() == (a.y + ddy - 1) * 50 + (a.x + ddx - 1));
    }
}

/// The shortest-distance and predecessor tables are consistent: reached
/// tiles other than the start have a strictly closer, adjacent predecessor
/// and are passable, so predecessor chains walk back to the start.
pub open spec fn tables_ok(
    z: Zone,
    m: CostMatrix,
    start: Pos,
    dist: Seq<u32>,
    pred: Seq<usize>,
) -> bool {
    &&& dist.len() == ZONE_TILES
    &&& pred.len() == ZONE_TILES
    &&& dist[start.idx()] == 0
    &&& forall|t: int|
        0 <= t < ZONE_TILES && (#[trigger] dist[t]) < UNREACHED && t != start.idx() ==> {
            &&& 0 <= pred[t] < ZONE_TILES
            &&& dist[pred[t] as int] < dist[t]
            &&& pos_of_index(t).wf()
            &&& passable(z, m, pos_of_index(t))
            &&& adjacent(pos_of_index(pred[t] as int), pos_of_index(t))
        }
}

/// Run the cheapest-first expansion from `start`, producing consistent
/// distance and predecessor tables.  The first expanded tile is the start
/// itself, so every passable tile beside the start comes out reached.
#[verifier::rlimit(100)]
#[verifier::spinoff_prover]
fn expand_tables(z: &Zone, m: &CostMatrix, start: Pos) -> (r: (Vec<u32>, Vec<usize>))
    requires
        z.wf(),
        m.wf(),
        start.wf(),
    ensures
        tables_ok(*z, *m, start, r.0@, r.1@),
        neighbors_reached(*z, *m, start, r.0@),
        tables_consistent(*z, *m, r.0@),
{
    let mut dist: Vec<u32> = Vec::new();
    let mut pred: Vec<usize> = Vec::new();
    let mut visited: Vec<bool> = Vec::new();
    let mut i: usize = 0;
    while i < 2500
        invariant
            i <= 2500,
            dist@.len() == i,
            pred@.len() == i,
            visited@.len() == i,
            forall|j: int| 0 <= j < i ==> (#[trigger] dist@[j]) == UNREACHED,
            forall|j: int| 0 <= j < i ==> (#[trigger] visited@[j]) == false,
        decreases 2500 - i,
    {
        dist.push(UNREACHED);
        pred.push(0);
        visited.push(false);
        i = i + 1;
    }
    let s_idx: usize = start.y as usize * 50 + start.x as usize;
    assert(s_idx == start.idx());
    dist.set(s_idx, 0);
    assert(tables_ok(*z, *m, start, dist@, pred@));

    let mut round: usize = 0;
    while round < 2500
        invariant
            z.wf(),
            m.wf(),
            start.wf(),
            s_idx == start.idx(),
            s_idx < 2500,
            dist@.len() == ZONE_TILES,
            pred@.len() == ZONE_TILES,
            visited@.len() == ZONE_TILES,
            tables_ok(*z, *m, start, dist@, pred@),
            round >= 1 ==> neighbors_reached(*z, *m, start, dist@),
            round == 0 ==> (forall|j: int|
                0 <= j < ZONE_TILES && j != s_idx ==> (#[trigger] dist@[j]) == UNREACHED),
            round == 0 ==> visited@[s_idx as int] == false,
        decreases 2500 - round,
    {
        // pick the unvisited tile with the least distance
        let ghost only_start = round == 0;
        let mut u: usize = 2500;
        let mut best: u32 = UNREACHED;
        let mut t: usize = 0;
        while t < 2500
            invariant
                t <= 2500,
                s_idx < 2500,
                dist@.len() == ZONE_TILES,
                visited@.len() == ZONE_TILES,
                u == 2500 ==> best == UNREACHED,
                u == 2500 || (u < 2500 && best == dist@[u as int] && best < UNREACHED),
                only_start ==> dist@[s_idx as int] == 0,
                only_start ==> (forall|j: int|
                    0 <= j < ZONE_TILES && j != s_idx ==> (#[trigger] dist@[j]) == UNREACHED),
                only_start ==> visited@[s_idx as int] == false,
                only_start ==> ((t <= s_idx && u == 2500) || (t > s_idx && u == s_idx)),
            decreases 2500 - t,
        {
            if !visited[t] && dist[t] < best {
                best = dist[t];
                u = t;
            }
            t = t + 1;
        }
        if u == 2500 {
            // nothing reachable is left; the start itself was expanded in
            // the first sweep, so this cannot happen before it
            assert(round >= 1);
            certify_tables(z, m, start, &mut dist, &mut pred);
            return (dist, pred);
        }
        visited.set(u, true);
        let du = dist[u];
        assert(du < UNREACHED);
        assert(round == 0 ==> (u == s_idx && du == 0));

        let ux: usize = u % 50;
        let uy: usize = u / 50;
        let upos = Pos { x: ux as u8, y: uy as u8 };
        assert(upos == pos_of_index(u as int));
        assert(upos.wf());

        proof {
            if u == s_idx {
                lemma_pos_index_roundtrip(start);
                assert(upos == start);
                assert(ux == start.x && uy == start.y);
            }
        }
        let mut dx: usize = 0;
        while dx < 3
            invariant
                dx <= 3,
                z.wf(),
                m.wf(),
                start.wf(),
                s_idx == start.idx(),
                dist@.len() == ZONE_TILES,
                pred@.len() == ZONE_TILES,
                visited@.len() == ZONE_TILES,
                tables_ok(*z, *m, start, dist@, pred@),
                du >= dist@[u as int],
                u < 2500,
                ux == u % 50,
                uy == u / 50,
                upos == pos_of_index(u as int),
                round >= 1 ==> neighbors_reached(*z, *m, start, dist@),
                u == s_idx ==> du == 0 && ux == start.x && uy == start.y,
                u == s_idx ==> offset_cols_done(*z, *m, start, dist@, dx as int),
            decreases 3 - dx,
        {
            let mut dy: usize = 0;
            while dy < 3
                invariant
                    dy <= 3,
                    dx < 3,
                    z.wf(),
                    m.wf(),
                    start.wf(),
                    s_idx == start.idx(),
                    dist@.len() == ZONE_TILES,
                    pred@.len() == ZONE_TILES,
                    visited@.len() == ZONE_TILES,
                    tables_ok(*z, *m, start, dist@, pred@),
                    du >= dist@[u as int],
                    u < 2500,
                    ux == u % 50,
                    uy == u / 50,
                    upos == pos_of_index(u as int),
                    round >= 1 ==> neighbors_reached(*z, *m, start, dist@),
                    u == s_idx ==> du == 0 && ux == start.x && uy == start.y,
                    u == s_idx ==> offset_cols_done(*z, *m, start, dist@, dx as int),
                    u == s_idx ==> (forall|ddy: int|
                        0 <= ddy < dy ==> #[trigger] offset_done(
                            *z,
                            *m,
                            start,
                            dist@,
                            dx as int,
                            ddy,
                        )),
                decreases 3 - dy,
            {
                let ghost dist_at_entry = dist@;
                if !(dx == 1 && dy == 1) {
                    let nx_i: i32 = ux as i32 + dx as i32 - 1;
                    let ny_i: i32 = uy as i32 + dy as i32 - 1;
                    if nx_i >= 0 && nx_i < 50 && ny_i >= 0 && ny_i < 50 {
                        let np = Pos { x: nx_i as u8, y: ny_i as u8 };
                        assert(np.wf());
                        assert(adjacent(upos, np));
                        let n_idx: usize = ny_i as usize * 50 + nx_i as usize;
                        assert(n_idx == np.idx());
                        proof {
                            lemma_pos_index_roundtrip(np);
                        }
                        match step_cost(z, m, np) {
                            Some(c) => {
                                if du < 0xff00_0000 {
                                    let nd = du + c as u32;
                                    if nd < dist[n_idx] {
                                        let ghost old_dist = dist@;
                                        dist.set(n_idx, nd);
                                        pred.set(n_idx, u);
                                        proof {
                                            if n_idx as int == start.idx() {
                                                assert(old_dist[start.idx()] == 0);
                                                assert(nd < 0);
                                            }
                                            assert forall|t2: int|
                                                0 <= t2 < ZONE_TILES && (#[trigger] dist@[t2])
                                                    < UNREACHED && t2 != start.idx() implies {
                                                &&& 0 <= pred@[t2] < ZONE_TILES
                                                &&& dist@[pred@[t2] as int] < dist@[t2]
                                                &&& pos_of_index(t2).wf()
                                                &&& passable(*z, *m, pos_of_index(t2))
                                                &&& adjacent(
                                                    pos_of_index(pred@[t2] as int),
                                                    pos_of_index(t2),
                                                )
                                            } by {
                                                if t2 == n_idx {
                                                    assert(dist@[u as int] <= du);
                                                    assert(dist@[n_idx as int] == nd);
                                                } else {
                                                    assert(dist@[t2] == old_dist[t2]);
                                                    assert(old_dist[t2] < UNREACHED);
                                                    if pred@[t2] as int == n_idx {
                                                        assert(dist@[n_idx as int] == nd
                                                            < old_dist[n_idx as int]);
                                                    }
                                                }
                                            }
                                            assert(tables_ok(*z, *m, start, dist@, pred@));
                                        }
                                    }
                                }
                                proof {
                                    if u == s_idx {
                                        assert(dist@[n_idx as int] < UNREACHED);
                                        assert(offset_done(*z, *m, start, dist@, dx as int, dy as int))
                                            by {
                                            assert(start.x + dx as int - 1 == np.x as int);
                                            assert(start.y + dy as int - 1 == np.y as int);
                                        }
                                    }
                                }
                            }
                            None => {
                                proof {
                                    if u == s_idx {
                                        assert(!passable(*z, *m, np));
                                        assert(offset_done(*z, *m, start, dist@, dx as int, dy as int))
                                            by {
                                            assert(start.x + dx as int - 1 == np.x as int);
                                            assert(start.y + dy as int - 1 == np.y as int);
                                        }
                                    }
                                }
                            }
                        }
                    } else {
                        proof {
                            if u == s_idx {
                                assert(offset_done(*z, *m, start, dist@, dx as int, dy as int)) by {
                                    assert(start.x + dx as int - 1 == nx_i as int);
                                    assert(start.y + dy as int - 1 == ny_i as int);
                                }
                            }
                        }
                    }
                } else {
                    proof {
                        assert(offset_done(*z, *m, start, dist@, dx as int, dy as int));
                    }
                }
                proof {
                    // each update only lowers a distance, so everything
                    // already reached stays reached
                    assert(forall|j: int|
                        0 <= j < ZONE_TILES && dist_at_entry[j] < UNREACHED ==> (#[trigger]
                        dist@[j]) < UNREACHED);
                    if u == s_idx {
                        assert forall|ddy2: int| 0 <= ddy2 < dy + 1 implies #[trigger] offset_done(
                            *z,
                            *m,
                            start,
                            dist@,
                            dx as int,
                            ddy2,
                        ) by {
                            if ddy2 < dy {
                                lemma_offset_done_monotone(
                                    *z,
                                    *m,
                                    start,
                                    dist_at_entry,
                                    dist@,
                                    dx as int,
                                    ddy2,
                                );
                            }
                        }
                        assert forall|ddx2: int, ddy2: int|
                            0 <= ddx2 < dx && 0 <= ddy2 < 3 implies #[trigger] offset_done(
                            *z,
                            *m,
                            start,
                            dist@,
                            ddx2,
                            ddy2,
                        ) by {
                            lemma_offset_done_monotone(
                                *z,
                                *m,
                                start,
                                dist_at_entry,
                                dist@,
                                ddx2,
                                ddy2,
                            );
                        }
                        assert(offset_cols_done(*z, *m, start, dist@, dx as int));
                    }
                }
                dy = dy + 1;
            }
            proof {
                if u == s_idx {
                    assert(offset_cols_done(*z, *m, start, dist@, dx as int + 1)) by {
                        assert(forall|ddx: int, ddy: int|
                            0 <= ddx < dx as int + 1 && 0 <= ddy < 3 ==> #[trigger] offset_done(
                                *z,
                                *m,
                                start,
                                dist@,
                                ddx,
                                ddy,
                            ));
                    }
                }
            }
            dx = dx + 1;
        }
        proof {
            if round == 0 {
                lemma_offsets_cover(*z, *m, start, dist@);
            }
        }
        round = round + 1;
    }
    certify_tables(z, m, start, &mut dist, &mut pred);
    (dist, pred)
}

/// Sweep the tables until a whole pass finds no relaxable edge.  Every
/// update only lowers a distance, so the pass that changes nothing
/// certifies the table consistent; that certificate is what makes the
/// returned costs provably minimal.
#[verifier::rlimit(100)]
#[verifier::spinoff_prover]
fn certify_tables(
    z: &Zone,
    m: &CostMatrix,
    start: Pos,
    dist: &mut Vec<u32>,
    pred: &mut Vec<usize>,
)
    requires
        z.wf(),
        m.wf(),
        start.wf(),
        tables_ok(*z, *m, start, old(dist)@, old(pred)@),
        neighbors_reached(*z, *m, start, old(dist)@),
    ensures
        tables_ok(*z, *m, start, final(dist)@, final(pred)@),
        neighbors_reached(*z, *m, start, final(dist)@),
        tables_consistent(*z, *m, final(dist)@),
{
    let mut changed = true;
    proof {
        lemma_dist_sum_nonneg(dist@);
    }
    while changed
        invariant
            z.wf(),
            m.wf(),
            start.wf(),
            dist@.len() == ZONE_TILES,
            pred@.len() == ZONE_TILES,
            tables_ok(*z, *m, start, dist@, pred@),
            neighbors_reached(*z, *m, start, dist@),
            dist_sum(dist@) >= 0,
            !changed ==> tables_consistent(*z, *m, dist@),
        decreases dist_sum(dist@) + (if changed {
            1int
        } else {
            0int
        }),
    {
        let ghost entry_sum = dist_sum(dist@);
        changed = false;
        proof {
            assert(consistent_before(*z, *m, dist@, 0)) by {
                reveal(consistent_before);
            }
        }
        let mut a: usize = 0;
        while a < 2500
            invariant
                z.wf(),
                m.wf(),
                start.wf(),
                a <= 2500,
                dist@.len() == ZONE_TILES,
                pred@.len() == ZONE_TILES,
                tables_ok(*z, *m, start, dist@, pred@),
                neighbors_reached(*z, *m, start, dist@),
                !changed ==> consistent_before(*z, *m, dist@, a as int),
                !changed ==> dist_sum(dist@) == entry_sum,
                changed ==> dist_sum(dist@) < entry_sum,
                dist_sum(dist@) >= 0,
            decreases 2500 - a,
        {
            let da = dist[a];
            if da < UNREACHED {
                let ax: usize = a % 50;
                let ay: usize = a / 50;
                let apos = Pos { x: ax as u8, y: ay as u8 };
                assert(apos == pos_of_index(a as int));
                let mut dx: usize = 0;
                while dx < 3
                    invariant
                        dx <= 3,
                        z.wf(),
                        m.wf(),
                        start.wf(),
                        a < 2500,
                        ax == a % 50,
                        ay == a / 50,
                        apos == pos_of_index(a as int),
                        dist@.len() == ZONE_TILES,
                        pred@.len() == ZONE_TILES,
                        tables_ok(*z, *m, start, dist@, pred@),
                        neighbors_reached(*z, *m, start, dist@),
                        da == dist@[a as int],
                        da < UNREACHED,
                        !changed ==> consistent_before(*z, *m, dist@, a as int),
                        !changed ==> dist_sum(dist@) == entry_sum,
                        changed ==> dist_sum(dist@) < entry_sum,
                        dist_sum(dist@) >= 0,
                        !changed ==> (forall|ddx2: int, ddy2: int|
                            0 <= ddx2 < dx && 0 <= ddy2 < 3 ==> #[trigger] offset_consistent(
                                *z,
                                *m,
                                dist@,
                                apos,
                                ddx2,
                                ddy2,
                            )),
                    decreases 3 - dx,
                {
                    let mut dy: usize = 0;
                    while dy < 3
                        invariant
                            dy <= 3,
                            dx < 3,
                            z.wf(),
                            m.wf(),
                            start.wf(),
                            a < 2500,
                            ax == a % 50,
                            ay == a / 50,
                            apos == pos_of_index(a as int),
                            dist@.len() == ZONE_TILES,
                            pred@.len() == ZONE_TILES,
                            tables_ok(*z, *m, start, dist@, pred@),
                            neighbors_reached(*z, *m, start, dist@),
                            da == dist@[a as int],
                            da < UNREACHED,
                            !changed ==> consistent_before(*z, *m, dist@, a as int),
                            !changed ==> dist_sum(dist@) == entry_sum,
                            changed ==> dist_sum(dist@) < entry_sum,
                            dist_sum(dist@) >= 0,
                            !changed ==> (forall|ddx2: int, ddy2: int|
                                0 <= ddx2 < dx && 0 <= ddy2 < 3 ==> #[trigger] offset_consistent(
                                    *z,
                                    *m,
                                    dist@,
                                    apos,
                                    ddx2,
                                    ddy2,
                                )),
                            !changed ==> (forall|ddy2: int|
                                0 <= ddy2 < dy ==> #[trigger] offset_consistent(
                                    *z,
                                    *m,
                                    dist@,
                                    apos,
                                    dx as int,
                                    ddy2,
                                )),
                        decreases 3 - dy,
                    {
                        if !(dx == 1 && dy == 1) {
                            let nx_i: i32 = ax as i32 + dx as i32 - 1;
                            let ny_i: i32 = ay as i32 + dy as i32 - 1;
                            if nx_i >= 0 && nx_i < 50 && ny_i >= 0 && ny_i < 50 {
                                let np = Pos { x: nx_i as u8, y: ny_i as u8 };
                                assert(np.wf());
                                assert(adjacent(apos, np));
                                let n_idx: usize = ny_i as usize * 50 + nx_i as usize;
                                assert(n_idx == np.idx());
                                assert(n_idx != a);
                                proof {
                                    lemma_pos_index_roundtrip(np);
                                }
                                match step_cost(z, m, np) {
                                    Some(c) => {
                                        let nd64: u64 = da as u64 + c as u64;
                                        if nd64 < dist[n_idx] as u64 {
                                            let nd: u32 = nd64 as u32;
                                            let ghost old_dist = dist@;
                                            dist.set(n_idx, nd);
                                            pred.set(n_idx, a);
                                            changed = true;
                                            proof {
                                                lemma_dist_sum_update(old_dist, n_idx as int, nd);
                                                lemma_dist_sum_nonneg(dist@);
                                                if n_idx as int == start.idx() {
                                                    assert(old_dist[start.idx()] == 0);
                                                    assert(nd < 0);
                                                }
                                                assert forall|t2: int|
                                                    0 <= t2 < ZONE_TILES && (#[trigger] dist@[t2])
                                                        < UNREACHED && t2 != start.idx() implies {
                                                    &&& 0 <= pred@[t2] < ZONE_TILES
                                                    &&& dist@[pred@[t2] as int] < dist@[t2]
                                                    &&& pos_of_index(t2).wf()
                                                    &&& passable(*z, *m, pos_of_index(t2))
                                                    &&& adjacent(
                                                        pos_of_index(pred@[t2] as int),
                                                        pos_of_index(t2),
                                                    )
                                                } by {
                                                    if t2 == n_idx {
                                                        assert(dist@[a as int] == da);
                                                        assert(dist@[n_idx as int] == nd);
                                                    } else {
                                                        assert(dist@[t2] == old_dist[t2]);
                                                        assert(old_dist[t2] < UNREACHED);
                                                        if pred@[t2] as int == n_idx {
                                                            assert(dist@[n_idx as int] == nd
                                                                < old_dist[n_idx as int]);
                                                        }
                                                    }
                                                }
                                                assert(tables_ok(*z, *m, start, dist@, pred@));
                                                assert forall|q: Pos|
                                                    q.wf() && adjacent(start, q) && passable(
                                                        *z,
                                                        *m,
                                                        q,
                                                    ) implies dist@[q.idx()] < UNREACHED by {
                                                    assert(old_dist[q.idx()] < UNREACHED);
                                                }
                                            }
                                        } else {
                                            proof {
                                                if !changed {
                                                    assert(offset_consistent(
                                                        *z,
                                                        *m,
                                                        dist@,
                                                        apos,
                                                        dx as int,
                                                        dy as int,
                                                    )) by {
                                                        assert(apos.x + dx as int - 1
                                                            == np.x as int);
                                                        assert(apos.y + dy as int - 1
                                                            == np.y as int);
                                                        assert(dist@[n_idx as int] as int <= da
                                                            + c);
                                                    }
                                                }
                                            }
                                        }
                                    }
                                    None => {
                                        proof {
                                            if !changed {
                                                assert(offset_consistent(
                                                    *z,
                                                    *m,
                                                    dist@,
                                                    apos,
                                                    dx as int,
                                                    dy as int,
                                                )) by {
                                                    assert(apos.x + dx as int - 1 == np.x as int);
                                                    assert(apos.y + dy as int - 1 == np.y as int);
                                                    assert(!passable(*z, *m, np));
                                                }
                                            }
                                        }
                                    }
                                }
                            } else {
                                proof {
                                    if !changed {
                                        assert(offset_consistent(
                                            *z,
                                            *m,
                                            dist@,
                                            apos,
                                            dx as int,
                                            dy as int,
                                        )) by {
                                            assert(apos.x + dx as int - 1 == nx_i as int);
                                            assert(apos.y + dy as int - 1 == ny_i as int);
                                        }
                                    }
                                }
                            }
                        } else {
                            proof {
                                assert(offset_consistent(*z, *m, dist@, apos, 1, 1));
                            }
                        }
                        proof {
                            if !changed {
                                assert(forall|ddy2: int|
                                    0 <= ddy2 < dy + 1 ==> #[trigger] offset_consistent(
                                        *z,
                                        *m,
                                        dist@,
                                        apos,
                                        dx as int,
                                        ddy2,
                                    ));
                            }
                        }
                        dy = dy + 1;
                    }
                    dx = dx + 1;
                }
                proof {
                    if !changed {
                        assert(consistent_before(*z, *m, dist@, a as int + 1)) by {
                            reveal(consistent_before);
                            assert forall|ap: Pos, ddx: int, ddy: int|
                                ap.wf() && ap.idx() < a as int + 1 && 0 <= ddx < 3 && 0 <= ddy < 3
                                    && dist@[ap.idx()] < UNREACHED implies offset_consistent(
                                *z,
                                *m,
                                dist@,
                                ap,
                                ddx,
                                ddy,
                            ) by {
                                if ap.idx() == a as int {
                                    lemma_pos_index_roundtrip(ap);
                                    assert(ap == apos);
                                }
                            }
                        }
                    }
                }
            } else {
                proof {
                    if !changed {
                        assert(consistent_before(*z, *m, dist@, a as int + 1)) by {
                            reveal(consistent_before);
                            assert forall|ap: Pos, ddx: int, ddy: int|
                                ap.wf() && ap.idx() < a as int + 1 && 0 <= ddx < 3 && 0 <= ddy < 3
                                    && dist@[ap.idx()] < UNREACHED implies offset_consistent(
                                *z,
                                *m,
                                dist@,
                                ap,
                                ddx,
                                ddy,
                            ) by {
                                if ap.idx() == a as int {
                                    lemma_pos_index_roundtrip(ap);
                                    assert(dist@[ap.idx()] == da);
                                }
                            }
                        }
                    }
                }
            }
            a = a + 1;
        }
        proof {
            if !changed {
                lemma_consistent_before_covers(*z, *m, dist@);
            }
        }
    }
}

/// Walk the predecessor chain back from `t` and return the forward step
/// path from the start to `t`.
#[verifier::rlimit(100)]
#[verifier::spinoff_prover]
fn rebuild_path(start: Pos, t: usize, dist: &Vec<u32>, pred: &Vec<usize>, z: &Zone, m: &CostMatrix)
    -> (steps: Vec<Pos>)
    requires
        z.wf(),
        m.wf(),
        start.wf(),
        tables_ok(*z, *m, start, dist@, pred@),
        t < ZONE_TILES,
        dist@[t as int] < UNREACHED,
    ensures
        valid_steps(*z, *m, start, steps@),
        end_of(start, steps@) == pos_of_index(t as int),
        steps@.len() == 0 <==> t == start.idx(),
{
    let s_idx: usize = start.y as usize * 50 + start.x as usize;
    assert(s_idx == start.idx());
    proof {
        lemma_pos_index_roundtrip(start);
    }
    let mut rev: Vec<Pos> = Vec::new();
    let mut cur: usize = t;
    while cur != s_idx
        invariant
            z.wf(),
            m.wf(),
            start.wf(),
            tables_ok(*z, *m, start, dist@, pred@),
            s_idx == start.idx(),
            cur < ZONE_TILES,
            dist@[cur as int] < UNREACHED,
            rev@.len() > 0 ==> rev@[0] == pos_of_index(t as int),
            rev@.len() == 0 ==> cur == t,
            rev@.len() > 0 ==> dist@[cur as int] < dist@[t as int],
            forall|i: int|
                0 <= i < rev@.len() ==> (#[trigger] rev@[i]).wf() && passable(*z, *m, rev@[i]),
            forall|i: int| 0 <= i < rev@.len() - 1 ==> adjacent(rev@[i + 1], #[trigger] rev@[i]),
            rev@.len() > 0 ==> adjacent(pos_of_index(cur as int), rev@[rev@.len() - 1]),
        decreases dist@[cur as int],
    {
        let cpos = Pos { x: (cur % 50) as u8, y: (cur / 50) as u8 };
        assert(cpos == pos_of_index(cur as int));
        rev.push(cpos);
        let nxt = pred[cur];
        assert(dist@[nxt as int] < dist@[cur as int]);
        cur = nxt;
    }
    // reverse into forward order
    let mut steps: Vec<Pos> = Vec::new();
    let n = rev.len();
    let mut i: usize = 0;
    while i < n
        invariant
            n == rev@.len(),
            i <= n,
            steps@.len() == i,
            forall|j: int| 0 <= j < i ==> (#[trigger] steps@[j]) == rev@[n - 1 - j],
        decreases n - i,
    {
        steps.push(rev[n - 1 - i]);
        i = i + 1;
    }
    proof {
        assert(cur == s_idx);
        assert(pos_of_index(s_idx as int) == start);
        if steps@.len() > 0 {
            assert(steps@[steps@.len() - 1] == rev@[0]);
            assert(steps@[0] == rev@[n - 1]);
            assert(adjacent(pos_of_index(cur as int), rev@[rev@.len() - 1]));
            assert(adjacent(start, steps@[0]));
            assert forall|j: int| 0 <= j < steps@.len() - 1 implies adjacent(
                #[trigger] steps@[j],
                steps@[j + 1],
            ) by {
                assert(steps@[j] == rev@[n - 1 - j]);
                assert(steps@[j + 1] == rev@[n - 1 - (j + 1)]);
                assert(adjacent(rev@[(n - 2 - j) + 1], rev@[n - 2 - j]));
            }
        } else {
            assert(cur == t);
        }
        if t == start.idx() && rev@.len() > 0 {
            assert(dist@[cur as int] < dist@[t as int]);
        }
    }
    steps
}

/// Scan the distance table for the reached tile with the least distance
/// that lies inside some goal's range; the sentinel pair means none is.
#[verifier::rlimit(100)]
#[verifier::spinoff_prover]
fn pick_goal_tile(goals: &Vec<(Pos, u32)>, dist: &Vec<u32>) -> (r: (usize, u32))
    requires
        dist@.len() == ZONE_TILES,
    ensures
        r.0 <= 2500,
        r.0 == 2500 ==> r.1 == UNREACHED && no_reached_goal_before(goals@, dist@, 2500),
        r.0 < 2500 ==> {
            &&& r.1 == dist@[r.0 as int]
            &&& r.1 < UNREACHED
            &&& in_goal_range(goals@, pos_of_index(r.0 as int))
        },
        goal_dist_at_least(goals@, dist@, 2500, r.1),
{
    let mut best_tile: usize = 2500;
    let mut best_dist: u32 = UNREACHED;
    let mut t: usize = 0;
    proof {
        assert(no_reached_goal_before(goals@, dist@, 0)) by {
            reveal(no_reached_goal_before);
        }
        assert(goal_dist_at_least(goals@, dist@, 0, best_dist)) by {
            reveal(goal_dist_at_least);
        }
    }
    while t < 2500
        invariant
            t <= 2500,
            dist@.len() == ZONE_TILES,
            best_tile <= 2500,
            best_tile == 2500 ==> best_dist == UNREACHED,
            best_tile == 2500 ==> no_reached_goal_before(goals@, dist@, t as int),
            best_tile < 2500 ==> {
                &&& best_dist == dist@[best_tile as int]
                &&& best_dist < UNREACHED
                &&& in_goal_range(goals@, pos_of_index(best_tile as int))
            },
            goal_dist_at_least(goals@, dist@, t as int, best_dist),
        decreases 2500 - t,
    {
        let ghost prior_best = best_dist;
        if dist[t] < best_dist {
            let tp = Pos { x: (t % 50) as u8, y: (t / 50) as u8 };
            assert(tp == pos_of_index(t as int));
            if in_goal_range_exec(goals, tp) {
                best_dist = dist[t];
                best_tile = t;
            }
        }
        proof {
            if best_tile == 2500 {
                assert(no_reached_goal_before(goals@, dist@, t as int + 1)) by {
                    reveal(no_reached_goal_before);
                    assert(!(dist@[t as int] < UNREACHED && in_goal_range(
                        goals@,
                        pos_of_index(t as int),
                    )));
                }
            }
            assert(goal_dist_at_least(goals@, dist@, t as int + 1, best_dist)) by {
                reveal(goal_dist_at_least);
                assert(best_dist <= prior_best);
                assert(in_goal_range(goals@, pos_of_index(t as int)) ==> dist@[t as int]
                    >= best_dist);
            }
        }
        t = t + 1;
    }
    (best_tile, best_dist)
}

/// Find the cheapest-to-reach member of a candidate set and a step path to
/// it.  A complete result walks passable adjacent tiles and ends within the
/// chosen candidate's range; an agent already in range of some candidate
/// holds position with a complete, empty path.  With no candidates, or none
/// reachable, the result is incomplete and empty.
#[verifier::rlimit(100)]
#[verifier::spinoff_prover]
pub fn search_many(z: &Zone, m: &CostMatrix, start: Pos, goals: &Vec<(Pos, u32)>) -> (r: PathResult)
    requires
        z.wf(),
        m.wf(),
        start.wf(),
    ensures
        result_over(*z, *m, start, goals@, r),
{
    // an agent already in range of a candidate holds position
    if in_goal_range_exec(goals, start) {
        let target = find_goal_index(goals, start);
        match target {
            Some(k) => {
                proof {
                    assert forall|steps2: Seq<Pos>, k2: int|
                        valid_steps(*z, *m, start, steps2) && 0 <= k2 < goals@.len() && cheb_dist(
                            goals@[k2].0,
                            end_of(start, steps2),
                        ) <= goals@[k2].1 implies 0 <= #[trigger] path_cost(*z, *m, steps2)
                        && (#[trigger] goals@[k2]) == goals@[k2] by {
                        lemma_path_cost_nonneg(*z, *m, steps2);
                    }
                }
                return PathResult { steps: Vec::new(), complete: true, cost: 0, target: Some(k) };
            }
            None => {
                proof {
                    assert(false);
                }
            }
        }
    }

    let tables = expand_tables(z, m, start);
    let dist = tables.0;
    let pred = tables.1;

    // pick the reachable goal tile with the least distance
    let picked = pick_goal_tile(goals, &dist);
    let best_tile: usize = picked.0;
    let best_dist: u32 = picked.1;
    if best_tile == 2500 {
        proof {
            // no reached tile lies in any goal's range, so in particular
            // no passable tile beside the start does
            if goal_beside_start(*z, *m, start, goals@) {
                let np = choose|np: Pos|
                    np.wf() && adjacent(start, np) && passable(*z, *m, np) && in_goal_range(
                        goals@,
                        np,
                    );
                lemma_pos_index_roundtrip(np);
                assert(0 <= np.idx() < 2500);
                assert(dist@[np.idx()] < UNREACHED);
                assert(false) by {
                    reveal(no_reached_goal_before);
                    assert(!(dist@[np.idx()] < UNREACHED && in_goal_range(
                        goals@,
                        pos_of_index(np.idx()),
                    )));
                }
            }
            // and no plausibly priced valid path ends in any goal's range:
            // the certified table would have carried its endpoint
            assert forall|steps2: Seq<Pos>, k2: int|
                valid_steps(*z, *m, start, steps2) && 0 <= k2 < goals@.len() && cheb_dist(
                    goals@[k2].0,
                    end_of(start, steps2),
                ) <= goals@[k2].1 implies #[trigger] path_cost(*z, *m, steps2) >= UNREACHED
                && (#[trigger] goals@[k2]) == goals@[k2] by {
                if path_cost(*z, *m, steps2) < UNREACHED {
                    let end2 = end_of(start, steps2);
                    assert(end2.wf()) by {
                        if steps2.len() > 0 {
                            assert(steps2[steps2.len() - 1].wf());
                        }
                    }
                    lemma_pos_index_roundtrip(end2);
                    lemma_dist_lower_bound(*z, *m, start, dist@, steps2);
                    assert(in_goal_range(goals@, pos_of_index(end2.idx()))) by {
                        assert(cheb_dist(goals@[k2].0, pos_of_index(end2.idx())) <= goals@[k2].1);
                    }
                    assert(false) by {
                        reveal(no_reached_goal_before);
                        assert(!(dist@[end2.idx()] < UNREACHED && in_goal_range(
                            goals@,
                            pos_of_index(end2.idx()),
                        )));
                    }
                }
            }
        }
        return PathResult { steps: Vec::new(), complete: false, cost: 0, target: None };
    }
    let steps = rebuild_path(start, best_tile, &dist, &pred, z, m);
    assert(end_of(start, steps@) == pos_of_index(best_tile as int));
    let end = if steps.len() == 0 {
        start
    } else {
        steps[steps.len() - 1]
    };
    assert(end == end_of(start, steps@));
    proof {
        // any valid path into any candidate's range costs at least the
        // chosen distance: the certified table bounds every path from
        // below, and the scan chose the least table entry in range
        assert forall|steps2: Seq<Pos>, k2: int|
            valid_steps(*z, *m, start, steps2) && 0 <= k2 < goals@.len() && cheb_dist(
                goals@[k2].0,
                end_of(start, steps2),
            ) <= goals@[k2].1 implies best_dist as int <= #[trigger] path_cost(*z, *m, steps2)
            && (#[trigger] goals@[k2]) == goals@[k2] by {
            let end2 = end_of(start, steps2);
            assert(end2.wf()) by {
                if steps2.len() > 0 {
                    assert(steps2[steps2.len() - 1].wf());
                }
            }
            lemma_pos_index_roundtrip(end2);
            assert(in_goal_range(goals@, pos_of_index(end2.idx()))) by {
                assert(cheb_dist(goals@[k2].0, pos_of_index(end2.idx())) <= goals@[k2].1);
            }
            if path_cost(*z, *m, steps2) < UNREACHED {
                lemma_dist_lower_bound(*z, *m, start, dist@, steps2);
                assert(0 <= end2.idx() < 2500);
                assert(dist@[end2.idx()] >= best_dist) by {
                    reveal(goal_dist_at_least);
                }
            }
        }
    }
    let target = find_goal_index(goals, end);
    match target {
        Some(k) => PathResult { steps, complete: true, cost: best_dist, target: Some(k) },
        None => {
            proof {
                assert(in_goal_range(goals@, pos_of_index(best_tile as int)));
                assert(false);
            }
            PathResult { steps: Vec::new(), complete: false, cost: 0, target: None }
        }
    }
}

/// Whether the tile lies within range of some goal, executable form.
pub fn in_goal_range_exec(goals: &Vec<(Pos, u32)>, p: Pos) -> (r: bool)
    ensures
        r == in_goal_range(goals@, p),
{
    let mut k: usize = 0;
    while k < goals.len()
        invariant
            k <= goals@.len(),
            forall|j: int|
                0 <= j < k ==> !(cheb_dist((#[trigger] goals@[j]).0, p) <= goals@[j].1),
        decreases goals@.len() - k,
    {
        let g = goals[k];
        if cheb_dist_exec(g.0, p) as u32 <= g.1 {
            assert(cheb_dist(goals@[k as int].0, p) <= goals@[k as int].1);
            return true;
        }
        k = k + 1;
    }
    false
}

/// First goal whose range covers the tile.
fn find_goal_index(goals: &Vec<(Pos, u32)>, p: Pos) -> (r: Option<usize>)
    ensures
        match r {
            Some(k) => k < goals@.len() && cheb_dist(goals@[k as int].0, p) <= goals@[k as int].1,
            None => !in_goal_range(goals@, p),
        },
{
    let mut k: usize = 0;
    while k < goals.len()
        invariant
            k <= goals@.len(),
            forall|j: int|
                0 <= j < k ==> !(cheb_dist((#[trigger] goals@[j]).0, p) <= goals@[j].1),
        decreases goals@.len() - k,
    {
        let g = goals[k];
        if cheb_dist_exec(g.0, p) as u32 <= g.1 {
            return Some(k);
        }
        k = k + 1;
    }
    None
}

/// Whether the tile lies outside the range of every goal, executable form.
pub fn outside_goal_ranges_exec(goals: &Vec<(Pos, u32)>, p: Pos) -> (r: bool)
    ensures
        r == outside_goal_ranges(goals@, p),
{
    let mut k: usize = 0;
    while k < goals.len()
        invariant
            k <= goals@.len(),
            forall|j: int| 0 <= j < k ==> cheb_dist((#[trigger] goals@[j]).0, p) >= goals@[j].1,
        decreases goals@.len() - k,
    {
        let g = goals[k];
        if (cheb_dist_exec(g.0, p) as u32) < g.1 {
            assert(cheb_dist(goals@[k as int].0, p) < goals@[k as int].1);
            return false;
        }
        k = k + 1;
    }
    true
}

/// Find the cheapest-to-reach tile outside the range of every goal, and a
/// step path to it: the evasive reroute away from crowded spots.  An agent
/// already clear of every range holds position with an empty path.
#[verifier::rlimit(80)]
pub fn search_flee(z: &Zone, m: &CostMatrix, start: Pos, goals: &Vec<(Pos, u32)>) -> (r: PathResult)
    requires
        z.wf(),
        m.wf(),
        start.wf(),
    ensures
        flee_result_over(*z, *m, start, goals@, r),
{
    // an agent already clear of every range holds position
    if outside_goal_ranges_exec(goals, start) {
        return PathResult { steps: Vec::new(), complete: true, cost: 0, target: None };
    }

    let tables = expand_tables(z, m, start);
    let dist = tables.0;
    let pred = tables.1;

    let mut best_tile: usize = 2500;
    let mut best_dist: u32 = UNREACHED;
    let mut t: usize = 0;
    while t < 2500
        invariant
            t <= 2500,
            dist@.len() == ZONE_TILES,
            pred@.len() == ZONE_TILES,
            tables_ok(*z, *m, start, dist@, pred@),
            best_tile <= 2500,
            best_tile == 2500 ==> best_dist == UNREACHED,
            best_tile < 2500 ==> {
                &&& best_dist == dist@[best_tile as int]
                &&& best_dist < UNREACHED
                &&& outside_goal_ranges(goals@, pos_of_index(best_tile as int))
            },
        decreases 2500 - t,
    {
        if dist[t] < best_dist {
            let tp = Pos { x: (t % 50) as u8, y: (t / 50) as u8 };
            assert(tp == pos_of_index(t as int));
            if outside_goal_ranges_exec(goals, tp) {
                best_dist = dist[t];
                best_tile = t;
            }
        }
        t = t + 1;
    }
    if best_tile == 2500 {
        return PathResult { steps: Vec::new(), complete: false, cost: 0, target: None };
    }
    let steps = rebuild_path(start, best_tile, &dist, &pred, z, m);
    assert(end_of(start, steps@) == pos_of_index(best_tile as int));
    PathResult { steps, complete: true, cost: best_dist, target: None }
}

/// Path from an agent to one target position with a range: a search over
/// the single-candidate set.
pub fn find_path(z: &Zone, m: &CostMatrix, start: Pos, target_pos: Pos, range: u32) -> (r:
    PathResult)
    requires
        z.wf(),
        m.wf(),
        start.wf(),
    ensures
        r.complete ==> valid_steps(*z, *m, start, r.steps@),
        r.complete ==> cheb_dist(target_pos, end_of(start, r.steps@)) <= range,
        !r.complete ==> r.steps@.len() == 0,
        cheb_dist(target_pos, start) <= range ==> r.complete && r.steps@.len() == 0,
        (exists|np: Pos|
            np.wf() && adjacent(start, np) && passable(*z, *m, np) && cheb_dist(target_pos, np)
                <= range) ==> r.complete,
        r.complete ==> (forall|steps2: Seq<Pos>|
            valid_steps(*z, *m, start, steps2) && cheb_dist(target_pos, end_of(start, steps2))
                <= range ==> r.cost as int <= #[trigger] path_cost(*z, *m, steps2)),
{
    let mut goals: Vec<(Pos, u32)> = Vec::new();
    goals.push((target_pos, range));
    let r = search_many(z, m, start, &goals);
    proof {
        if cheb_dist(target_pos, start) <= range {
            assert(cheb_dist(goals@[0].0, start) <= goals@[0].1);
        }
        if r.complete {
            assert(r.target matches Some(k) && k < goals@.len());
            assert forall|steps2: Seq<Pos>|
                valid_steps(*z, *m, start, steps2) && cheb_dist(target_pos, end_of(start, steps2))
                    <= range implies r.cost as int <= #[trigger] path_cost(*z, *m, steps2) by {
                assert(cheb_dist(goals@[0].0, end_of(start, steps2)) <= goals@[0].1);
            }
        }
        if exists|np: Pos|
            np.wf() && adjacent(start, np) && passable(*z, *m, np) && cheb_dist(target_pos, np)
                <= range {
            let np = choose|np: Pos|
                np.wf() && adjacent(start, np) && passable(*z, *m, np) && cheb_dist(
                    target_pos,
                    np,
                ) <= range;
            assert(cheb_dist(goals@[0].0, np) <= goals@[0].1);
            assert(in_goal_range(goals@, np));
            assert(goal_beside_start(*z, *m, start, goals@));
        }
    }
    r
}

} // verus!
