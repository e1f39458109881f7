//! The informed best-first path search over the implicit 8-connected grid
//! graph. Edges are priced by the cost model and filtered by the policy;
//! the frontier itself is driven by the fringe search of the
//! `pathfinding` crate behind one trusted wrapper.

use crate::azimuth::contains_spec;
use crate::azimuth::Aspect;
use crate::azimuth::Azimuth;
use crate::cost::cost_fn;
use crate::cost::cost_spec;
use crate::cost::distance_spec;
use crate::cost::edge_gradient_milli;
use crate::cost::gradient_milli_spec;
use crate::cost::lemma_cost_at_least_distance;
use crate::math::lemma_sqrt_floor_unique;
use crate::policy::PathError;
use crate::policy::SearchPolicy;
use crate::result::records_of;
use crate::result::assemble_result;
use crate::result::PathRecord;
use crate::result::PathResult;
use crate::terrain::Terrain;
use vstd::prelude::*;

verus! {

/// Fixed tolerance, in tenths of a degree, of the exclusion filter's
/// containment test.
pub const EXCLUSION_TOLERANCE_TENTHS: u32 = 25;

/// Absolute difference.
pub open spec fn delta(a: int, b: int) -> int {
    if a >= b {
        a - b
    } else {
        b - a
    }
}

/// Are two cells distinct and 8-connected?
pub open spec fn is_neighbor(a: (usize, usize), b: (usize, usize)) -> bool {
    delta(a.0 as int, b.0 as int) <= 1 && delta(a.1 as int, b.1 as int) <= 1 && a != b
}

/// Does the policy exclude a destination cell with this azimuth and
/// slope? Only cells steeper than the threshold are tested, against every
/// excluded sector, with the fixed tolerance.
pub open spec fn excluded_hit(p: SearchPolicy, az: Azimuth, slope: u32) -> bool {
    slope > p.aspect_gradient_threshold_milli && exists|k: int|
        0 <= k < p.excluded_aspects@.len() && contains_spec(#[trigger] p.excluded_aspects@[k], az, 25)
}

/// The cost of a step between two in-bounds neighbor cells, or `None`
/// where the policy rejects the step: first the destination's aspect is
/// tested against the exclusions, then the step's gradient against the
/// gradient limit.
pub open spec fn edge_eval_spec(t: Terrain, p: SearchPolicy, a: (usize, usize), b: (
    usize,
    usize,
)) -> Option<i64> {
    let az = t.azimuth_at_spec(b.0 as int, b.1 as int);
    let slope = t.slope_at_spec(b.0 as int, b.1 as int);
    if excluded_hit(p, az, slope) {
        None
    } else {
        let dz = t.elev.cell(b.0 as int, b.1 as int) - t.elev.cell(a.0 as int, a.1 as int);
        let diag = delta(a.0 as int, b.0 as int) == 1 && delta(a.1 as int, b.1 as int) == 1;
        let g = gradient_milli_spec(dz, diag);
        if g >= p.max_gradient_milli {
            None
        } else {
            Some(
                cost_spec(delta(a.0 as int, b.0 as int), delta(a.1 as int, b.1 as int), g) as i64,
            )
        }
    }
}

/// The cost of the edge from `a` to `b`, or `None` where there is no such
/// edge: the cells must be in-bounds 8-connected neighbors and the step
/// must pass the policy.
pub open spec fn edge_opt(t: Terrain, p: SearchPolicy, a: (usize, usize), b: (usize, usize)) -> Option<
    i64,
> {
    if t.elev.in_bounds(a.0 as int, a.1 as int) && t.elev.in_bounds(b.0 as int, b.1 as int)
        && is_neighbor(a, b) {
        edge_eval_spec(t, p, a, b)
    } else {
        None
    }
}

/// Does the policy exclude a destination cell with this azimuth and slope?
pub fn is_excluded(p: &SearchPolicy, az: Azimuth, slope: u32) -> (r: bool)
    ensures
        r == excluded_hit(*p, az, slope),
{
    if slope <= p.aspect_gradient_threshold_milli {
        return false;
    }
    let mut k: usize = 0;
    while k < p.excluded_aspects.len()
        invariant
            k <= p.excluded_aspects@.len(),
            slope > p.aspect_gradient_threshold_milli,
            forall|k2: int|
                0 <= k2 < k ==> !contains_spec(#[trigger] p.excluded_aspects@[k2], az, 25),
        decreases p.excluded_aspects@.len() - k,
    {
        if p.excluded_aspects[k].contains_azimuth(az, Some(EXCLUSION_TOLERANCE_TENTHS)) {
            return true;
        }
        k = k + 1;
    }
    false
}

/// Evaluate one candidate step between in-bounds neighbor cells: `None`
/// where the policy rejects it, otherwise its non-negative cost.
pub fn evaluate_edge(t: &Terrain, policy: &SearchPolicy, from: (usize, usize), to: (
    usize,
    usize,
)) -> (r: Option<i64>)
    requires
        t.wf(),
        t.elev.in_bounds(from.0 as int, from.1 as int),
        t.elev.in_bounds(to.0 as int, to.1 as int),
        is_neighbor(from, to),
    ensures
        r == edge_eval_spec(*t, *policy, from, to),
        r == edge_opt(*t, *policy, from, to),
        r matches Some(c) ==> c >= 0,
{
    let az: Azimuth = t.azimuth_at(to.0, to.1);
    let slope: u32 = t.slope_at(to.0, to.1);
    if is_excluded(policy, az, slope) {
        return None;
    }
    let dz: i64 = t.elev.at(to.0, to.1) - t.elev.at(from.0, from.1);
    let dx: u64 = if to.0 >= from.0 {
        (to.0 - from.0) as u64
    } else {
        (from.0 - to.0) as u64
    };
    let dy: u64 = if to.1 >= from.1 {
        (to.1 - from.1) as u64
    } else {
        (from.1 - to.1) as u64
    };
    let g: i64 = edge_gradient_milli(dz, dx == 1 && dy == 1);
    if g >= policy.max_gradient_milli {
        None
    } else {
        Some(cost_fn(dx, dy, g))
    }
}

/// A steep step is always rejected, whatever the destination's aspect:
/// a gradient at or above the policy's limit leaves no edge.
pub proof fn lemma_steep_edge_rejected(t: Terrain, p: SearchPolicy, a: (usize, usize), b: (
    usize,
    usize,
))
    requires
        gradient_milli_spec(
            t.elev.cell(b.0 as int, b.1 as int) - t.elev.cell(a.0 as int, a.1 as int),
            delta(a.0 as int, b.0 as int) == 1 && delta(a.1 as int, b.1 as int) == 1,
        ) >= p.max_gradient_milli,
    ensures
        edge_opt(t, p, a, b) is None,
{
}

/// An excluded destination leaves no edge, whatever the gradient.
pub proof fn lemma_excluded_edge_rejected(t: Terrain, p: SearchPolicy, a: (usize, usize), b: (
    usize,
    usize,
))
    requires
        excluded_hit(
            p,
            t.azimuth_at_spec(b.0 as int, b.1 as int),
            t.slope_at_spec(b.0 as int, b.1 as int),
        ),
    ensures
        edge_opt(t, p, a, b) is None,
{
}

/// The heuristic: a lower bound, in whole distance units, on the cost of
/// any route between two cells. A route must make at least `max - min`
/// single-axis steps and `min` diagonal steps for displacement deltas
/// `(max, min)`, and each step costs at least its truncated length: 10
/// orthogonal, 14 diagonal. The truncated Euclidean distance itself can
/// exceed a route's true integer cost, so this bound is used instead.
pub open spec fn heuristic_spec(a: (usize, usize), goal: (usize, usize)) -> int {
    let dx = delta(a.0 as int, goal.0 as int);
    let dy = delta(a.1 as int, goal.1 as int);
    if dx <= dy {
        14 * dx + 10 * (dy - dx)
    } else {
        14 * dy + 10 * (dx - dy)
    }
}

/// The heuristic lower bound on the cost of reaching `goal` from `node`.
pub fn heuristic(node: (usize, usize), goal: (usize, usize)) -> (h: i64)
    requires
        node.0 <= 30000,
        node.1 <= 30000,
        goal.0 <= 30000,
        goal.1 <= 30000,
    ensures
        h == heuristic_spec(node, goal),
        h >= 0,
{
    let dx: i64 = if node.0 >= goal.0 {
        (node.0 - goal.0) as i64
    } else {
        (goal.0 - node.0) as i64
    };
    let dy: i64 = if node.1 >= goal.1 {
        (node.1 - goal.1) as i64
    } else {
        (goal.1 - node.1) as i64
    };
    if dx <= dy {
        14 * dx + 10 * (dy - dx)
    } else {
        14 * dy + 10 * (dx - dy)
    }
}

/// The x offset of the eight compass directions, in the order the
/// successors of a cell are generated.
pub open spec fn dir_dx(j: int) -> int {
    if j == 0 {
        0
    } else if j == 1 {
        1
    } else if j == 2 {
        0
    } else if j == 3 {
        -1
    } else if j == 4 {
        1
    } else if j == 5 {
        1
    } else if j == 6 {
        -1
    } else {
        -1
    }
}

/// The y offset of the eight compass directions.
pub open spec fn dir_dy(j: int) -> int {
    if j == 0 {
        1
    } else if j == 1 {
        0
    } else if j == 2 {
        -1
    } else if j == 3 {
        0
    } else if j == 4 {
        1
    } else if j == 5 {
        -1
    } else if j == 6 {
        -1
    } else {
        1
    }
}

/// What direction `j` contributes to a cell's successors: the neighbor in
/// that direction with its cost, or `None` where the neighbor is off the
/// grid or the policy rejects the step.
pub open spec fn succ_at(t: Terrain, p: SearchPolicy, node: (usize, usize), j: int) -> Option<
    ((usize, usize), i64),
> {
    let bx = node.0 as int + dir_dx(j);
    let by = node.1 as int + dir_dy(j);
    if t.elev.in_bounds(bx, by) {
        let b = ((bx as usize), (by as usize));
        match edge_opt(t, p, node, b) {
            Some(c) => Some((b, c)),
            None => None,
        }
    } else {
        None
    }
}

/// One compass direction's offsets.
fn direction(j: usize) -> (d: (i64, i64))
    requires
        j < 8,
    ensures
        d.0 == dir_dx(j as int),
        d.1 == dir_dy(j as int),
{
    if j == 0 {
        (0, 1)
    } else if j == 1 {
        (1, 0)
    } else if j == 2 {
        (0, -1)
    } else if j == 3 {
        (-1, 0)
    } else if j == 4 {
        (1, 1)
    } else if j == 5 {
        (1, -1)
    } else if j == 6 {
        (-1, -1)
    } else {
        (-1, 1)
    }
}

/// The successors of a cell: every in-bounds 8-connected neighbor the
/// policy admits, with its step cost. The result holds exactly the
/// contributions of the eight directions.
#[verifier::spinoff_prover]
#[verifier::rlimit(60)]
pub fn successors(t: &Terrain, policy: &SearchPolicy, node: (usize, usize)) -> (res: Vec<
    ((usize, usize), i64),
>)
    requires
        t.wf(),
        t.elev.in_bounds(node.0 as int, node.1 as int),
    ensures
        forall|j: int|
            0 <= j < 8 ==> (#[trigger] succ_at(*t, *policy, node, j) matches Some(e)
                ==> res@.contains(e)),
        forall|idx: int|
            0 <= idx < res@.len() ==> exists|j: int|
                0 <= j < 8 && succ_at(*t, *policy, node, j) == Some(#[trigger] res@[idx]),
{
    let w: usize = t.elev.width;
    let h: usize = t.elev.height;
    let mut res: Vec<((usize, usize), i64)> = Vec::new();
    let mut j: usize = 0;
    while j < 8
        invariant
            t.wf(),
            t.elev.in_bounds(node.0 as int, node.1 as int),
            w == t.elev.width,
            h == t.elev.height,
            j <= 8,
            forall|j2: int|
                0 <= j2 < j ==> (#[trigger] succ_at(*t, *policy, node, j2) matches Some(e)
                    ==> res@.contains(e)),
            forall|idx: int|
                0 <= idx < res@.len() ==> exists|j2: int|
                    0 <= j2 < j && succ_at(*t, *policy, node, j2) == Some(#[trigger] res@[idx]),
        decreases 8 - j,
    {
        let (dx, dy): (i64, i64) = direction(j);
        let bx: i64 = node.0 as i64 + dx;
        let by: i64 = node.1 as i64 + dy;
        if 0 <= bx && bx < w as i64 && 0 <= by && by < h as i64 {
            let b: (usize, usize) = (bx as usize, by as usize);
            match evaluate_edge(t, policy, node, b) {
                Some(c) => {
                    proof {
                        assert(succ_at(*t, *policy, node, j as int) == Some((b, c)));
                    }
                    let ghost old_res = res@;
                    res.push((b, c));
                    proof {
                        assert(res@ == old_res.push((b, c)));
                        assert forall|e: ((usize, usize), i64)| old_res.contains(e) implies
                            res@.contains(e) by {
                            let idx = choose|i: int|
                                0 <= i < old_res.len() && old_res[i] == e;
                            assert(res@[idx] == e);
                        };
                        assert(res@[res@.len() - 1] == (b, c));
                        assert(res@.contains((b, c)));
                    }
                },
                None => {
                    proof {
                        assert(succ_at(*t, *policy, node, j as int) is None);
                    }
                },
            }
        } else {
            proof {
                assert(succ_at(*t, *policy, node, j as int) is None);
            }
        }
        j = j + 1;
    }
    proof {
        assert forall|idx: int| 0 <= idx < res@.len() implies exists|j2: int|
            0 <= j2 < 8 && succ_at(*t, *policy, node, j2) == Some(#[trigger] res@[idx]) by {
            let jj = choose|j2: int|
                0 <= j2 < j && succ_at(*t, *policy, node, j2) == Some(res@[idx]);
            assert(0 <= jj < 8 && succ_at(*t, *policy, node, jj) == Some(res@[idx]));
        };
    }
    res
}

/// Every admitted edge is the contribution of one of the eight compass
/// directions, and every contribution is an admitted edge: the successor
/// generation enumerates the edge relation exactly.
pub proof fn lemma_edges_are_successors(
    t: Terrain,
    p: SearchPolicy,
    a: (usize, usize),
    b: (usize, usize),
    c: i64,
)
    ensures
        edge_opt(t, p, a, b) == Some(c) <==> exists|j: int|
            0 <= j < 8 && succ_at(t, p, a, j) == Some((b, c)),
{
    if edge_opt(t, p, a, b) == Some(c) {
        let dx = b.0 as int - a.0 as int;
        let dy = b.1 as int - a.1 as int;
        if dx == 0 && dy == 1 {
            assert(succ_at(t, p, a, 0) == Some((b, c)));
        } else if dx == 1 && dy == 0 {
            assert(succ_at(t, p, a, 1) == Some((b, c)));
        } else if dx == 0 && dy == -1 {
            assert(succ_at(t, p, a, 2) == Some((b, c)));
        } else if dx == -1 && dy == 0 {
            assert(succ_at(t, p, a, 3) == Some((b, c)));
        } else if dx == 1 && dy == 1 {
            assert(succ_at(t, p, a, 4) == Some((b, c)));
        } else if dx == 1 && dy == -1 {
            assert(succ_at(t, p, a, 5) == Some((b, c)));
        } else if dx == -1 && dy == -1 {
            assert(succ_at(t, p, a, 6) == Some((b, c)));
        } else {
            assert(dx == -1 && dy == 1);
            assert(succ_at(t, p, a, 7) == Some((b, c)));
        }
    }
}

/// A traversable path: at least one node, the first in bounds, and an
/// admitted edge between each consecutive pair.
pub open spec fn valid_path(t: Terrain, p: SearchPolicy, q: Seq<(usize, usize)>) -> bool {
    &&& q.len() >= 1
    &&& t.elev.in_bounds(q[0].0 as int, q[0].1 as int)
    &&& forall|i: int| 0 <= i < q.len() - 1 ==> edge_opt(t, p, #[trigger] q[i], q[i + 1]) is Some
}

/// The total cost of a path: the sum of its edge costs.
pub open spec fn path_cost(t: Terrain, p: SearchPolicy, q: Seq<(usize, usize)>) -> int
    decreases q.len(),
{
    if q.len() <= 1 {
        0
    } else {
        (match edge_opt(t, p, q[0], q[1]) {
            Some(c) => c as int,
            None => 0,
        }) + path_cost(t, p, q.subrange(1, q.len() as int))
    }
}

/// A route: a traversable path from `start` to `goal`.
pub open spec fn is_route(
    t: Terrain,
    p: SearchPolicy,
    q: Seq<(usize, usize)>,
    start: (usize, usize),
    goal: (usize, usize),
) -> bool {
    valid_path(t, p, q) && q[0] == start && q.last() == goal
}

/// Every node of a traversable path is in bounds.
pub proof fn lemma_route_in_bounds(t: Terrain, p: SearchPolicy, q: Seq<(usize, usize)>)
    requires
        valid_path(t, p, q),
    ensures
        forall|i: int|
            0 <= i < q.len() ==> t.elev.in_bounds((#[trigger] q[i]).0 as int, q[i].1 as int),
{
    assert forall|i: int|
        0 <= i < q.len() implies t.elev.in_bounds((#[trigger] q[i]).0 as int, q[i].1 as int) by {
        if i > 0 {
            assert(edge_opt(t, p, q[i - 1], q[i]) is Some);
        }
    };
}

/// An admitted edge costs at least its truncated length: 10 for an
/// orthogonal step, 14 for a diagonal one.
pub proof fn lemma_edge_cost_bounds(
    t: Terrain,
    p: SearchPolicy,
    a: (usize, usize),
    b: (usize, usize),
    c: i64,
)
    requires
        edge_opt(t, p, a, b) == Some(c),
    ensures
        c >= 10,
        (delta(a.0 as int, b.0 as int) == 1 && delta(a.1 as int, b.1 as int) == 1) ==> c >= 14,
{
    let dx = delta(a.0 as int, b.0 as int);
    let dy = delta(a.1 as int, b.1 as int);
    let dz = t.elev.cell(b.0 as int, b.1 as int) - t.elev.cell(a.0 as int, a.1 as int);
    let g = gradient_milli_spec(dz, dx == 1 && dy == 1);
    assert(is_neighbor(a, b));
    assert(0 <= dx <= 1 && 0 <= dy <= 1);
    crate::cost::lemma_cost_spec_upper(dx, dy, g);
    assert(c == cost_spec(dx, dy, g));
    lemma_cost_at_least_distance(dx, dy, g);
    if dx == 1 && dy == 1 {
        assert(dx * dx == 1 && dy * dy == 1) by (nonlinear_arith)
            requires
                dx == 1,
                dy == 1,
        {
        }
        lemma_sqrt_floor_unique(200, 14);
        assert(distance_spec(dx, dy) == 14);
    } else {
        assert(a.0 != b.0 || a.1 != b.1);
        assert(dx == 0 ==> a.0 == b.0);
        assert(dy == 0 ==> a.1 == b.1);
        assert(dx + dy == 1);
        assert(dx * dx + dy * dy == 1) by (nonlinear_arith)
            requires
                0 <= dx <= 1,
                0 <= dy <= 1,
                dx + dy == 1,
        {
        }
        lemma_sqrt_floor_unique(100, 10);
        assert(distance_spec(dx, dy) == 10);
    }
}

/// The heuristic is consistent: one admitted step lowers it by at most
/// the step's cost.
pub proof fn lemma_heuristic_step(
    t: Terrain,
    p: SearchPolicy,
    a: (usize, usize),
    b: (usize, usize),
    c: i64,
    goal: (usize, usize),
)
    requires
        edge_opt(t, p, a, b) == Some(c),
    ensures
        heuristic_spec(a, goal) <= c + heuristic_spec(b, goal),
{
    lemma_edge_cost_bounds(t, p, a, b, c);
}

/// The tail of a traversable path of two or more nodes is traversable.
pub proof fn lemma_tail_valid(t: Terrain, p: SearchPolicy, q: Seq<(usize, usize)>)
    requires
        valid_path(t, p, q),
        q.len() >= 2,
    ensures
        valid_path(t, p, q.subrange(1, q.len() as int)),
{
    let tail = q.subrange(1, q.len() as int);
    assert(edge_opt(t, p, q[0], q[1]) is Some);
    assert(t.elev.in_bounds(tail[0].0 as int, tail[0].1 as int));
    assert forall|i: int|
        0 <= i < tail.len() - 1 implies (#[trigger] edge_opt(t, p, tail[i], tail[i + 1]))
        is Some by {
        assert(tail[i] == q[i + 1]);
        assert(tail[i + 1] == q[i + 2]);
        assert(edge_opt(t, p, q[i + 1], q[i + 2]) is Some);
    };
}

/// A traversable path never costs less than nothing.
pub proof fn lemma_path_cost_nonneg(t: Terrain, p: SearchPolicy, q: Seq<(usize, usize)>)
    requires
        valid_path(t, p, q),
    ensures
        path_cost(t, p, q) >= 0,
    decreases q.len(),
{
    if q.len() >= 2 {
        assert(edge_opt(t, p, q[0], q[1]) is Some);
        let c = edge_opt(t, p, q[0], q[1]).unwrap();
        assert(edge_opt(t, p, q[0], q[1]) == Some(c));
        lemma_edge_cost_bounds(t, p, q[0], q[1], c);
        lemma_tail_valid(t, p, q);
        lemma_path_cost_nonneg(t, p, q.subrange(1, q.len() as int));
    }
}

/// The heuristic is admissible: it never exceeds the cost of any route to
/// the goal.
pub proof fn lemma_heuristic_admissible(
    t: Terrain,
    p: SearchPolicy,
    q: Seq<(usize, usize)>,
    goal: (usize, usize),
)
    requires
        valid_path(t, p, q),
        q.last() == goal,
    ensures
        heuristic_spec(q[0], goal) <= path_cost(t, p, q),
    decreases q.len(),
{
    if q.len() == 1 {
        assert(q[0] == goal);
    } else {
        assert(edge_opt(t, p, q[0], q[1]) is Some);
        let c = edge_opt(t, p, q[0], q[1]).unwrap();
        assert(edge_opt(t, p, q[0], q[1]) == Some(c));
        let tail = q.subrange(1, q.len() as int);
        lemma_heuristic_step(t, p, q[0], q[1], c, goal);
        lemma_tail_valid(t, p, q);
        assert(tail.last() == q.last());
        lemma_heuristic_admissible(t, p, tail, goal);
        assert(tail[0] == q[1]);
    }
}

/// What the fringe search of the `pathfinding` crate returns for a
/// terrain, policy and endpoint pair. The search keeps its frontier in
/// order-preserving structures with a fixed hasher and draws on nothing
/// but its arguments, so its result is a function of these values alone.
pub uninterp spec fn fringe_outcome(
    elevations: Seq<i64>,
    width: int,
    height: int,
    azimuths: Seq<Azimuth>,
    slopes: Seq<u32>,
    max_gradient: int,
    excluded: Seq<Aspect>,
    threshold: int,
    start: (usize, usize),
    goal: (usize, usize),
) -> Option<(Seq<(usize, usize)>, int)>;

/// The fringe outcome of a bundled terrain and policy.
pub open spec fn fringe_outcome_of(
    t: Terrain,
    p: SearchPolicy,
    start: (usize, usize),
    goal: (usize, usize),
) -> Option<(Seq<(usize, usize)>, int)> {
    fringe_outcome(
        t.elev.cells@,
        t.elev.width as int,
        t.elev.height as int,
        t.azimuths@,
        t.slopes@,
        p.max_gradient_milli as int,
        p.excluded_aspects@,
        p.aspect_gradient_threshold_milli as int,
        start,
        goal,
    )
}

/// Relies on `pathfinding::directed::fringe::fringe`: given non-negative
/// step costs (here at least 10, `lemma_edge_cost_bounds`) and a
/// heuristic that never exceeds the cost of any route to the goal (here
/// proved by `lemma_heuristic_admissible`), it returns a shortest route
/// from `start` to a success node together with that route's total cost,
/// or `None` exactly when no such route exists, and it is deterministic.
#[verifier::external_body]
fn run_fringe(t: &Terrain, policy: &SearchPolicy, start: (usize, usize), goal: (usize, usize)) -> (r:
    Option<(Vec<(usize, usize)>, i64)>)
    requires
        t.wf(),
        t.elev.in_bounds(start.0 as int, start.1 as int),
        t.elev.in_bounds(goal.0 as int, goal.1 as int),
    ensures
        (r is None) == (fringe_outcome(
            t.elev.cells@,
            t.elev.width as int,
            t.elev.height as int,
            t.azimuths@,
            t.slopes@,
            policy.max_gradient_milli as int,
            policy.excluded_aspects@,
            policy.aspect_gradient_threshold_milli as int,
            start,
            goal,
        ) is None),
        r matches Some(pc) ==> fringe_outcome(
            t.elev.cells@,
            t.elev.width as int,
            t.elev.height as int,
            t.azimuths@,
            t.slopes@,
            policy.max_gradient_milli as int,
            policy.excluded_aspects@,
            policy.aspect_gradient_threshold_milli as int,
            start,
            goal,
        ) == Some((pc.0@, pc.1 as int)),
        r matches Some(pc) ==> is_route(*t, *policy, pc.0@, start, goal) && pc.1 as int
            == path_cost(*t, *policy, pc.0@),
        r matches Some(pc) ==> forall|q: Seq<(usize, usize)>|
            is_route(*t, *policy, q, start, goal) ==> pc.1 as int <= path_cost(*t, *policy, q),
        r is None ==> forall|q: Seq<(usize, usize)>| !is_route(*t, *policy, q, start, goal),
{
    pathfinding::directed::fringe::fringe(
        &start,
        |n: &(usize, usize)| successors(t, policy, *n),
        |n: &(usize, usize)| heuristic(*n, goal),
        |n: &(usize, usize)| *n == goal,
    )
}

/// The cells a record sequence passes through, in order.
pub open spec fn nodes_of(records: Seq<PathRecord>) -> Seq<(usize, usize)> {
    Seq::new(records.len(), |i: int| (records[i].x, records[i].y))
}

/// Annotating a node sequence keeps its nodes: reading the cells back out
/// of the records gives the sequence the records were made from.
pub proof fn lemma_nodes_of_records(t: Terrain, q: Seq<(usize, usize)>)
    ensures
        nodes_of(records_of(t, q)) == q,
{
    assert(nodes_of(records_of(t, q)) =~= q);
}

/// What a search returns, as a function of its inputs: the out-of-bounds
/// rejection, the trivial one-node path when start and goal coincide, and
/// otherwise the annotated fringe outcome.
pub open spec fn find_path_spec(
    t: Terrain,
    p: SearchPolicy,
    start: (usize, usize),
    goal: (usize, usize),
) -> Result<(Seq<PathRecord>, int), PathError> {
    if !t.elev.in_bounds(start.0 as int, start.1 as int) || !t.elev.in_bounds(
        goal.0 as int,
        goal.1 as int,
    ) {
        Err(PathError::OutOfBounds)
    } else if start == goal {
        Ok((records_of(t, seq![start]), 0))
    } else {
        match fringe_outcome_of(t, p, start, goal) {
            None => Err(PathError::NotFound),
            Some(pc) => Ok((records_of(t, pc.0), pc.1)),
        }
    }
}

/// Find a least-cost route from `start` to `goal` under the policy.
///
/// Returns `OutOfBounds` exactly when an endpoint is off the grid. In
/// bounds, a coinciding start and goal yield the one-node path at cost
/// zero; otherwise the result is `NotFound` exactly when no route
/// survives the policy, and any returned path is a route from start to
/// goal whose records carry each cell's elevation, azimuth and aspect,
/// whose total cost is the sum of its step costs, and which no other
/// route undercuts. The whole search is deterministic in its inputs.
pub fn find_path_rs(
    t: &Terrain,
    start: (usize, usize),
    goal: (usize, usize),
    policy: &SearchPolicy,
) -> (r: Result<PathResult, PathError>)
    requires
        t.wf(),
    ensures
        r matches Ok(res) ==> find_path_spec(*t, *policy, start, goal) == Ok::<
            (Seq<PathRecord>, int),
            PathError,
        >((res.records@, res.total_cost as int)),
        r matches Err(e) ==> find_path_spec(*t, *policy, start, goal) == Err::<
            (Seq<PathRecord>, int),
            PathError,
        >(e),
        (r == Err::<PathResult, PathError>(PathError::OutOfBounds)) <==> !(t.elev.in_bounds(
            start.0 as int,
            start.1 as int,
        ) && t.elev.in_bounds(goal.0 as int, goal.1 as int)),
        (t.elev.in_bounds(start.0 as int, start.1 as int) && t.elev.in_bounds(
            goal.0 as int,
            goal.1 as int,
        ) && start == goal) ==> (r matches Ok(res) && res.records@ == records_of(*t, seq![start])
            && res.total_cost == 0),
        (t.elev.in_bounds(start.0 as int, start.1 as int) && t.elev.in_bounds(
            goal.0 as int,
            goal.1 as int,
        )) ==> ((r == Err::<PathResult, PathError>(PathError::NotFound)) <==> !(exists|
            q: Seq<(usize, usize)>,
        | is_route(*t, *policy, q, start, goal))),
        r matches Ok(res) ==> {
            &&& res.records@.len() >= 1
            &&& is_route(*t, *policy, nodes_of(res.records@), start, goal)
            &&& res.total_cost as int == path_cost(*t, *policy, nodes_of(res.records@))
            &&& res.records@ == records_of(*t, nodes_of(res.records@))
            &&& forall|q: Seq<(usize, usize)>|
                is_route(*t, *policy, q, start, goal) ==> res.total_cost as int <= path_cost(
                    *t,
                    *policy,
                    q,
                )
        },
{
    let w: usize = t.elev.width;
    let h: usize = t.elev.height;
    if start.0 >= w || start.1 >= h || goal.0 >= w || goal.1 >= h {
        return Err(PathError::OutOfBounds);
    }
    if start.0 == goal.0 && start.1 == goal.1 {
        let mut nodes: Vec<(usize, usize)> = Vec::new();
        nodes.push(start);
        proof {
            assert(start == goal);
            assert(nodes@ =~= seq![start]);
            assert(valid_path(*t, *policy, nodes@));
            assert(is_route(*t, *policy, nodes@, start, goal));
            assert forall|q: Seq<(usize, usize)>|
                is_route(*t, *policy, q, start, goal) implies 0 <= path_cost(*t, *policy, q) by {
                lemma_path_cost_nonneg(*t, *policy, q);
            };
            lemma_nodes_of_records(*t, seq![start]);
        }
        let res: PathResult = assemble_result(t, &nodes, 0);
        return Ok(res);
    }
    match run_fringe(t, policy, start, goal) {
        None => Err(PathError::NotFound),
        Some((nodes, c)) => {
            proof {
                lemma_route_in_bounds(*t, *policy, nodes@);
                lemma_nodes_of_records(*t, nodes@);
            }
            let res: PathResult = assemble_result(t, &nodes, c);
            Ok(res)
        },
    }
}

} // verus!
