//! The result assembler: maps the pixel sequence a search returns to
//! output records annotated with elevation, azimuth and aspect, in path
//! order, carrying the total cost unchanged.

use crate::azimuth::aspect_of;
use crate::azimuth::Aspect;
use crate::azimuth::Azimuth;
use crate::terrain::Terrain;
use vstd::prelude::*;

verus! {

/// One step of a returned path: the cell and its annotations.
#[derive(Clone, Copy, PartialEq, Eq, Structural, Debug)]
pub struct PathRecord {
    pub x: usize,
    pub y: usize,
    pub elevation: i64,
    pub azimuth: Azimuth,
    pub aspect: Aspect,
}

/// The annotated record of a cell.
pub open spec fn record_at(t: Terrain, node: (usize, usize)) -> PathRecord {
    PathRecord {
        x: node.0,
        y: node.1,
        elevation: t.elev.cell(node.0 as int, node.1 as int) as i64,
        azimuth: t.azimuth_at_spec(node.0 as int, node.1 as int),
        aspect: aspect_of(t.azimuth_at_spec(node.0 as int, node.1 as int)),
    }
}

/// The annotated records of a node sequence, in order.
pub open spec fn records_of(t: Terrain, nodes: Seq<(usize, usize)>) -> Seq<PathRecord> {
    Seq::new(nodes.len(), |i: int| record_at(t, nodes[i]))
}

/// A found path: its annotated records, start first and goal last, and
/// its total cost.
pub struct PathResult {
    pub records: Vec<PathRecord>,
    pub total_cost: i64,
}

/// Annotate each node of a path with its elevation, azimuth and derived
/// aspect, preserving path order; the total cost is carried unchanged.
pub fn assemble_result(t: &Terrain, nodes: &Vec<(usize, usize)>, total_cost: i64) -> (r:
    PathResult)
    requires
        t.wf(),
        forall|i: int|
            0 <= i < nodes@.len() ==> t.elev.in_bounds(
                (#[trigger] nodes@[i]).0 as int,
                nodes@[i].1 as int,
            ),
    ensures
        r.records@ == records_of(*t, nodes@),
        r.records@.len() == nodes@.len(),
        r.total_cost == total_cost,
        forall|i: int|
            0 <= i < nodes@.len() ==> #[trigger] r.records@[i] == record_at(*t, nodes@[i]),
{
    let mut records: Vec<PathRecord> = Vec::new();
    let mut i: usize = 0;
    while i < nodes.len()
        invariant
            t.wf(),
            forall|j: int|
                0 <= j < nodes@.len() ==> t.elev.in_bounds(
                    (#[trigger] nodes@[j]).0 as int,
                    nodes@[j].1 as int,
                ),
            i <= nodes@.len(),
            records@.len() == i,
            forall|j: int| 0 <= j < i ==> #[trigger] records@[j] == record_at(*t, nodes@[j]),
        decreases nodes@.len() - i,
    {
        let (x, y): (usize, usize) = nodes[i];
        let azimuth: Azimuth = t.azimuth_at(x, y);
        records.push(
            PathRecord {
                x,
                y,
                elevation: t.elev.at(x, y),
                azimuth,
                aspect: Aspect::from_azimuth(azimuth),
            },
        );
        i = i + 1;
    }
    proof {
        assert(records@ =~= records_of(*t, nodes@));
    }
    PathResult { records, total_cost }
}

} // verus!
