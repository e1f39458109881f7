use pathfinder::azimuth::Aspect;
use pathfinder::grid::ElevationGrid;
use pathfinder::policy::PathError;
use pathfinder::policy::SearchPolicy;
use pathfinder::search::evaluate_edge;
use pathfinder::search::find_path_rs;
use pathfinder::search::heuristic;
use pathfinder::search::successors;
use pathfinder::slope::compute_azimuths;
use pathfinder::slope::compute_gradients;
use pathfinder::terrain::Terrain;

/// The raw bearing of a gradient vector, in truncated tenths of a degree,
/// as a caller of the library computes it with floating-point trigonometry.
fn raw_bearing(gx: i64, gy: i64) -> i64 {
    ((-(gx as f64)).atan2(gy as f64).to_degrees() * 10.0) as i64
}

/// Build a terrain from raw elevation samples.
fn terrain(width: usize, height: usize, cells: Vec<i64>) -> Terrain {
    let grid = ElevationGrid::new(width, height, cells).unwrap();
    let raws: Vec<i64> =
        compute_gradients(&grid).iter().map(|&(gx, gy)| raw_bearing(gx, gy)).collect();
    let derived = compute_azimuths(&grid, &raws);
    Terrain::from_parts(grid, derived).unwrap()
}

fn flat_terrain(width: usize, height: usize) -> Terrain {
    terrain(width, height, vec![0; width * height])
}

#[test]
fn heuristic_values() {
    assert_eq!(heuristic((0, 0), (0, 0)), 0);
    assert_eq!(heuristic((0, 0), (9, 9)), 126);
    assert_eq!(heuristic((0, 0), (9, 4)), 106);
    assert_eq!(heuristic((3, 1), (3, 5)), 40);
}

#[test]
fn flat_grid_successors() {
    let t = flat_terrain(5, 5);
    let policy = SearchPolicy::default();
    let center = successors(&t, &policy, (2, 2));
    assert_eq!(center.len(), 8);
    for &((x, y), c) in &center {
        let diagonal = x != 2 && y != 2;
        assert_eq!(c, if diagonal { 14 } else { 10 });
    }
    let corner = successors(&t, &policy, (0, 0));
    assert_eq!(corner.len(), 3);
}

#[test]
fn steep_edge_rejected_regardless_of_aspect() {
    let t = flat_terrain(5, 5);
    // With the gradient cap at zero even a flat step is rejected.
    let policy = SearchPolicy { max_gradient_milli: 0, ..SearchPolicy::default() };
    assert_eq!(evaluate_edge(&t, &policy, (2, 2), (2, 3)), None);
    assert_eq!(successors(&t, &policy, (2, 2)).len(), 0);
    let r = find_path_rs(&t, (2, 2), (2, 3), &policy);
    assert_eq!(r.err(), Some(PathError::NotFound));
}

#[test]
fn flat_grid_diagonal_route() {
    // A 10 by 10 flat grid, corner to corner: nine diagonal steps of cost
    // 14 each, and no cheaper route exists.
    let t = flat_terrain(10, 10);
    let policy = SearchPolicy::default();
    let res = find_path_rs(&t, (0, 0), (9, 9), &policy).unwrap();
    assert_eq!(res.total_cost, 126);
    assert_eq!(res.records.len(), 10);
    assert_eq!((res.records[0].x, res.records[0].y), (0, 0));
    let last = res.records.last().unwrap();
    assert_eq!((last.x, last.y), (9, 9));
    for rec in &res.records {
        assert_eq!(rec.elevation, 0);
        assert_eq!(rec.aspect, Aspect::Flat);
    }
}

#[test]
fn flat_grid_mixed_route() {
    let t = flat_terrain(10, 10);
    let policy = SearchPolicy::default();
    let res = find_path_rs(&t, (0, 0), (9, 4), &policy).unwrap();
    // Four diagonal and five orthogonal steps.
    assert_eq!(res.total_cost, 106);
    assert_eq!(res.records.len(), 10);
}

#[test]
fn start_equals_goal() {
    let t = flat_terrain(10, 10);
    let policy = SearchPolicy::default();
    let res = find_path_rs(&t, (4, 7), (4, 7), &policy).unwrap();
    assert_eq!(res.total_cost, 0);
    assert_eq!(res.records.len(), 1);
    assert_eq!((res.records[0].x, res.records[0].y), (4, 7));
}

#[test]
fn out_of_bounds_endpoints() {
    let t = flat_terrain(10, 10);
    let policy = SearchPolicy::default();
    assert_eq!(find_path_rs(&t, (10, 0), (5, 5), &policy).err(), Some(PathError::OutOfBounds));
    assert_eq!(find_path_rs(&t, (0, 0), (5, 10), &policy).err(), Some(PathError::OutOfBounds));
}

#[test]
fn spike_forces_detour() {
    // A single 1000-unit spike sits on the straight diagonal; with the
    // gradient capped at a tenth, every step onto it is rejected and the
    // route bends around it: eight diagonal and two orthogonal steps.
    let mut cells = vec![0i64; 100];
    cells[5 * 10 + 5] = 1000;
    let t = terrain(10, 10, cells);
    let policy = SearchPolicy { max_gradient_milli: 100, ..SearchPolicy::default() };
    let res = find_path_rs(&t, (0, 0), (9, 9), &policy).unwrap();
    assert!(res.records.iter().all(|rec| (rec.x, rec.y) != (5, 5)));
    assert_eq!(res.total_cost, 132);
    assert_eq!(res.records.len(), 11);
}

#[test]
fn excluded_aspects_wall_off_goal() {
    // On a ramp rising east every interior cell faces west with positive
    // slope; excluding West bars every step into the goal's neighborhood.
    let mut cells = Vec::new();
    for _y in 0..9 {
        for x in 0..9i64 {
            cells.push(10 * x);
        }
    }
    let t = terrain(9, 9, cells);
    let policy = SearchPolicy {
        max_gradient_milli: 1000,
        excluded_aspects: vec![Aspect::West],
        aspect_gradient_threshold_milli: 0,
    };
    let r = find_path_rs(&t, (0, 0), (4, 4), &policy);
    assert_eq!(r.err(), Some(PathError::NotFound));
    // Without the exclusion the same route exists.
    let open = SearchPolicy::default();
    assert!(find_path_rs(&t, (0, 0), (4, 4), &open).is_ok());
}

#[test]
fn exclusion_applies_only_above_threshold() {
    // Interior cells of the eastward ramp face west at slope 3529
    // thousandths. A step into such a cell is barred only when the cell
    // is strictly steeper than the threshold.
    let mut cells = Vec::new();
    for _y in 0..9 {
        for x in 0..9i64 {
            cells.push(10 * x);
        }
    }
    let t = terrain(9, 9, cells);
    let barred = SearchPolicy {
        max_gradient_milli: 1000,
        excluded_aspects: vec![Aspect::West],
        aspect_gradient_threshold_milli: 3528,
    };
    assert_eq!(evaluate_edge(&t, &barred, (5, 4), (4, 4)), None);
    let tolerated = SearchPolicy {
        max_gradient_milli: 1000,
        excluded_aspects: vec![Aspect::West],
        aspect_gradient_threshold_milli: 3529,
    };
    assert!(evaluate_edge(&t, &tolerated, (5, 4), (4, 4)).is_some());
    // An exclusion of a sector the cell does not face changes nothing.
    let other = SearchPolicy {
        max_gradient_milli: 1000,
        excluded_aspects: vec![Aspect::East],
        aspect_gradient_threshold_milli: 0,
    };
    assert!(evaluate_edge(&t, &other, (5, 4), (4, 4)).is_some());
}

#[test]
fn repeated_searches_are_identical() {
    let mut cells = vec![0i64; 100];
    cells[5 * 10 + 5] = 1000;
    cells[3 * 10 + 7] = 250;
    let t = terrain(10, 10, cells);
    let policy = SearchPolicy { max_gradient_milli: 100, ..SearchPolicy::default() };
    let a = find_path_rs(&t, (0, 0), (9, 9), &policy).unwrap();
    let b = find_path_rs(&t, (0, 0), (9, 9), &policy).unwrap();
    assert_eq!(a.total_cost, b.total_cost);
    assert_eq!(a.records, b.records);
}

#[test]
fn annotations_follow_the_terrain() {
    // On the eastward ramp the returned records carry each cell's
    // elevation and, on interior cells, the westward aspect.
    let mut cells = Vec::new();
    for _y in 0..9 {
        for x in 0..9i64 {
            cells.push(10 * x);
        }
    }
    let t = terrain(9, 9, cells);
    let policy = SearchPolicy::default();
    let res = find_path_rs(&t, (2, 2), (6, 2), &policy).unwrap();
    for rec in &res.records {
        assert_eq!(rec.elevation, 10 * rec.x as i64);
        let interior = (2..=6).contains(&rec.x) && (2..=6).contains(&rec.y);
        if interior {
            assert_eq!(rec.aspect, Aspect::West);
        } else {
            assert_eq!(rec.aspect, Aspect::Flat);
        }
    }
}
