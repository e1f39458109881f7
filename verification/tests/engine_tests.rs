use pathfinder::azimuth::Azimuth;
use pathfinder::cost::cost_fn;
use pathfinder::cost::distance;
use pathfinder::cost::edge_gradient_milli;
use pathfinder::cost::linear_multiplier;
use pathfinder::grid::ElevationGrid;
use pathfinder::math::isqrt64;
use pathfinder::slope::compute_azimuths;
use pathfinder::slope::compute_gradients;

/// The raw bearing of a gradient vector, in truncated tenths of a degree,
/// as a caller of the library computes it with floating-point trigonometry.
fn raw_bearing(gx: i64, gy: i64) -> i64 {
    ((-(gx as f64)).atan2(gy as f64).to_degrees() * 10.0) as i64
}

fn raw_bearings(gradients: &[(i64, i64)]) -> Vec<i64> {
    gradients.iter().map(|&(gx, gy)| raw_bearing(gx, gy)).collect()
}

#[test]
fn integer_square_roots() {
    assert_eq!(isqrt64(0), 0);
    assert_eq!(isqrt64(1), 1);
    assert_eq!(isqrt64(3), 1);
    assert_eq!(isqrt64(4), 2);
    assert_eq!(isqrt64(200), 14);
    assert_eq!(isqrt64(99_999), 316);
    assert_eq!(isqrt64(u64::MAX), 4294967295);
}

#[test]
fn truncated_distances() {
    assert_eq!(distance((0, 0), (1, 0)), 10);
    assert_eq!(distance((0, 0), (0, 1)), 10);
    assert_eq!(distance((0, 0), (1, 1)), 14);
    assert_eq!(distance((0, 0), (3, 4)), 50);
    assert_eq!(distance((2, 7), (2, 7)), 0);
    assert_eq!(distance((9, 9), (0, 0)), 127);
}

#[test]
fn multiplier_clamps() {
    assert_eq!(linear_multiplier(-500), 1000);
    assert_eq!(linear_multiplier(0), 1000);
    assert_eq!(linear_multiplier(50), 1000);
    assert_eq!(linear_multiplier(100), 2000);
    assert_eq!(linear_multiplier(999), 19980);
    assert_eq!(linear_multiplier(1000), 20000);
    assert_eq!(linear_multiplier(5000), 20000);
}

#[test]
fn cost_at_zero_gradient_equals_distance() {
    assert_eq!(cost_fn(1, 0, 0), 10);
    assert_eq!(cost_fn(0, 1, 0), 10);
    assert_eq!(cost_fn(1, 1, 0), 14);
    assert_eq!(cost_fn(3, 4, 0), 50);
}

#[test]
fn cost_grows_with_gradient_and_never_below_distance() {
    assert_eq!(cost_fn(1, 0, 100), 20);
    assert_eq!(cost_fn(1, 1, 1000), 282);
    let mut last = 0i64;
    for g in [-1000i64, -100, 0, 50, 100, 500, 1000, 5000] {
        let c = cost_fn(1, 1, g);
        assert!(c >= 14);
        assert!(c >= last);
        last = c;
    }
}

#[test]
fn edge_gradients() {
    assert_eq!(edge_gradient_milli(1, false), 100);
    assert_eq!(edge_gradient_milli(-3, false), -300);
    assert_eq!(edge_gradient_milli(1, true), 70);
    assert_eq!(edge_gradient_milli(-1, true), -70);
    assert_eq!(edge_gradient_milli(0, true), 0);
}

#[test]
fn grid_construction_rejects_bad_input() {
    assert!(ElevationGrid::new(0, 3, vec![]).is_none());
    assert!(ElevationGrid::new(2, 2, vec![0, 0, 0]).is_none());
    assert!(ElevationGrid::new(2, 2, vec![0, 0, 0, 500_000]).is_none());
    assert!(ElevationGrid::new(2, 2, vec![0, 0, 0, -500_000]).is_none());
    assert!(ElevationGrid::new(2, 2, vec![0, 1, -1, 400_000]).is_some());
}

#[test]
fn flat_grid_derives_flat_cells() {
    let grid = ElevationGrid::new(6, 6, vec![7; 36]).unwrap();
    let gradients = compute_gradients(&grid);
    assert_eq!(gradients.len(), 36);
    assert!(gradients.iter().all(|&g| g == (0, 0)));
    let derived = compute_azimuths(&grid, &raw_bearings(&gradients));
    assert_eq!(derived.azimuths.len(), 36);
    assert_eq!(derived.gradients.len(), 36);
    assert!(derived.azimuths.iter().all(|&a| a == Azimuth::Flat));
    assert!(derived.gradients.iter().all(|&s| s == 0));
}

#[test]
fn eastward_ramp_faces_west() {
    // Elevation rises 10 per cell to the east, so the downslope bearing
    // of every interior cell points due west.
    let mut cells = Vec::new();
    for _y in 0..5 {
        for x in 0..5i64 {
            cells.push(10 * x);
        }
    }
    let grid = ElevationGrid::new(5, 5, cells).unwrap();
    let gradients = compute_gradients(&grid);
    // Column sums of the Gx kernel are -36, -48, 0, 48, 36; against
    // elevations 0, 10, 20, 30, 40 that is 2400. The Gy kernel cancels.
    assert_eq!(gradients[2 * 5 + 2], (2400, 0));
    assert_eq!(gradients[0], (0, 0));
    let derived = compute_azimuths(&grid, &raw_bearings(&gradients));
    assert_eq!(derived.azimuths[2 * 5 + 2], Azimuth::Deg(2700));
    // Slope: floor(floor(sqrt(625 * 2400^2)) / 17) = floor(60000 / 17).
    assert_eq!(derived.gradients[2 * 5 + 2], 3529);
    // Border cells stay flat with zero slope.
    assert_eq!(derived.azimuths[1 * 5 + 1], Azimuth::Flat);
    assert_eq!(derived.gradients[1 * 5 + 1], 0);
}

#[test]
fn southward_rise_faces_north() {
    // Elevation rises with y, which points south, so downslope faces north.
    let mut cells = Vec::new();
    for y in 0..5i64 {
        for _x in 0..5 {
            cells.push(10 * y);
        }
    }
    let grid = ElevationGrid::new(5, 5, cells).unwrap();
    let gradients = compute_gradients(&grid);
    assert_eq!(gradients[2 * 5 + 2], (0, 2400));
    let derived = compute_azimuths(&grid, &raw_bearings(&gradients));
    assert_eq!(derived.azimuths[2 * 5 + 2], Azimuth::Deg(0));
}
