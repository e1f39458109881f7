use pathfinder::azimuth::calculate_azimuth;
use pathfinder::azimuth::Aspect;
use pathfinder::azimuth::Azimuth;

#[test]
fn classify_flat_azimuth() {
    assert_eq!(Aspect::from_azimuth(Azimuth::Flat), Aspect::Flat);
}

#[test]
fn classify_sector_centers() {
    assert_eq!(Aspect::from_azimuth(Azimuth::Deg(0)), Aspect::North);
    assert_eq!(Aspect::from_azimuth(Azimuth::Deg(450)), Aspect::Northeast);
    assert_eq!(Aspect::from_azimuth(Azimuth::Deg(900)), Aspect::East);
    assert_eq!(Aspect::from_azimuth(Azimuth::Deg(1350)), Aspect::Southeast);
    assert_eq!(Aspect::from_azimuth(Azimuth::Deg(1800)), Aspect::South);
    assert_eq!(Aspect::from_azimuth(Azimuth::Deg(2250)), Aspect::Southwest);
    assert_eq!(Aspect::from_azimuth(Azimuth::Deg(2700)), Aspect::West);
    assert_eq!(Aspect::from_azimuth(Azimuth::Deg(3150)), Aspect::Northwest);
}

#[test]
fn classify_sector_boundaries() {
    // Each boundary value belongs to exactly one sector, the one above it.
    assert_eq!(Aspect::from_azimuth(Azimuth::Deg(224)), Aspect::North);
    assert_eq!(Aspect::from_azimuth(Azimuth::Deg(225)), Aspect::Northeast);
    assert_eq!(Aspect::from_azimuth(Azimuth::Deg(674)), Aspect::Northeast);
    assert_eq!(Aspect::from_azimuth(Azimuth::Deg(675)), Aspect::East);
    assert_eq!(Aspect::from_azimuth(Azimuth::Deg(1125)), Aspect::Southeast);
    assert_eq!(Aspect::from_azimuth(Azimuth::Deg(1575)), Aspect::South);
    assert_eq!(Aspect::from_azimuth(Azimuth::Deg(2025)), Aspect::Southwest);
    assert_eq!(Aspect::from_azimuth(Azimuth::Deg(2475)), Aspect::West);
    assert_eq!(Aspect::from_azimuth(Azimuth::Deg(2925)), Aspect::Northwest);
    assert_eq!(Aspect::from_azimuth(Azimuth::Deg(3374)), Aspect::Northwest);
    assert_eq!(Aspect::from_azimuth(Azimuth::Deg(3375)), Aspect::North);
    assert_eq!(Aspect::from_azimuth(Azimuth::Deg(3599)), Aspect::North);
}

#[test]
fn contains_base_ranges() {
    assert!(Aspect::Northeast.contains_azimuth(Azimuth::Deg(225), None));
    assert!(Aspect::Northeast.contains_azimuth(Azimuth::Deg(675), None));
    assert!(!Aspect::Northeast.contains_azimuth(Azimuth::Deg(676), None));
    assert!(Aspect::North.contains_azimuth(Azimuth::Deg(0), None));
    assert!(Aspect::North.contains_azimuth(Azimuth::Deg(3590), None));
    assert!(!Aspect::North.contains_azimuth(Azimuth::Deg(1800), None));
    assert!(Aspect::South.contains_azimuth(Azimuth::Deg(1800), Some(0)));
}

#[test]
fn contains_with_tolerance() {
    assert!(!Aspect::East.contains_azimuth(Azimuth::Deg(650), None));
    assert!(Aspect::East.contains_azimuth(Azimuth::Deg(650), Some(25)));
    assert!(Aspect::North.contains_azimuth(Azimuth::Deg(3350), Some(25)));
    assert!(!Aspect::North.contains_azimuth(Azimuth::Deg(3350), Some(0)));
}

#[test]
fn contains_tolerance_is_monotone() {
    // Whatever tolerance 0 admits, every wider tolerance admits too.
    for tenth in [0u32, 225, 226, 674, 675, 900, 2700, 3374, 3375, 3599] {
        let az = Azimuth::Deg(tenth);
        for aspect in [
            Aspect::North,
            Aspect::Northeast,
            Aspect::East,
            Aspect::Southeast,
            Aspect::South,
            Aspect::Southwest,
            Aspect::West,
            Aspect::Northwest,
        ] {
            if aspect.contains_azimuth(az, Some(0)) {
                assert!(aspect.contains_azimuth(az, Some(25)));
                assert!(aspect.contains_azimuth(az, Some(500)));
            }
        }
    }
}

#[test]
fn flat_matches_only_flat() {
    assert!(Aspect::Flat.contains_azimuth(Azimuth::Flat, Some(1000)));
    assert!(Aspect::Flat.contains_azimuth(Azimuth::Flat, None));
    assert!(!Aspect::Flat.contains_azimuth(Azimuth::Deg(0), Some(1000)));
    assert!(!Aspect::North.contains_azimuth(Azimuth::Flat, Some(1000)));
}

#[test]
fn zero_gradient_is_flat() {
    assert_eq!(calculate_azimuth(0, 0, 900), Azimuth::Flat);
    assert_eq!(calculate_azimuth(0, 0, -900), Azimuth::Flat);
}

#[test]
fn azimuth_normalizes_into_full_turn() {
    assert_eq!(calculate_azimuth(1, 0, -900), Azimuth::Deg(2700));
    assert_eq!(calculate_azimuth(0, 1, 0), Azimuth::Deg(0));
    assert_eq!(calculate_azimuth(-1, 0, 900), Azimuth::Deg(900));
    assert_eq!(calculate_azimuth(0, -1, 1800), Azimuth::Deg(1800));
    match calculate_azimuth(3, -7, -1799) {
        Azimuth::Deg(d) => assert!(d < 3600),
        Azimuth::Flat => panic!("a nonzero gradient must carry a bearing"),
    }
}
