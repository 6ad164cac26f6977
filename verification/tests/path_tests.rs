//! Path construction and interpolation, with coordinates in thousandths of a
//! tile side.

use sabotage_core::path::{path_of_level_n, Path, Vec2i};

fn pt(x: i64, y: i64) -> Vec2i {
    Vec2i { x, y }
}

#[test]
fn test_path_length() {
    let path = Path::from_points(vec![pt(0, 0), pt(2_000, 0)]);
    assert_eq!(path.length, 2_000);
}

#[test]
fn test_path_segments() {
    let path = Path::from_points(vec![pt(0, 0), pt(2_000, 0), pt(2_000, 4_000)]);
    assert_eq!(path.segments, vec![2_000, 4_000]);
    assert_eq!(path.combined, vec![2_000, 6_000]);
}

#[test]
fn test_path_position() {
    let path = Path::from_points(vec![pt(1_000, 0), pt(2_000, 0), pt(2_000, 4_000)]);
    assert_eq!(path.pos(-1_000), None);
    assert_eq!(path.pos(0), Some(pt(1_000, 0)));
    assert_eq!(path.pos(500), Some(pt(1_500, 0)));
    assert_eq!(path.pos(2_000), Some(pt(2_000, 1_000)));
    assert_eq!(path.pos(5_000), Some(pt(2_000, 4_000)));
}

#[test]
fn test_path_some() {
    let path = Path::from_points(vec![pt(1_000, 0), pt(2_000, 0), pt(2_000, 4_000)]);
    for i in 0..100000i64 {
        assert_ne!(path.pos(path.length * i / 100000), None);
    }
}

#[test]
fn path_end_is_reached_exactly_at_total_length() {
    let path = Path::from_points(vec![pt(0, 0), pt(3_000, 0)]);
    assert!(!path.drone_won(2_999));
    assert!(path.drone_won(3_000));
    assert!(path.drone_won(10_000));
}

#[test]
fn single_point_path_clamps_everywhere() {
    let path = Path::from_points(vec![pt(5_000, 7_000)]);
    assert_eq!(path.length, 0);
    assert_eq!(path.pos(0), Some(pt(5_000, 7_000)));
    assert_eq!(path.pos(123), Some(pt(5_000, 7_000)));
    assert_eq!(path.pos(-1), None);
}

#[test]
fn authored_paths_build() {
    for level in 0..=7u8 {
        let points = path_of_level_n(level);
        assert!(points.len() >= 2);
        let path = Path::from_points(points);
        assert!(path.length > 0);
        assert_ne!(path.pos(0), None);
        assert_ne!(path.pos(path.length), None);
    }
}
