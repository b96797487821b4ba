use coverage_sim::collision::is_grid_edge;
use coverage_sim::geometry::cell_index_of;
use coverage_sim::geometry::cells_spanned_by;
use coverage_sim::geometry::clamp_to_coordinate;
use coverage_sim::geometry::is_circle_in_grid;
use coverage_sim::geometry::isqrt_of;
use coverage_sim::model::boundingbox::BoundingBox;
use coverage_sim::vector::displacement;
use coverage_sim::vector::drift;
use coverage_sim::vector::normalize;
use coverage_sim::vector::Vector;
use coverage_sim::vector::DIR_SCALE;

#[test]
fn vector_arithmetic() {
    let a = Vector::new(3, -4);
    let b = Vector::new(10, 20);
    assert_eq!(a.x, 3);
    assert_eq!(a.y, -4);
    assert_eq!(a + b, Vector::new(13, 16));
    assert_eq!(a - b, Vector::new(-7, -24));
    assert_eq!(a * -3, Vector::new(-9, 12));
    assert_eq!(-a, Vector::new(-3, 4));
    assert_eq!(-(-a), a);
    let mut c = a;
    c += b;
    c += b;
    assert_eq!(c, Vector::new(23, 36));
}

#[test]
fn integer_square_root_rounds_down() {
    assert_eq!(isqrt_of(0), 0);
    assert_eq!(isqrt_of(1), 1);
    assert_eq!(isqrt_of(3), 1);
    assert_eq!(isqrt_of(4), 2);
    assert_eq!(isqrt_of(99), 9);
    assert_eq!(isqrt_of(100), 10);
    assert_eq!(isqrt_of(1 << 60), 1 << 30);
    assert_eq!(isqrt_of((1 << 60) - 1), (1 << 30) - 1);
    assert_eq!(isqrt_of(12_345_678_987_654_321), 111_111_111);
}

#[test]
fn cells_and_spans() {
    assert_eq!(cell_index_of(0, 7), 0);
    assert_eq!(cell_index_of(6, 7), 0);
    assert_eq!(cell_index_of(7, 7), 1);
    assert_eq!(cell_index_of(-7, 7), 0);
    assert_eq!(cells_spanned_by(0, 7), 0);
    assert_eq!(cells_spanned_by(1, 7), 1);
    assert_eq!(cells_spanned_by(7, 7), 1);
    assert_eq!(cells_spanned_by(8, 7), 2);
    assert_eq!(cells_spanned_by(-8, 7), 0);
    assert_eq!(clamp_to_coordinate(5), 5);
    assert_eq!(clamp_to_coordinate(i64::MAX), i32::MAX);
    assert_eq!(clamp_to_coordinate(-3_000_000_000), i32::MIN);
}

#[test]
fn normalize_scales_to_unit_length() {
    // (3, 4) / 5
    assert_eq!(normalize(3, 4), Vector::new(644_245_094, 858_993_459));
    assert_eq!(normalize(-30, 40), Vector::new(-644_245_094, 858_993_459));
    assert_eq!(normalize(7, 0), Vector::new(DIR_SCALE, 0));
    assert_eq!(normalize(0, -2), Vector::new(0, -DIR_SCALE));
    assert_eq!(normalize(0, 0), Vector::new(0, 0));
    // short vectors lose no precision
    assert_eq!(normalize(1, 1), Vector::new(759_250_125, 759_250_125));
    assert_eq!(normalize(1, 2), Vector::new(480_191_941, 960_383_883));
    let diagonal = normalize(DIR_SCALE as i64, DIR_SCALE as i64);
    assert_eq!(diagonal, Vector::new(759_250_124, 759_250_124));
}

#[test]
fn drift_turns_by_a_small_angle() {
    // heading along x, angle 1 / 100: (1, 1 / 100) scaled to unit length
    let turned = drift(Vector::new(DIR_SCALE, 0), 1, 100);
    assert_eq!(turned, Vector::new(1_073_688_140, 10_736_881));
    // a negative radius turns the other way
    let other = drift(Vector::new(DIR_SCALE, 0), 1, -100);
    assert_eq!(other, Vector::new(1_073_688_140, -10_736_881));
    // heading along y the turn goes towards negative x
    let up = drift(Vector::new(0, DIR_SCALE), 1, 100);
    assert_eq!(up, Vector::new(-10_736_881, 1_073_688_140));
    // no step, no turn
    assert_eq!(drift(Vector::new(DIR_SCALE, 0), 0, 5), Vector::new(DIR_SCALE, 0));
}

#[test]
fn displacement_is_the_direction_times_the_step() {
    assert_eq!(displacement(Vector::new(DIR_SCALE, 0), 500), Vector::new(500, 0));
    assert_eq!(displacement(Vector::new(0, -DIR_SCALE), 500), Vector::new(0, -500));
    assert_eq!(displacement(Vector::new(644_245_094, 858_993_459), 1000), Vector::new(599, 799));
    assert_eq!(displacement(Vector::new(-644_245_094, -858_993_459), 1000), Vector::new(-599, -799));
    assert_eq!(displacement(Vector::new(DIR_SCALE, DIR_SCALE), 0), Vector::new(0, 0));
}

#[test]
fn bounding_box_keeps_the_radius_from_the_edges() {
    let bb = BoundingBox::init(1000, 600, 150);
    assert_eq!(bb, BoundingBox::new(150, 850, 150, 450));
    assert_eq!(bb.limit_x(149), 150);
    assert_eq!(bb.limit_x(150), 150);
    assert_eq!(bb.limit_x(500), 500);
    assert_eq!(bb.limit_x(851), 850);
    assert_eq!(bb.limit_y(-70), 150);
    assert_eq!(bb.limit_y(451), 450);
    assert_eq!(bb.limit(0, 1000), (150, 450));
    // in an empty box the upper limit wins
    let empty = BoundingBox::init(100, 100, 80);
    assert_eq!(empty.limit_x(50), 20);
}

#[test]
fn boundary_check_reflects_the_direction() {
    let bb = BoundingBox::init(1000, 1000, 100);
    let mut dir = Vector::new(600, -800);
    assert!(!is_grid_edge(&Vector::new(100, 900), &bb, &mut dir));
    assert_eq!(dir, Vector::new(600, -800));
    assert!(is_grid_edge(&Vector::new(901, 500), &bb, &mut dir));
    assert_eq!(dir, Vector::new(-600, -800));
    assert!(is_grid_edge(&Vector::new(500, 99), &bb, &mut dir));
    assert_eq!(dir, Vector::new(-600, 800));
    // in a corner both components are reflected
    assert!(is_grid_edge(&Vector::new(99, 901), &bb, &mut dir));
    assert_eq!(dir, Vector::new(600, -800));
}

#[test]
fn a_circle_that_touches_the_area_is_in_it() {
    assert!(is_circle_in_grid(50, 50, 10, 0, 0, 100, 100));
    assert!(is_circle_in_grid(-10, 50, 10, 0, 0, 100, 100));
    assert!(!is_circle_in_grid(-11, 50, 10, 0, 0, 100, 100));
    assert!(is_circle_in_grid(110, 110, 10, 0, 0, 100, 100));
    assert!(!is_circle_in_grid(110, 111, 10, 0, 0, 100, 100));
    assert!(!is_circle_in_grid(50, -11, 10, 0, 0, 100, 100));
    assert!(is_circle_in_grid(i32::MAX, i32::MAX, i32::MAX, 0, 0, 100, 100));
}
