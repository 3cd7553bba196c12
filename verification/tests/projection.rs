use ascii_cube::projection::{project, ScreenPoint};

const CUBED: i128 = 1_000_000_000_000_000_000;

#[test]
fn the_origin_falls_on_the_middle_cell() {
    for (distance, scale) in [(6500, 3250), (1, 1), (100, 1_000_000), (1_000_000, -5), (700, 0)]
    {
        let p = project(0, 0, 0, distance, scale, 80, 40).unwrap();
        assert_eq!((p.xp, p.yp), (40, 20));
        assert_eq!(p.distance, distance as i128 * CUBED);
    }
}

#[test]
fn the_middle_of_a_canvas_with_odd_sides_is_rounded_down() {
    let p = project(0, 0, 0, 6500, 3250, 81, 41).unwrap();
    assert_eq!(p, ScreenPoint { xp: 40, yp: 20, distance: 6_500_000_000_000_000_000_000 });
    let q = project(0, 0, 0, 300, 77, 1, 1).unwrap();
    assert_eq!((q.xp, q.yp), (0, 0));
}

#[test]
fn a_point_at_effective_distance_zero_is_dropped() {
    assert_eq!(project(0, 0, 100 * CUBED, 100, 100, 80, 40), None);
    assert_eq!(project(5 * CUBED, -3 * CUBED, 0, 0, 3250, 80, 40), None);
    assert_eq!(project(0, 0, -6500 * CUBED, -6500, 3250, 80, 40), None);
}

#[test]
fn a_point_behind_the_camera_keeps_its_negative_distance() {
    let p = project(500 * CUBED, 300 * CUBED, 200 * CUBED, 100, 100, 80, 40).unwrap();
    assert_eq!(p, ScreenPoint { xp: 30, yp: 23, distance: -100_000_000_000_000_000_000 });
}

#[test]
fn the_formula_gives_the_exact_cell() {
    // width/2 + (32.5) * (x/e) * 2 and height/2 - 32.5 * (y/e), with e = 65 - 12.
    let p = project(-1200 * CUBED, -1200 * CUBED, 1200 * CUBED, 6500, 3250, 80, 40).unwrap();
    assert_eq!(p, ScreenPoint { xp: 25, yp: 27, distance: 5_300_000_000_000_000_000_000 });
    let q = project(1140 * CUBED, 1140 * CUBED, -1200 * CUBED, 6500, 3250, 80, 40).unwrap();
    assert_eq!(q, ScreenPoint { xp: 50, yp: 15, distance: 7_700_000_000_000_000_000_000 });
    let r = project(
        609_788_238_196_548_400_000,
        -203_057_353_632_000_000_000,
        294_832_267_946_400_000_000,
        6500,
        3250,
        80,
        40,
    )
    .unwrap();
    assert_eq!(r, ScreenPoint { xp: 46, yp: 21, distance: 6_205_167_732_053_600_000_000 });
}

#[test]
fn the_last_column_is_kept_and_the_one_beyond_is_dropped() {
    // With distance 1 and scale 1 on 80 by 40 the column is 40 + 2x.
    let kept = project(1950 * CUBED, 0, 0, 100, 100, 80, 40).unwrap();
    assert_eq!((kept.xp, kept.yp), (79, 20));
    assert_eq!(project(2000 * CUBED, 0, 0, 100, 100, 80, 40), None);
    assert_eq!(project(2050 * CUBED, 0, 0, 100, 100, 80, 40), None);
}

#[test]
fn the_first_column_is_kept_and_the_one_before_is_dropped() {
    let kept = project(-2000 * CUBED, 0, 0, 100, 100, 80, 40).unwrap();
    assert_eq!((kept.xp, kept.yp), (0, 20));
    assert_eq!(project(-2050 * CUBED, 0, 0, 100, 100, 80, 40), None);
    assert_eq!(project(-2100 * CUBED, 0, 0, 100, 100, 80, 40), None);
}

#[test]
fn the_first_row_is_kept_and_the_one_before_is_dropped() {
    // The row is 20 - y: a point higher up has the smaller row.
    let kept = project(0, 2000 * CUBED, 0, 100, 100, 80, 40).unwrap();
    assert_eq!((kept.xp, kept.yp), (40, 0));
    assert_eq!(project(0, 2100 * CUBED, 0, 100, 100, 80, 40), None);
}

#[test]
fn the_last_row_is_kept_and_the_one_beyond_is_dropped() {
    let kept = project(0, -1900 * CUBED, 0, 100, 100, 80, 40).unwrap();
    assert_eq!((kept.xp, kept.yp), (40, 39));
    assert_eq!(project(0, -2000 * CUBED, 0, 100, 100, 80, 40), None);
}

#[test]
fn a_position_is_rounded_to_the_nearest_cell() {
    // Column 40 + 2x: 79.48 goes to 79, 79.52 goes to 80 and is dropped.
    let below = project(1974 * CUBED, 0, 0, 100, 100, 80, 40).unwrap();
    assert_eq!(below.xp, 79);
    assert_eq!(project(1976 * CUBED, 0, 0, 100, 100, 80, 40), None);
    // Column -0.48 goes to 0, column -0.52 goes to -1 and is dropped.
    let above = project(-2024 * CUBED, 0, 0, 100, 100, 80, 40).unwrap();
    assert_eq!(above.xp, 0);
    assert_eq!(project(-2026 * CUBED, 0, 0, 100, 100, 80, 40), None);
    // Row 20 - y: 0.51 goes to 1, 0.5 goes down to 0.
    assert_eq!(project(0, 1949 * CUBED, 0, 100, 100, 80, 40).unwrap().yp, 1);
    assert_eq!(project(0, 1950 * CUBED, 0, 100, 100, 80, 40).unwrap().yp, 0);
}

#[test]
fn halfway_between_two_cells_goes_to_the_lower() {
    assert_eq!(project(1975 * CUBED, 0, 0, 100, 100, 80, 40).unwrap().xp, 79);
    assert_eq!(project(-2025 * CUBED, 0, 0, 100, 100, 80, 40), None);
    assert_eq!(project(0, -1950 * CUBED, 0, 100, 100, 80, 40).unwrap().yp, 39);
    assert_eq!(project(0, 2050 * CUBED, 0, 100, 100, 80, 40), None);
}

#[test]
fn the_largest_projection_inputs_do_not_overflow() {
    let limit: i128 = 5 * 2_147_483_648 * CUBED;
    assert_eq!(project(limit, limit, limit, 1_000_000, 1_000_000, 1_024, 1_024), None);
    assert_eq!(project(-limit, -limit, -limit, -1_000_000, -1_000_000, 1_024, 1_024), None);
    let p = project(limit, -limit, -limit, 1_000_000, 1, 1_024, 1_024).unwrap();
    assert_eq!((p.xp, p.yp), (512, 512));
    assert_eq!(p.distance, 1_000_000 * CUBED + limit);
}
