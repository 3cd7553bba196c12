use ascii_cube::constants::{CANVAS_HEIGHT, CANVAS_WIDTH, HALF_CUBE_WIDTH};
use ascii_cube::cube_parameters::CubeParameters;
use ascii_cube::frame::FrameState;
use ascii_cube::rendering::{calculate_for_surface, draw_cube};
use ascii_cube::rotation::Orientation;

fn rows(frame: &FrameState) -> Vec<String> {
    let width = frame.width();
    frame.buffer().chunks(width).map(|row| row.iter().collect()).collect()
}

fn all_depths(frame: &FrameState) -> Vec<Option<i128>> {
    let mut held = Vec::new();
    for yp in 0..frame.height() {
        for xp in 0..frame.width() {
            held.push(frame.distance_at(xp, yp));
        }
    }
    held
}

fn parameters(distance: i64, scale: i64, step: i64) -> CubeParameters {
    CubeParameters {
        distance_from_camera: distance,
        projection_scale: scale,
        resolution_step: step,
        ..CubeParameters::new()
    }
}

/// The sines and cosines of 30, 20 and 10 degrees.
fn tilted() -> Orientation {
    Orientation::new(500_000, 866_025, 342_020, 939_693, 173_648, 984_808).unwrap()
}

/// The grid values from minus the half width up to the half width.
fn grid(half_width: i32, step: i32) -> Vec<i32> {
    let mut values = Vec::new();
    let mut v = -half_width;
    while v < half_width {
        values.push(v);
        v += step;
    }
    values
}

/// Draws the cube sample by sample with the faces in the given order.
fn draw_in_order(
    frame: &mut FrameState,
    half_width: i32,
    step: i32,
    distance: i64,
    scale: i64,
    orientation: &Orientation,
    order: [usize; 6],
) {
    let h = half_width;
    for a in grid(h, step) {
        for b in grid(h, step) {
            let faces = [
                (a, b, -h, 'K'),
                (a, b, h, 'F'),
                (-h, b, a, 'L'),
                (h, b, a, 'R'),
                (a, -h, b, 'B'),
                (a, h, b, 'T'),
            ];
            for n in order {
                let (x, y, z, tag) = faces[n];
                calculate_for_surface(x, y, z, tag, frame, orientation, distance, scale);
            }
        }
    }
}

#[test]
fn one_sample_takes_the_cell_it_falls_on() {
    let mut frame = FrameState::new(80, 40).unwrap();
    let o = Orientation::identity();
    calculate_for_surface(-1200, -1200, 1200, 'F', &mut frame, &o, 6500, 3250);
    assert_eq!(frame.char_at(25, 27), Some('F'));
    assert_eq!(frame.distance_at(25, 27), Some(5_300_000_000_000_000_000_000));
    let drawn: usize = frame.buffer().iter().filter(|ch| **ch != ' ').count();
    assert_eq!(drawn, 1);

    calculate_for_surface(300, -400, 500, 'T', &mut frame, &tilted(), 6500, 3250);
    assert_eq!(frame.char_at(46, 21), Some('T'));
    assert_eq!(frame.distance_at(46, 21), Some(6_205_167_732_053_600_000_000));
}

#[test]
fn a_sample_at_the_camera_or_off_the_canvas_is_dropped() {
    let mut frame = FrameState::new(80, 40).unwrap();
    let o = Orientation::identity();
    // Effective distance zero: the camera distance equals the sample's z.
    calculate_for_surface(0, 0, 1200, 'F', &mut frame, &o, 1200, 3250);
    // Far off to the right.
    calculate_for_surface(30_000, 0, 0, 'R', &mut frame, &o, 6500, 3250);
    // Behind the camera.
    calculate_for_surface(0, 0, 1200, 'F', &mut frame, &o, 600, 3250);
    assert!(frame.buffer().iter().all(|ch| *ch == ' '));
    assert!(all_depths(&frame).iter().all(|held| held.is_none()));
}

#[test]
fn the_cube_seen_from_the_front_shows_its_front_face() {
    let mut frame = FrameState::new(CANVAS_WIDTH, CANVAS_HEIGHT).unwrap();
    draw_cube(&mut frame, HALF_CUBE_WIDTH, &CubeParameters::new(), &Orientation::identity());
    let blank = " ".repeat(80);
    let face = format!("{}{}R{}", " ".repeat(25), "F".repeat(30), " ".repeat(24));
    let shown = rows(&frame);
    for (n, row) in shown.iter().enumerate() {
        if (13..=27).contains(&n) {
            assert_eq!(row, &face);
        } else {
            assert_eq!(row, &blank);
        }
    }
    assert_eq!(frame.distance_at(40, 20), Some(5_300_000_000_000_000_000_000));
}

#[test]
fn the_tilted_cube_shows_three_faces() {
    let mut frame = FrameState::new(80, 40).unwrap();
    draw_cube(&mut frame, 1200, &CubeParameters::new(), &tilted());
    let expected = vec![
        "                                              TTFFFF                            ",
        "                                          TTFFFFFFFFR                           ",
        "                                      TTFFFFFFFFFFFFFF                          ",
        "                                  TTFFFFFFFFFFFFFFFFFF                          ",
        "                              TTFFFFFFFFFFFFFFFFFFFFFFF                         ",
        "                          TTFFFFFFFFFFFFFFFFFFFFFFFFFFFF                        ",
        "                       TTTFFFFFFFFFFFFFFFFFFFFFFFFFFFFFFF                       ",
        "                      TLLLLFFFFFFFFFFFFFFFFFFFFFFFFFFFFFFF                      ",
        "                       LLLLLFFFFFFFFFFFFFFFFFFFFFFFFFFFFFFF                     ",
        "                        LLLLLFFFFFFFFFFFFFFFFFFFFFFFFFFFFFFF                    ",
        "                         LLLLLFFFFFFFFFFFFFFFFFFFFFFFFFFFFFFF                   ",
        "                          LLLLLFFFFFFFFFFFFFFFFFFFFFFFFFFFFFFF                  ",
        "                           LLLLLFFFFFFFFFFFFFFFFFFFFFFFFFFFFFF                  ",
        "                            LLLLLFFFFFFFFFFFFFFFFFFFFFFFFFF                     ",
        "                             LLLLLFFFFFFFFFFFFFFFFFFFFFFF                       ",
        "                              LLLLLFFFFFFFFFFFFFFFFFF                           ",
        "                               LLLLLFFFFFFFFFFFFFFF                             ",
        "                                 LLLLFFFFFFFFFFF                                ",
        "                                    LLLFFFFFF                                   ",
        "                                       LFF                                      ",
    ];
    let shown = rows(&frame);
    let blank = " ".repeat(80);
    for (n, row) in shown.iter().enumerate() {
        if (11..31).contains(&n) {
            assert_eq!(row, expected[n - 11]);
        } else {
            assert_eq!(row, &blank);
        }
    }
}

#[test]
fn a_small_canvas_with_a_coarse_grid_shows_all_six_faces() {
    // Canvas 10 by 10, half width 5, step 5, no turn, distance 20, scale 7.5.
    let mut frame = FrameState::new(10, 10).unwrap();
    draw_cube(&mut frame, 500, &parameters(2000, 750, 500), &Orientation::identity());
    assert_eq!(
        rows(&frame),
        vec![
            "          ",
            "          ",
            "          ",
            "   T T    ",
            "          ",
            "  FL FRR  ",
            "   K KR   ",
            "  FB F R  ",
            "          ",
            "          ",
        ]
    );
    for tag in ['F', 'K', 'L', 'R', 'T', 'B'] {
        assert!(frame.buffer().iter().any(|ch| *ch == tag));
    }
    for ch in frame.buffer() {
        assert!([' ', 'F', 'K', 'L', 'R', 'T', 'B'].contains(ch));
    }
    // The front face is the nearest, the back face the farthest.
    assert_eq!(frame.distance_at(2, 5), Some(1_500_000_000_000_000_000_000));
    assert_eq!(frame.distance_at(3, 5), Some(2_000_000_000_000_000_000_000));
    assert_eq!(frame.distance_at(3, 6), Some(2_500_000_000_000_000_000_000));
}

#[test]
fn from_far_away_the_whole_cube_falls_on_the_middle_cell() {
    // Distance 1000, scale 1: every sample lands on the middle cell, and the
    // front face, which is the nearest, is the one that shows.
    let mut frame = FrameState::new(10, 10).unwrap();
    draw_cube(&mut frame, 500, &parameters(100_000, 100, 500), &Orientation::identity());
    let drawn: Vec<usize> =
        (0..100).filter(|k| frame.buffer()[*k] != ' ').collect();
    assert_eq!(drawn, vec![55]);
    assert_eq!(frame.char_at(5, 5), Some('F'));
    assert_eq!(frame.distance_at(5, 5), Some(99_500_000_000_000_000_000_000));
}

#[test]
fn the_order_of_the_faces_does_not_show() {
    let o = tilted();
    let mut usual = FrameState::new(20, 10).unwrap();
    draw_cube(&mut usual, 500, &parameters(2500, 1250, 50), &o);
    assert_eq!(
        rows(&usual),
        vec![
            "                    ",
            "            TTF     ",
            "        TTFFFFFF    ",
            "    TTFFFFFFFFFFF   ",
            "  TTFFFFFFFFFFFFFF  ",
            "   LLFFFFFFFFFFFFFF ",
            "    LLFFFFFFFFFFFFFF",
            "     LLFFFFFFFFFFF  ",
            "      LLFFFFFFFF    ",
            "        BFFFF       ",
        ]
    );
    for order in [[0, 1, 2, 3, 4, 5], [5, 4, 3, 2, 1, 0], [3, 1, 4, 0, 5, 2], [1, 0, 3, 2, 5, 4]] {
        let mut other = FrameState::new(20, 10).unwrap();
        draw_in_order(&mut other, 500, 50, 2500, 1250, &o, order);
        assert_eq!(other.buffer(), usual.buffer());
        assert_eq!(all_depths(&other), all_depths(&usual));
    }
}

#[test]
fn of_two_faces_that_tie_on_an_edge_the_one_drawn_first_stays() {
    // Turned by half a turn about the y axis the back face looks at the
    // camera; it shares its right edge on the screen with the left face.
    let o = Orientation::new(0, 1_000_000, 0, -1_000_000, 0, 1_000_000).unwrap();
    let mut frame = FrameState::new(20, 10).unwrap();
    draw_cube(&mut frame, 500, &parameters(2500, 1250, 100), &o);
    assert_eq!(
        rows(&frame),
        vec![
            "                    ",
            "                    ",
            "    RTTTTTTTTTTTT   ",
            "    RKKKTKKKKTKKK   ",
            "    RKKKFKKKKFKKK   ",
            "    RKKKFKKKKFKKK   ",
            "    RKKKFKKKKFKKK   ",
            "    RKKKBKKKKBKKK   ",
            "    RKKKBKKKKBKKK   ",
            "                    ",
        ]
    );
    let mut reversed = FrameState::new(20, 10).unwrap();
    draw_in_order(&mut reversed, 500, 100, 2500, 1250, &o, [5, 4, 3, 2, 1, 0]);
    assert_eq!(reversed.char_at(16, 4), Some('L'));
    assert_eq!(frame.char_at(16, 4), Some('K'));
    assert_eq!(all_depths(&reversed), all_depths(&frame));
}

#[test]
fn a_step_that_is_too_large_leaves_gaps() {
    let mut coarse = FrameState::new(80, 40).unwrap();
    draw_cube(&mut coarse, 1200, &parameters(6500, 3250, 300), &Orientation::identity());
    let shown = rows(&coarse);
    assert_eq!(
        shown[14],
        "                         F TTF T FT FT  F  TF TF T F                            "
    );
    assert_eq!(
        shown[18],
        "                         FLLLF   F  F   F   F  F   FRRR                         "
    );
    // Inside the outline of the front face some cells stay empty.
    assert_eq!(coarse.char_at(29, 18), Some('F'));
    assert_eq!(coarse.char_at(30, 18), Some(' '));
    assert_eq!(coarse.distance_at(30, 18), None);

    let mut fine = FrameState::new(80, 40).unwrap();
    draw_cube(&mut fine, 1200, &parameters(6500, 3250, 60), &Orientation::identity());
    assert_eq!(fine.char_at(30, 18), Some('F'));
}

#[test]
fn a_step_of_zero_or_less_counts_as_the_smallest_step() {
    let mut smallest = FrameState::new(20, 10).unwrap();
    draw_cube(&mut smallest, 50, &parameters(2500, 1250, 5), &Orientation::identity());
    assert_eq!(rows(&smallest)[5], "         FFR        ");

    for step in [0, -1, 4, -60, i64::MIN] {
        let mut frame = FrameState::new(20, 10).unwrap();
        draw_cube(&mut frame, 50, &parameters(2500, 1250, step), &Orientation::identity());
        assert_eq!(frame.buffer(), smallest.buffer());
        assert_eq!(all_depths(&frame), all_depths(&smallest));
    }
}

#[test]
fn parameters_beyond_their_range_count_as_the_end_of_the_range() {
    let o = tilted();
    let mut at_limit = FrameState::new(20, 10).unwrap();
    draw_cube(&mut at_limit, 500, &parameters(1_000_000, 1_000_000, 100), &o);
    let mut beyond = FrameState::new(20, 10).unwrap();
    draw_cube(&mut beyond, 500, &parameters(i64::MAX, i64::MAX, 100), &o);
    assert_eq!(beyond.buffer(), at_limit.buffer());
    assert_eq!(all_depths(&beyond), all_depths(&at_limit));
}

#[test]
fn a_cube_without_width_has_no_samples() {
    for half_width in [0, -1, -1200, i32::MIN] {
        let mut frame = FrameState::new(20, 10).unwrap();
        draw_cube(&mut frame, half_width, &CubeParameters::new(), &Orientation::identity());
        assert!(frame.buffer().iter().all(|ch| *ch == ' '));
    }
}

#[test]
fn drawing_keeps_what_is_nearer_on_the_canvas() {
    let mut frame = FrameState::new(80, 40).unwrap();
    // Something very near sits in the middle before the cube is drawn.
    calculate_for_surface(0, 0, 6400, '_', &mut frame, &Orientation::identity(), 6500, 3250);
    assert_eq!(frame.char_at(40, 20), Some('_'));
    draw_cube(&mut frame, 1200, &CubeParameters::new(), &Orientation::identity());
    assert_eq!(frame.char_at(40, 20), Some('_'));
    assert_eq!(frame.char_at(41, 20), Some('F'));
}

#[test]
fn the_angles_of_the_parameters_do_not_turn_the_cube_by_themselves() {
    let mut plain = FrameState::new(20, 10).unwrap();
    draw_cube(&mut plain, 500, &parameters(2500, 1250, 100), &tilted());
    let mut p = parameters(2500, 1250, 100);
    p.alpha = 9000;
    p.beta = -4500;
    p.gamma = 100;
    p.auto_alpha = 100;
    let mut other = FrameState::new(20, 10).unwrap();
    draw_cube(&mut other, 500, &p, &tilted());
    assert_eq!(other.buffer(), plain.buffer());
}
