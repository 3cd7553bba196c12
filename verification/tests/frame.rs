use ascii_cube::frame::FrameState;
use ascii_cube::projection::ScreenPoint;

fn rows(frame: &FrameState) -> Vec<String> {
    let width = frame.width();
    frame.buffer().chunks(width).map(|row| row.iter().collect()).collect()
}

fn all_depths(frame: &FrameState) -> Vec<Option<i128>> {
    let mut held = Vec::new();
    for yp in 0..frame.height() {
        for xp in 0..frame.width() {
            held.push(frame.distance_at(xp, yp));
        }
    }
    held
}

#[test]
fn a_new_canvas_is_blank() {
    let frame = FrameState::new(4, 3).unwrap();
    assert_eq!(frame.width(), 4);
    assert_eq!(frame.height(), 3);
    assert_eq!(frame.buffer().len(), 12);
    assert_eq!(rows(&frame), vec!["    ", "    ", "    "]);
    assert_eq!(all_depths(&frame), vec![None; 12]);
}

#[test]
fn a_canvas_needs_sides_within_the_limits() {
    assert!(FrameState::new(0, 5).is_none());
    assert!(FrameState::new(5, 0).is_none());
    assert!(FrameState::new(0, 0).is_none());
    assert!(FrameState::new(1_025, 1).is_none());
    assert!(FrameState::new(1, 1_025).is_none());
    assert!(FrameState::new(usize::MAX, usize::MAX).is_none());
    assert!(FrameState::new(1, 1).is_some());
    assert!(FrameState::new(1_024, 1).is_some());
    assert!(FrameState::new(1, 1_024).is_some());
}

#[test]
fn a_point_in_front_of_the_camera_takes_an_empty_cell() {
    let mut frame = FrameState::new(4, 3).unwrap();
    frame.plot(&ScreenPoint { xp: 2, yp: 1, distance: 700 }, 'F');
    assert_eq!(rows(&frame), vec!["    ", "  F ", "    "]);
    assert_eq!(frame.char_at(2, 1), Some('F'));
    assert_eq!(frame.distance_at(2, 1), Some(700));
    assert_eq!(frame.buffer()[6], 'F');
    assert_eq!(frame.distance_at(1, 2), None);
}

#[test]
fn the_nearer_point_wins_whatever_the_order() {
    let mut frame = FrameState::new(4, 3).unwrap();
    frame.plot(&ScreenPoint { xp: 0, yp: 0, distance: 700 }, 'F');
    frame.plot(&ScreenPoint { xp: 0, yp: 0, distance: 500 }, 'K');
    assert_eq!(frame.char_at(0, 0), Some('K'));
    assert_eq!(frame.distance_at(0, 0), Some(500));

    frame.plot(&ScreenPoint { xp: 3, yp: 2, distance: 500 }, 'K');
    frame.plot(&ScreenPoint { xp: 3, yp: 2, distance: 700 }, 'F');
    assert_eq!(frame.char_at(3, 2), Some('K'));
    assert_eq!(frame.distance_at(3, 2), Some(500));
}

#[test]
fn a_point_at_the_same_distance_does_not_replace_the_one_drawn_first() {
    let mut frame = FrameState::new(4, 3).unwrap();
    frame.plot(&ScreenPoint { xp: 1, yp: 1, distance: 500 }, 'L');
    frame.plot(&ScreenPoint { xp: 1, yp: 1, distance: 500 }, 'B');
    assert_eq!(frame.char_at(1, 1), Some('L'));
}

#[test]
fn a_point_behind_the_camera_is_never_drawn() {
    let mut frame = FrameState::new(4, 3).unwrap();
    frame.plot(&ScreenPoint { xp: 1, yp: 1, distance: -500 }, 'L');
    frame.plot(&ScreenPoint { xp: 2, yp: 2, distance: 0 }, 'B');
    frame.plot(&ScreenPoint { xp: 3, yp: 0, distance: i128::MIN }, 'T');
    assert_eq!(rows(&frame), vec!["    ", "    ", "    "]);
    assert_eq!(all_depths(&frame), vec![None; 12]);

    frame.plot(&ScreenPoint { xp: 1, yp: 1, distance: 900 }, 'F');
    frame.plot(&ScreenPoint { xp: 1, yp: 1, distance: -1 }, 'K');
    assert_eq!(frame.char_at(1, 1), Some('F'));
    assert_eq!(frame.distance_at(1, 1), Some(900));
}

#[test]
fn a_point_outside_the_canvas_changes_nothing() {
    let mut frame = FrameState::new(4, 3).unwrap();
    frame.plot(&ScreenPoint { xp: 4, yp: 0, distance: 10 }, 'F');
    frame.plot(&ScreenPoint { xp: 0, yp: 3, distance: 10 }, 'F');
    frame.plot(&ScreenPoint { xp: usize::MAX, yp: usize::MAX, distance: 10 }, 'F');
    assert_eq!(rows(&frame), vec!["    ", "    ", "    "]);
}

#[test]
fn the_corners_of_the_canvas_are_cells() {
    let mut frame = FrameState::new(4, 3).unwrap();
    frame.plot(&ScreenPoint { xp: 0, yp: 0, distance: 1 }, 'K');
    frame.plot(&ScreenPoint { xp: 3, yp: 0, distance: 1 }, 'F');
    frame.plot(&ScreenPoint { xp: 0, yp: 2, distance: 1 }, 'L');
    frame.plot(&ScreenPoint { xp: 3, yp: 2, distance: i128::MAX }, 'R');
    assert_eq!(rows(&frame), vec!["K  F", "    ", "L  R"]);
}

#[test]
fn cells_outside_the_canvas_have_no_character() {
    let frame = FrameState::new(4, 3).unwrap();
    assert_eq!(frame.char_at(3, 2), Some(' '));
    assert_eq!(frame.char_at(4, 2), None);
    assert_eq!(frame.char_at(3, 3), None);
    assert_eq!(frame.distance_at(4, 0), None);
}

#[test]
fn begin_frame_wipes_everything() {
    let mut frame = FrameState::new(4, 3).unwrap();
    frame.plot(&ScreenPoint { xp: 0, yp: 0, distance: 1 }, 'K');
    frame.plot(&ScreenPoint { xp: 2, yp: 1, distance: 5 }, 'T');
    frame.begin_frame();
    assert_eq!(frame.width(), 4);
    assert_eq!(frame.height(), 3);
    assert_eq!(rows(&frame), vec!["    ", "    ", "    "]);
    assert_eq!(all_depths(&frame), vec![None; 12]);
    // After the wipe a farther point can take the cell again.
    frame.plot(&ScreenPoint { xp: 0, yp: 0, distance: 9 }, 'B');
    assert_eq!(frame.char_at(0, 0), Some('B'));
}

#[test]
fn begin_frame_twice_is_begin_frame_once() {
    let mut once = FrameState::new(5, 2).unwrap();
    once.plot(&ScreenPoint { xp: 4, yp: 1, distance: 3 }, 'R');
    let mut twice = FrameState::new(5, 2).unwrap();
    twice.plot(&ScreenPoint { xp: 4, yp: 1, distance: 3 }, 'R');

    once.begin_frame();
    twice.begin_frame();
    twice.begin_frame();
    assert_eq!(once.buffer(), twice.buffer());
    assert_eq!(all_depths(&once), all_depths(&twice));
    assert_eq!(rows(&twice), vec!["     ", "     "]);
}
