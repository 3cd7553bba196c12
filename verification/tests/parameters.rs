use ascii_cube::cube_actions::{key_to_action, process_input, Control, CubeAction, Key};
use ascii_cube::cube_parameters::CubeParameters;

fn all_actions() -> Vec<CubeAction> {
    vec![
        CubeAction::ToggleAutoAlpha,
        CubeAction::IncreaseAlpha,
        CubeAction::DecreaseAlpha,
        CubeAction::ToggleAutoBeta,
        CubeAction::IncreaseBeta,
        CubeAction::DecreaseBeta,
        CubeAction::ToggleAutoGamma,
        CubeAction::IncreaseGamma,
        CubeAction::DecreaseGamma,
        CubeAction::IncreaseDistanceFromCamera,
        CubeAction::DecreaseDistanceFromCamera,
        CubeAction::IncreaseProjectionScale,
        CubeAction::DecreaseProjectionScale,
        CubeAction::IncreaseResolutionStep,
        CubeAction::DecreaseResolutionStep,
        CubeAction::Reset,
        CubeAction::Quit,
    ]
}

fn sample_parameters() -> CubeParameters {
    CubeParameters {
        alpha: 1000,
        beta: -2000,
        gamma: 3000,
        auto_alpha: 100,
        auto_beta: 0,
        auto_gamma: 100,
        distance_from_camera: 7000,
        projection_scale: 4000,
        resolution_step: 80,
    }
}

#[test]
fn new_parameters_hold_the_defaults() {
    let p = CubeParameters::new();
    assert_eq!(
        p,
        CubeParameters {
            alpha: 0,
            beta: 0,
            gamma: 0,
            auto_alpha: 0,
            auto_beta: 0,
            auto_gamma: 0,
            distance_from_camera: 6500,
            projection_scale: 3250,
            resolution_step: 60,
        }
    );
    assert!(p.is_wf());
}

#[test]
fn each_increase_and_decrease_adds_its_fixed_step() {
    let start = sample_parameters();

    let mut p = start;
    assert_eq!(p.apply_action(CubeAction::IncreaseAlpha), Control::Continue);
    assert_eq!(p, CubeParameters { alpha: 1250, ..start });
    let mut p = start;
    p.apply_action(CubeAction::DecreaseAlpha);
    assert_eq!(p, CubeParameters { alpha: 500, ..start });

    let mut p = start;
    p.apply_action(CubeAction::IncreaseBeta);
    assert_eq!(p, CubeParameters { beta: -1750, ..start });
    let mut p = start;
    p.apply_action(CubeAction::DecreaseBeta);
    assert_eq!(p, CubeParameters { beta: -2500, ..start });

    let mut p = start;
    p.apply_action(CubeAction::IncreaseGamma);
    assert_eq!(p, CubeParameters { gamma: 3250, ..start });
    let mut p = start;
    p.apply_action(CubeAction::DecreaseGamma);
    assert_eq!(p, CubeParameters { gamma: 2500, ..start });

    let mut p = start;
    p.apply_action(CubeAction::IncreaseDistanceFromCamera);
    assert_eq!(p, CubeParameters { distance_from_camera: 7150, ..start });
    let mut p = start;
    p.apply_action(CubeAction::DecreaseDistanceFromCamera);
    assert_eq!(p, CubeParameters { distance_from_camera: 6900, ..start });

    let mut p = start;
    p.apply_action(CubeAction::IncreaseProjectionScale);
    assert_eq!(p, CubeParameters { projection_scale: 4150, ..start });
    let mut p = start;
    p.apply_action(CubeAction::DecreaseProjectionScale);
    assert_eq!(p, CubeParameters { projection_scale: 3900, ..start });

    let mut p = start;
    p.apply_action(CubeAction::IncreaseResolutionStep);
    assert_eq!(p, CubeParameters { resolution_step: 90, ..start });
    let mut p = start;
    p.apply_action(CubeAction::DecreaseResolutionStep);
    assert_eq!(p, CubeParameters { resolution_step: 70, ..start });
}

#[test]
fn toggles_flip_between_zero_and_one() {
    let start = sample_parameters();

    let mut p = start;
    p.apply_action(CubeAction::ToggleAutoAlpha);
    assert_eq!(p, CubeParameters { auto_alpha: 0, ..start });
    p.apply_action(CubeAction::ToggleAutoAlpha);
    assert_eq!(p, start);

    let mut p = start;
    p.apply_action(CubeAction::ToggleAutoBeta);
    assert_eq!(p, CubeParameters { auto_beta: 100, ..start });

    let mut p = start;
    p.apply_action(CubeAction::ToggleAutoGamma);
    assert_eq!(p, CubeParameters { auto_gamma: 0, ..start });
}

#[test]
fn toggle_of_a_flag_set_by_hand_gives_one_minus_it() {
    let mut p = CubeParameters::new();
    p.auto_beta = 25;
    p.apply_action(CubeAction::ToggleAutoBeta);
    assert_eq!(p.auto_beta, 75);
    p.auto_gamma = 300;
    p.apply_action(CubeAction::ToggleAutoGamma);
    assert_eq!(p.auto_gamma, -200);
}

#[test]
fn reset_gives_the_defaults_after_any_history() {
    let mut p = sample_parameters();
    for action in all_actions() {
        if action != CubeAction::Reset {
            p.apply_action(action);
        }
    }
    assert_ne!(p, CubeParameters::new());
    assert_eq!(p.apply_action(CubeAction::Reset), Control::Continue);
    assert_eq!(p, CubeParameters::new());

    let mut wild = CubeParameters {
        alpha: i64::MAX,
        beta: i64::MIN,
        gamma: 7,
        auto_alpha: -5,
        auto_beta: 12,
        auto_gamma: i64::MAX,
        distance_from_camera: 0,
        projection_scale: -1,
        resolution_step: -100,
    };
    wild.apply_action(CubeAction::Reset);
    assert_eq!(wild, CubeParameters::new());

    let mut direct = sample_parameters();
    direct.reset();
    assert_eq!(direct, CubeParameters::new());
}

#[test]
fn quit_asks_to_stop_and_changes_nothing() {
    let mut p = sample_parameters();
    assert_eq!(p.apply_action(CubeAction::Quit), Control::Stop);
    assert_eq!(p, sample_parameters());
}

#[test]
fn only_quit_stops_the_loop() {
    for action in all_actions() {
        let mut p = sample_parameters();
        let control = p.apply_action(action);
        if action == CubeAction::Quit {
            assert_eq!(control, Control::Stop);
        } else {
            assert_eq!(control, Control::Continue);
        }
    }
}

#[test]
fn resolution_step_never_falls_below_its_minimum() {
    let mut p = CubeParameters::new();
    let mut seen = Vec::new();
    for _ in 0..8 {
        p.apply_action(CubeAction::DecreaseResolutionStep);
        seen.push(p.resolution_step);
    }
    assert_eq!(seen, vec![50, 40, 30, 20, 10, 5, 5, 5]);
    p.apply_action(CubeAction::IncreaseResolutionStep);
    assert_eq!(p.resolution_step, 15);
}

#[test]
fn distance_scale_and_step_stop_at_the_end_of_their_range() {
    let mut p = CubeParameters::new();
    p.distance_from_camera = 999_900;
    p.apply_action(CubeAction::IncreaseDistanceFromCamera);
    assert_eq!(p.distance_from_camera, 1_000_000);
    p.apply_action(CubeAction::IncreaseDistanceFromCamera);
    assert_eq!(p.distance_from_camera, 1_000_000);

    p.distance_from_camera = -999_950;
    p.apply_action(CubeAction::DecreaseDistanceFromCamera);
    assert_eq!(p.distance_from_camera, -1_000_000);

    p.projection_scale = 999_999;
    p.apply_action(CubeAction::IncreaseProjectionScale);
    assert_eq!(p.projection_scale, 1_000_000);
    p.projection_scale = i64::MIN;
    p.apply_action(CubeAction::DecreaseProjectionScale);
    assert_eq!(p.projection_scale, -1_000_000);

    p.resolution_step = 999_995;
    p.apply_action(CubeAction::IncreaseResolutionStep);
    assert_eq!(p.resolution_step, 1_000_000);
}

#[test]
fn angles_and_flags_have_the_whole_range_of_their_type() {
    let mut p = CubeParameters::new();
    p.alpha = 1_000_000_000;
    p.apply_action(CubeAction::IncreaseAlpha);
    assert_eq!(p.alpha, 1_000_000_250);
    p.beta = -4_000_000_000_000;
    p.apply_action(CubeAction::DecreaseBeta);
    assert_eq!(p.beta, -4_000_000_000_500);
    assert!(p.is_wf());

    p.gamma = i64::MAX - 100;
    p.apply_action(CubeAction::IncreaseGamma);
    assert_eq!(p.gamma, i64::MAX);
    p.alpha = i64::MIN + 499;
    p.apply_action(CubeAction::DecreaseAlpha);
    assert_eq!(p.alpha, i64::MIN);
    p.auto_alpha = i64::MIN;
    p.apply_action(CubeAction::ToggleAutoAlpha);
    assert_eq!(p.auto_alpha, i64::MAX);
    p.auto_beta = i64::MAX;
    p.apply_action(CubeAction::ToggleAutoBeta);
    assert_eq!(p.auto_beta, i64::MIN + 101);
}

#[test]
fn auto_rotation_moves_each_angle_by_its_own_step() {
    let mut p = CubeParameters::new();
    p.update_auto_rotations();
    assert_eq!(p, CubeParameters::new());

    p.auto_alpha = 100;
    p.auto_beta = 100;
    p.auto_gamma = 100;
    p.update_auto_rotations();
    assert_eq!((p.alpha, p.beta, p.gamma), (250, 200, 150));
    p.update_auto_rotations();
    assert_eq!((p.alpha, p.beta, p.gamma), (500, 400, 300));

    p.auto_alpha = 0;
    p.auto_beta = -200;
    p.auto_gamma = 300;
    p.update_auto_rotations();
    assert_eq!((p.alpha, p.beta, p.gamma), (500, 0, 750));
    assert_eq!((p.auto_alpha, p.auto_beta, p.auto_gamma), (0, -200, 300));
    assert_eq!(p.distance_from_camera, 6500);
}

#[test]
fn a_flag_between_zero_and_one_moves_the_angle_by_a_part_of_its_step() {
    let mut p = CubeParameters::new();
    // A quarter of 2.5, 2 and 1.5 degrees: 0.625, 0.5 and 0.375, to the
    // nearest hundredth, the lower of two equally near.
    p.auto_alpha = 25;
    p.auto_beta = 25;
    p.auto_gamma = 25;
    p.update_auto_rotations();
    assert_eq!((p.alpha, p.beta, p.gamma), (62, 50, 37));

    let mut q = CubeParameters::new();
    q.auto_alpha = 50;
    q.auto_beta = 1;
    q.auto_gamma = -25;
    q.update_auto_rotations();
    assert_eq!((q.alpha, q.beta, q.gamma), (125, 2, -38));
}

#[test]
fn auto_rotation_stops_at_the_end_of_the_range() {
    let mut p = CubeParameters::new();
    p.alpha = i64::MAX - 100;
    p.auto_alpha = 100;
    p.gamma = 5;
    p.auto_gamma = i64::MIN;
    p.update_auto_rotations();
    assert_eq!(p.alpha, i64::MAX);
    assert_eq!(p.gamma, i64::MIN);
}

#[test]
fn normalized_brings_distance_scale_and_step_into_their_ranges() {
    let p = CubeParameters {
        alpha: 2_000_000_000,
        beta: -2_000_000_000,
        gamma: 17,
        auto_alpha: i64::MAX,
        auto_beta: i64::MIN,
        auto_gamma: 100,
        distance_from_camera: 1_000_001,
        projection_scale: -1_000_001,
        resolution_step: 0,
    };
    assert!(!p.is_wf());
    let n = p.normalized();
    assert_eq!(
        n,
        CubeParameters {
            distance_from_camera: 1_000_000,
            projection_scale: -1_000_000,
            resolution_step: 5,
            ..p
        }
    );
    assert!(n.is_wf());
    assert_eq!(sample_parameters().normalized(), sample_parameters());
}

#[test]
fn a_step_below_the_minimum_is_not_well_formed() {
    let mut p = CubeParameters::new();
    p.resolution_step = 4;
    assert!(!p.is_wf());
    p.resolution_step = 5;
    assert!(p.is_wf());
    p.resolution_step = 1_000_001;
    assert!(!p.is_wf());
}

#[test]
fn every_bound_key_gives_its_action() {
    let bindings = vec![
        ('a', CubeAction::ToggleAutoAlpha),
        ('e', CubeAction::IncreaseAlpha),
        ('r', CubeAction::DecreaseAlpha),
        ('b', CubeAction::ToggleAutoBeta),
        ('d', CubeAction::IncreaseBeta),
        ('f', CubeAction::DecreaseBeta),
        ('g', CubeAction::ToggleAutoGamma),
        ('c', CubeAction::IncreaseGamma),
        ('v', CubeAction::DecreaseGamma),
        ('u', CubeAction::IncreaseDistanceFromCamera),
        ('j', CubeAction::DecreaseDistanceFromCamera),
        ('i', CubeAction::IncreaseProjectionScale),
        ('k', CubeAction::DecreaseProjectionScale),
        ('o', CubeAction::IncreaseResolutionStep),
        ('l', CubeAction::DecreaseResolutionStep),
        ('z', CubeAction::Reset),
        ('q', CubeAction::Quit),
    ];
    for (key, action) in bindings {
        assert_eq!(key_to_action(Key::Char(key)), Some(action));
    }
}

#[test]
fn other_keys_give_no_action() {
    assert_eq!(key_to_action(Key::Other), None);
    for key in ['A', 'Q', 'Z', 'x', 'w', ' ', '1', '\n', 'é'] {
        assert_eq!(key_to_action(Key::Char(key)), None);
    }
}

#[test]
fn process_input_without_an_event_changes_nothing() {
    let mut p = sample_parameters();
    assert_eq!(process_input(None, &mut p), Control::Continue);
    assert_eq!(p, sample_parameters());
}

#[test]
fn process_input_with_an_unbound_key_changes_nothing() {
    let mut p = sample_parameters();
    assert_eq!(process_input(Some(Key::Char('x')), &mut p), Control::Continue);
    assert_eq!(p, sample_parameters());
    assert_eq!(process_input(Some(Key::Other), &mut p), Control::Continue);
    assert_eq!(p, sample_parameters());
}

#[test]
fn process_input_carries_out_the_action_of_a_bound_key() {
    let mut p = sample_parameters();
    assert_eq!(process_input(Some(Key::Char('u')), &mut p), Control::Continue);
    assert_eq!(p, CubeParameters { distance_from_camera: 7150, ..sample_parameters() });
    assert_eq!(process_input(Some(Key::Char('z')), &mut p), Control::Continue);
    assert_eq!(p, CubeParameters::new());
}

#[test]
fn process_input_stops_on_the_quit_key() {
    let mut p = sample_parameters();
    assert_eq!(process_input(Some(Key::Char('q')), &mut p), Control::Stop);
    assert_eq!(p, sample_parameters());
}
