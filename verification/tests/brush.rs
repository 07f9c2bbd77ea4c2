use sdf_text_view::brush::{
    quad_indices, strip_indices, BrushReplay, BrushStep, StrokeMove, StrokeTracker,
};

#[test]
fn stroke_waits_for_enough_touches() {
    let mut t = StrokeTracker::new();
    t.path_start();
    assert_eq!(t.path_move(), StrokeMove::Wait);
    assert_eq!(t.path_move(), StrokeMove::Begin);
    assert_eq!(t.path_move(), StrokeMove::Extend(2));
    assert_eq!(t.path_move(), StrokeMove::Extend(3));
    t.path_end();
    t.path_start();
    assert_eq!(t.path_move(), StrokeMove::Extend(0));
}

#[test]
fn replay_emits_a_point_every_fourth_frame() {
    let mut r = BrushReplay::new(3);
    let mut steps = Vec::new();
    for _ in 0..14 {
        steps.push(r.step_frame_data());
    }
    let mut expected = vec![BrushStep::Idle; 14];
    expected[0] = BrushStep::Start(0);
    expected[4] = BrushStep::Move(1);
    expected[8] = BrushStep::End(2);
    assert_eq!(steps, expected);
}

#[test]
fn replay_of_no_points_stays_idle() {
    let mut r = BrushReplay::new(0);
    for _ in 0..6 {
        assert_eq!(r.step_frame_data(), BrushStep::Idle);
    }
    let mut one = BrushReplay::new(1);
    assert_eq!(one.step_frame_data(), BrushStep::Start(0));
    for _ in 0..6 {
        assert_eq!(one.step_frame_data(), BrushStep::Idle);
    }
}

#[test]
fn quad_indices_make_two_triangles_per_quad() {
    assert_eq!(quad_indices(0), Vec::<u16>::new());
    assert_eq!(quad_indices(2), vec![0, 1, 2, 0, 2, 3, 4, 5, 6, 4, 6, 7]);
}

#[test]
fn strip_indices_join_consecutive_sections() {
    assert_eq!(strip_indices(0, 0), Vec::<u16>::new());
    assert_eq!(strip_indices(1, 5), Vec::<u16>::new());
    assert_eq!(
        strip_indices(3, 0),
        vec![0, 1, 3, 3, 4, 1, 4, 1, 2, 4, 2, 5, 3, 4, 6, 6, 7, 4, 7, 4, 5, 7, 5, 8]
    );
    assert_eq!(strip_indices(2, 10), vec![10, 11, 13, 13, 14, 11, 14, 11, 12, 14, 12, 15]);
}
