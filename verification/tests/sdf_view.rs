use sdf_text_view::sdf_view::{FrameAction, SDFTextView};

#[test]
fn fresh_view_clears_three_times_then_idles() {
    let mut v = SDFTextView::new();
    assert_eq!(v.image(), None);
    for _ in 0..3 {
        assert_eq!(v.enter_frame(), FrameAction::ClearColor);
    }
    for _ in 0..5 {
        assert_eq!(v.enter_frame(), FrameAction::Idle);
    }
}

#[test]
fn bundled_image_builds_nodes_then_draws_three_frames() {
    let mut v = SDFTextView::new();
    assert_eq!(v.enter_frame(), FrameAction::ClearColor);
    v.bundle_image(String::from("math.png"), false);
    assert_eq!(v.image(), Some("math.png"));
    assert!(!v.misses_edge_detection());
    assert_eq!(v.enter_frame(), FrameAction::CreateNodes { auto_detect: false });
    assert_eq!(v.enter_frame(), FrameAction::Draw { compute: true, detect_edges: false });
    assert_eq!(v.enter_frame(), FrameAction::Draw { compute: false, detect_edges: false });
    assert_eq!(v.enter_frame(), FrameAction::Draw { compute: false, detect_edges: false });
    assert_eq!(v.enter_frame(), FrameAction::Idle);
    assert_eq!(v.enter_frame(), FrameAction::Idle);
}

#[test]
fn auto_detect_runs_edge_detection_with_the_compute() {
    let mut v = SDFTextView::new();
    v.bundle_image(String::from("scan.png"), true);
    assert_eq!(v.enter_frame(), FrameAction::CreateNodes { auto_detect: true });
    assert_eq!(v.enter_frame(), FrameAction::Draw { compute: true, detect_edges: true });
    assert_eq!(v.enter_frame(), FrameAction::Draw { compute: false, detect_edges: false });
}

#[test]
fn resize_redraws_only_with_nodes() {
    let mut v = SDFTextView::new();
    assert!(!v.resize());
    assert!(!v.pintch_changed());
    assert_eq!(v.enter_frame(), FrameAction::ClearColor);
    v.bundle_image(String::from("a.png"), false);
    for _ in 0..4 {
        v.enter_frame();
    }
    assert_eq!(v.enter_frame(), FrameAction::Idle);
    assert!(v.resize());
    assert_eq!(v.enter_frame(), FrameAction::Draw { compute: false, detect_edges: false });
    assert_eq!(v.enter_frame(), FrameAction::Draw { compute: false, detect_edges: false });
    assert_eq!(v.enter_frame(), FrameAction::Draw { compute: false, detect_edges: false });
    assert_eq!(v.enter_frame(), FrameAction::Idle);
    assert!(v.pintch_changed());
    assert_eq!(v.enter_frame(), FrameAction::Draw { compute: false, detect_edges: false });
}

#[test]
fn rebundling_for_edge_detection_after_nodes_is_flagged() {
    let mut v = SDFTextView::new();
    v.bundle_image(String::from("a.png"), false);
    assert_eq!(v.enter_frame(), FrameAction::CreateNodes { auto_detect: false });
    v.bundle_image(String::from("b.png"), true);
    assert!(v.misses_edge_detection());
    assert_eq!(v.image(), Some("b.png"));
}
