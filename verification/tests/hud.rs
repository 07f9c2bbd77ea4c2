use sdf_text_view::hud::HUD;
use std::time::{Duration, Instant};

#[test]
fn frame_timer_measures_elapsed_time() {
    let mut hud = HUD::new();
    hud.start_frame_timer();
    let begun = Instant::now();
    while begun.elapsed() < Duration::from_millis(5) {}
    let elapsed = hud.stop_frame_timer();
    assert!(elapsed >= Duration::from_millis(5));
}

#[test]
fn restarting_the_timer_resets_the_measure() {
    let mut hud = HUD::new();
    let begun = Instant::now();
    while begun.elapsed() < Duration::from_millis(20) {}
    hud.start_frame_timer();
    let elapsed = hud.stop_frame_timer();
    assert!(elapsed < Duration::from_millis(20) + begun.elapsed());
    assert!(elapsed <= begun.elapsed());
}

#[test]
fn timer_measures_from_the_given_start() {
    let t0 = Instant::now();
    let mut hud = HUD::started_at(t0);
    let t1 = t0 + Duration::from_millis(7);
    assert_eq!(hud.elapsed_at(t1), Duration::from_millis(7));
    hud.restart_at(t1);
    assert_eq!(hud.elapsed_at(t1), Duration::ZERO);
    assert_eq!(hud.elapsed_at(t1 + Duration::from_secs(2)), Duration::from_secs(2));
    // an instant before the start gives no time at all
    assert_eq!(hud.elapsed_at(t0), Duration::ZERO);
}
