use cosmic_theme::{AnimationDirection, AnimationEffect, HoverPressedAnimation, UNIT};

fn linear() -> HoverPressedAnimation {
    HoverPressedAnimation::new(AnimationEffect::Linear)
}

#[test]
fn new_is_idle_at_rest() {
    let a = HoverPressedAnimation::new(AnimationEffect::EaseOut);
    assert!(!a.is_running());
    assert_eq!(a.animation_progress, 0);
    assert_eq!(a.initial_progress, 0);
    assert_eq!(a.direction, AnimationDirection::Forward);
    assert_eq!(a.effect, AnimationEffect::EaseOut);
}

#[test]
fn default_is_linear_and_idle() {
    let a = HoverPressedAnimation::default();
    assert_eq!(a, linear());
    assert_eq!(AnimationEffect::default(), AnimationEffect::Linear);
    assert_eq!(AnimationDirection::default(), AnimationDirection::Forward);
}

#[test]
fn linear_press_release_scenario() {
    let mut a = linear();
    a.on_press(0);
    assert!(a.on_redraw_request_update(1000, 500, 500));
    assert_eq!(a.animation_progress, 500_000);
    a.on_released(500);
    assert_eq!(a.initial_progress, 500_000);
    assert!(a.on_redraw_request_update(1000, 500, 750));
    assert_eq!(a.animation_progress, 0);
    assert!(a.is_running());
    // the tick after progress reached rest reports completion and stops the run
    assert!(a.on_redraw_request_update(1000, 500, 766));
    assert!(!a.is_running());
    assert!(!a.on_redraw_request_update(1000, 500, 782));
}

#[test]
fn zero_forward_duration_completes_on_first_tick() {
    for effect in [AnimationEffect::Linear, AnimationEffect::EaseOut, AnimationEffect::Instantaneous] {
        let mut a = HoverPressedAnimation::new(effect);
        a.on_press(1000);
        assert!(a.on_redraw_request_update(0, 300, 1000));
        assert_eq!(a.animation_progress, UNIT);
        let mut b = HoverPressedAnimation::new(effect);
        assert!(b.on_cursor_moved_update(true, 40));
        assert!(b.on_redraw_request_update(0, 300, 5000));
        assert_eq!(b.animation_progress, UNIT);
    }
}

#[test]
fn zero_backward_duration_completes_the_unwind_at_once() {
    let mut a = linear();
    a.on_activate(10);
    assert!(a.on_redraw_request_update(100, 0, 10));
    assert_eq!(a.animation_progress, 0);
    assert!(a.on_redraw_request_update(100, 0, 11));
    assert!(!a.is_running());
}

#[test]
fn hover_enter_repeated_keeps_start_and_baseline() {
    let mut a = linear();
    assert!(a.on_cursor_moved_update(true, 100));
    assert!(a.on_redraw_request_update(1000, 1000, 400));
    let before = a;
    assert!(a.on_cursor_moved_update(true, 700));
    assert!(a.on_cursor_moved_update(true, 900));
    assert_eq!(a, before);
    assert_eq!(a.started_at, Some(100));
    assert_eq!(a.initial_progress, 0);
}

#[test]
fn direction_reversals_keep_progress() {
    let mut a = linear();
    assert!(a.on_cursor_moved_update(true, 0));
    assert!(a.on_redraw_request_update(1000, 1000, 300));
    assert_eq!(a.animation_progress, 300_000);
    // leaving while running forward
    assert!(a.on_cursor_moved_update(false, 300));
    assert_eq!(a.direction, AnimationDirection::Backward);
    assert_eq!(a.animation_progress, 300_000);
    assert_eq!(a.initial_progress, 300_000);
    assert_eq!(a.started_at, Some(300));
    assert!(a.on_redraw_request_update(1000, 1000, 400));
    assert_eq!(a.animation_progress, 200_000);
    // leaving again while unwinding changes nothing
    let before = a;
    assert!(a.on_cursor_moved_update(false, 420));
    assert_eq!(a, before);
    // entering while running backward
    assert!(a.on_cursor_moved_update(true, 450));
    assert_eq!(a.direction, AnimationDirection::Forward);
    assert_eq!(a.animation_progress, 200_000);
    assert_eq!(a.initial_progress, 200_000);
    assert_eq!(a.started_at, Some(450));
    assert!(a.on_redraw_request_update(1000, 1000, 550));
    assert_eq!(a.animation_progress, 300_000);
}

#[test]
fn release_keeps_progress() {
    let mut a = HoverPressedAnimation::new(AnimationEffect::EaseOut);
    a.on_press(0);
    assert!(a.on_redraw_request_update(1000, 1000, 500));
    let p = a.animation_progress;
    a.on_released(500);
    assert_eq!(a.animation_progress, p);
    assert_eq!(a.initial_progress, p);
    assert_eq!(a.direction, AnimationDirection::Backward);
}

#[test]
fn leaving_while_idle_asks_nothing() {
    let mut a = linear();
    assert!(!a.on_cursor_moved_update(false, 10));
    assert_eq!(a, linear());
}

#[test]
fn entering_at_full_progress_asks_no_redraw() {
    let mut a = linear();
    assert!(a.on_cursor_moved_update(true, 0));
    assert!(a.on_redraw_request_update(100, 100, 200));
    assert_eq!(a.animation_progress, UNIT);
    assert!(!a.on_cursor_moved_update(true, 250));
    assert!(a.is_running());
}

#[test]
fn press_restarts_from_rest() {
    let mut a = linear();
    a.on_activate(0);
    assert_eq!(a.animation_progress, UNIT);
    a.on_press(10);
    assert_eq!(a.direction, AnimationDirection::Forward);
    assert_eq!(a.animation_progress, 0);
    assert_eq!(a.initial_progress, 0);
    assert_eq!(a.started_at, Some(10));
}

#[test]
fn activate_unwinds_from_full() {
    let mut a = linear();
    a.on_activate(1000);
    assert_eq!(a.direction, AnimationDirection::Backward);
    assert_eq!(a.initial_progress, UNIT);
    assert!(a.on_redraw_request_update(200, 400, 1100));
    assert_eq!(a.animation_progress, 750_000);
    assert!(a.on_redraw_request_update(200, 400, 1400));
    assert_eq!(a.animation_progress, 0);
    assert!(a.on_redraw_request_update(200, 400, 1416));
    assert!(!a.is_running());
}

#[test]
fn press_then_release_settles() {
    for effect in [AnimationEffect::Linear, AnimationEffect::EaseOut] {
        let mut a = HoverPressedAnimation::new(effect);
        a.on_press(0);
        assert!(a.on_redraw_request_update(200, 300, 200));
        assert_eq!(a.animation_progress, UNIT);
        a.on_released(200);
        let mut t: u64 = 200;
        while t < 500 {
            t += 16;
            assert!(a.on_redraw_request_update(200, 300, t));
        }
        assert_eq!(a.animation_progress, 0);
        assert!(a.is_running());
        assert!(a.on_redraw_request_update(200, 300, t + 16));
        assert!(!a.is_running());
        assert!(!a.on_redraw_request_update(200, 300, t + 32));
    }
}

#[test]
fn ease_out_exact_values() {
    let mut a = HoverPressedAnimation::new(AnimationEffect::EaseOut);
    a.on_press(0);
    assert!(a.on_redraw_request_update(1000, 1000, 500));
    // 1 - (1 - 0.5)^3
    assert_eq!(a.animation_progress, 875_000);
    assert!(a.on_redraw_request_update(1000, 1000, 900));
    // 1 - (1 - 0.9)^3
    assert_eq!(a.animation_progress, 999_000);
    a.on_released(900);
    assert!(a.on_redraw_request_update(1000, 2000, 1900));
    // 0.999 - (1 - (1 - 0.5)^3)
    assert_eq!(a.animation_progress, 124_000);
}

#[test]
fn ease_out_forward_never_decreases() {
    let mut a = HoverPressedAnimation::new(AnimationEffect::EaseOut);
    a.on_press(0);
    let mut last: u32 = 0;
    let mut t: u64 = 0;
    while t <= 1200 {
        assert!(a.on_redraw_request_update(1000, 1000, t));
        assert!(a.animation_progress >= last);
        assert!(a.animation_progress <= UNIT);
        last = a.animation_progress;
        t += 7;
    }
    assert_eq!(last, UNIT);
}

#[test]
fn instantaneous_effect_does_not_move_with_time() {
    let mut a = HoverPressedAnimation::new(AnimationEffect::Instantaneous);
    a.on_activate(0);
    assert!(a.on_redraw_request_update(100, 100, 5000));
    assert_eq!(a.animation_progress, UNIT);
    a.on_press(0);
    assert!(a.on_redraw_request_update(100, 100, 5000));
    assert_eq!(a.animation_progress, 0);
}

#[test]
fn instant_before_start_counts_as_no_time() {
    let mut a = linear();
    a.on_press(1000);
    assert!(a.on_redraw_request_update(100, 100, 500));
    assert_eq!(a.animation_progress, 0);
}

#[test]
fn idle_tick_changes_nothing() {
    let mut a = linear();
    assert!(!a.on_redraw_request_update(100, 100, 10));
    assert_eq!(a, linear());
}

#[test]
fn reset_discards_the_run() {
    let mut a = HoverPressedAnimation::new(AnimationEffect::EaseOut);
    a.on_activate(3);
    a.reset();
    assert_eq!(a, HoverPressedAnimation::new(AnimationEffect::EaseOut));
}

#[test]
fn progress_stays_in_range_over_mixed_operations() {
    let mut a = linear();
    let mut t: u64 = 0;
    for step in 0..200u32 {
        t += 13;
        match step % 7 {
            0 => a.on_press(t),
            1 => {
                a.on_cursor_moved_update(step % 2 == 0, t);
            }
            2 => a.on_released(t),
            3 => a.on_activate(t),
            _ => {
                a.on_redraw_request_update(step % 5 * 40, step % 3 * 60, t);
            }
        }
        assert!(a.animation_progress <= UNIT);
        assert!(a.initial_progress <= UNIT);
    }
}
