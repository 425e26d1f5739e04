use inkstroke::input::Gesture;
use inkstroke::input::PointerTracker;
use inkstroke::store::StrokeSource;

type Tracker = PointerTracker<(i32, i32)>;

#[test]
fn a_new_tracker_has_seen_nothing() {
    let tracker = Tracker::new();
    assert_eq!(tracker.position, None);
    assert_eq!(tracker.drag_start, None);
    assert_eq!(tracker.touch, None);
}

#[test]
fn a_press_before_the_pointer_was_seen_does_nothing() {
    let mut tracker = Tracker::new();
    assert_eq!(tracker.mouse_pressed(), Gesture::Idle);
    assert_eq!(tracker.drag_start, None);
    assert_eq!(tracker.mouse_released(true), Gesture::Idle);
}

#[test]
fn a_mouse_drag_begins_extends_and_ends_a_stroke() {
    let mut tracker = Tracker::new();
    assert_eq!(tracker.cursor_moved((3, 4)), Gesture::Idle);
    assert_eq!(tracker.position, Some((3, 4)));
    assert_eq!(tracker.mouse_pressed(), Gesture::Begin(StrokeSource::Mouse));
    assert_eq!(tracker.drag_start, Some((3, 4)));
    assert_eq!(tracker.cursor_moved((5, 6)), Gesture::Extend(StrokeSource::Mouse));
    assert_eq!(tracker.position, Some((5, 6)));
    assert_eq!(tracker.drag_start, Some((3, 4)));
    assert_eq!(tracker.mouse_released(true), Gesture::End(StrokeSource::Mouse));
    assert_eq!(tracker.drag_start, None);
    assert_eq!(tracker.position, Some((5, 6)));
    assert_eq!(tracker.cursor_moved((7, 8)), Gesture::Idle);
}

#[test]
fn a_second_press_during_a_drag_does_nothing() {
    let mut tracker = Tracker::new();
    tracker.cursor_moved((1, 1));
    assert_eq!(tracker.mouse_pressed(), Gesture::Begin(StrokeSource::Mouse));
    tracker.cursor_moved((2, 2));
    assert_eq!(tracker.mouse_pressed(), Gesture::Idle);
    assert_eq!(tracker.drag_start, Some((1, 1)));
}

#[test]
fn a_release_that_cannot_be_placed_leaves_the_drag_on() {
    let mut tracker = Tracker::new();
    tracker.cursor_moved((1, 1));
    tracker.mouse_pressed();
    assert_eq!(tracker.mouse_released(false), Gesture::Idle);
    assert_eq!(tracker.drag_start, Some((1, 1)));
    assert_eq!(tracker.mouse_released(true), Gesture::End(StrokeSource::Mouse));
    assert_eq!(tracker.mouse_released(true), Gesture::Idle);
}

#[test]
fn the_first_touch_is_followed_and_the_others_are_not() {
    let mut tracker = Tracker::new();
    assert_eq!(tracker.touch_started(7, (10, 10)), Gesture::Begin(StrokeSource::Touch(7)));
    assert_eq!(tracker.touch, Some(7));
    assert_eq!(tracker.drag_start, Some((10, 10)));
    assert_eq!(tracker.position, None);
    assert_eq!(tracker.touch_started(8, (20, 20)), Gesture::Idle);
    assert_eq!(tracker.touch, Some(7));
    assert_eq!(tracker.drag_start, Some((10, 10)));
    assert_eq!(tracker.touch_moved(8, (21, 21)), Gesture::Idle);
    assert_eq!(tracker.position, None);
    assert_eq!(tracker.touch_moved(7, (11, 11)), Gesture::Extend(StrokeSource::Touch(7)));
    assert_eq!(tracker.position, Some((11, 11)));
}

#[test]
fn a_touch_that_ends_ends_the_stroke_of_the_followed_touch() {
    let mut tracker = Tracker::new();
    tracker.touch_started(7, (10, 10));
    assert_eq!(tracker.touch_ended(false), Gesture::Idle);
    assert_eq!(tracker.touch, Some(7));
    assert_eq!(tracker.drag_start, Some((10, 10)));
    assert_eq!(tracker.touch_ended(true), Gesture::End(StrokeSource::Touch(7)));
    assert_eq!(tracker.touch, None);
    assert_eq!(tracker.drag_start, None);
    assert_eq!(tracker.touch_ended(true), Gesture::Idle);
    assert_eq!(tracker.touch_moved(7, (12, 12)), Gesture::Idle);
    assert_eq!(tracker.touch_started(9, (1, 1)), Gesture::Begin(StrokeSource::Touch(9)));
}

#[test]
fn a_touch_that_ends_during_a_mouse_drag_ends_the_drag_without_a_stroke() {
    let mut tracker = Tracker::new();
    tracker.cursor_moved((1, 1));
    assert_eq!(tracker.mouse_pressed(), Gesture::Begin(StrokeSource::Mouse));
    assert_eq!(tracker.touch_ended(true), Gesture::Idle);
    assert_eq!(tracker.drag_start, None);
    assert_eq!(tracker.cursor_moved((2, 2)), Gesture::Idle);
}

#[test]
fn a_followed_touch_without_a_drag_moves_the_pointer_only() {
    let mut tracker = Tracker::new();
    tracker.touch_started(3, (0, 0));
    tracker.cursor_moved((4, 4));
    assert_eq!(tracker.mouse_released(true), Gesture::End(StrokeSource::Mouse));
    assert_eq!(tracker.touch, Some(3));
    assert_eq!(tracker.touch_moved(3, (5, 5)), Gesture::Idle);
    assert_eq!(tracker.position, Some((5, 5)));
}
