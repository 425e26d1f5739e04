use inkstroke::overlay::OverlayEvent;
use inkstroke::overlay::OverlayState;

#[test]
fn an_overlay_blocks_the_canvas_and_normal_frees_it() {
    let up = OverlayEvent::Overlay(String::from("Saving"));
    let down = OverlayEvent::Normal;
    assert_eq!(OverlayState::Normal.step(&up), OverlayState::Blocked);
    assert_eq!(OverlayState::Blocked.step(&up), OverlayState::Blocked);
    assert_eq!(OverlayState::Blocked.step(&down), OverlayState::Normal);
    assert_eq!(OverlayState::Normal.step(&down), OverlayState::Normal);
}

#[test]
fn a_passing_message_changes_nothing() {
    let note = OverlayEvent::Transient(String::from("Saved"));
    assert_eq!(OverlayState::Normal.step(&note), OverlayState::Normal);
    assert_eq!(OverlayState::Blocked.step(&note), OverlayState::Blocked);
}

#[test]
fn only_an_overlay_raises_the_overlay() {
    assert!(OverlayEvent::Overlay(String::new()).raises_overlay());
    assert!(!OverlayEvent::Normal.raises_overlay());
    assert!(!OverlayEvent::Transient(String::from("x")).raises_overlay());
}

#[test]
fn the_last_decisive_event_of_a_frame_wins() {
    let events = [
        OverlayEvent::Overlay(String::from("a")),
        OverlayEvent::Transient(String::from("b")),
        OverlayEvent::Normal,
        OverlayEvent::Overlay(String::from("c")),
        OverlayEvent::Transient(String::from("d")),
    ];
    assert_eq!(OverlayState::Normal.settle(&events), OverlayState::Blocked);
    assert_eq!(OverlayState::Normal.settle(&events[..3]), OverlayState::Normal);
    assert_eq!(OverlayState::Blocked.settle(&events[1..2]), OverlayState::Blocked);
    assert_eq!(OverlayState::Blocked.settle(&[]), OverlayState::Blocked);
    assert_eq!(OverlayState::Normal.settle(&[]), OverlayState::Normal);
}
