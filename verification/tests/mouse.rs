use gouda::genindex::GenIndex;
use gouda::input::GameButtonState;
use gouda::mouse_capture::{
    mouse_button_flags, mouse_capture_decision, CaptureAreaState, ClearOthersMutation,
    MouseCaptureLayer,
};

fn e(i: usize) -> GenIndex {
    GenIndex { index: i, generation: 1 }
}

fn buttons() -> [GameButtonState; 5] {
    [
        GameButtonState { ended_down: true, half_transition_count: 1 },
        GameButtonState { ended_down: true, half_transition_count: 0 },
        GameButtonState { ended_down: false, half_transition_count: 2 },
        GameButtonState { ended_down: false, half_transition_count: 0 },
        GameButtonState { ended_down: true, half_transition_count: 3 },
    ]
}

#[test]
fn button_flags() {
    let (down, clicked, released) = mouse_button_flags(&buttons());
    assert_eq!(down, [true, true, false, false, true]);
    assert_eq!(clicked, [true, false, false, false, true]);
    assert_eq!(released, [false, false, true, false, false]);
}

#[test]
fn highest_layer_with_a_hit_captures() {
    let layers = vec![
        MouseCaptureLayer { sort_index: 1, capture_areas: vec![e(0), e(1)] },
        MouseCaptureLayer { sort_index: 5, capture_areas: vec![e(2), e(3), e(4)] },
        MouseCaptureLayer { sort_index: 5, capture_areas: vec![e(5)] },
        MouseCaptureLayer { sort_index: 9, capture_areas: vec![e(6)] },
    ];
    let hits = vec![vec![true, true], vec![false, true, true], vec![true], vec![false]];
    let (capture, clear) = mouse_capture_decision(&layers, &hits, &buttons());
    let capture = capture.unwrap();
    assert_eq!(capture.area, e(3));
    assert_eq!(clear.excluded, Some(e(3)));
    assert_eq!(capture.clicked_buttons, [true, false, false, false, true]);
    let hits = vec![vec![true, false], vec![false, false, false], vec![false], vec![false]];
    let (capture, _) = mouse_capture_decision(&layers, &hits, &buttons());
    assert_eq!(capture.unwrap().area, e(0));
}

#[test]
fn nothing_under_the_mouse_clears_everything() {
    let layers = vec![MouseCaptureLayer { sort_index: 0, capture_areas: vec![e(0)] }];
    let (capture, clear) = mouse_capture_decision(&layers, &vec![vec![false]], &buttons());
    assert!(capture.is_none());
    assert_eq!(clear.excluded, None);
    let (capture, clear) = mouse_capture_decision(&vec![], &vec![], &buttons());
    assert!(capture.is_none());
    assert_eq!(clear.excluded, None);
}

fn idle() -> CaptureAreaState {
    CaptureAreaState {
        is_hovered: false,
        down_buttons: [false; 5],
        clicked_buttons: [false; 5],
        released_buttons: [false; 5],
    }
}

#[test]
fn capture_then_clear_leaves_one_hovered_entity() {
    let mut areas = vec![(e(0), idle()), (e(1), idle()), (e(2), idle())];
    areas[0].1.is_hovered = true;
    areas[0].1.down_buttons = [true; 5];
    let layers = vec![MouseCaptureLayer { sort_index: 0, capture_areas: vec![e(0), e(1), e(2)] }];
    let (capture, clear) =
        mouse_capture_decision(&layers, &vec![vec![false, true, true]], &buttons());
    capture.unwrap().apply(&mut areas);
    clear.apply(&mut areas);
    assert!(!areas[0].1.is_hovered);
    assert_eq!(areas[0].1.down_buttons, [false; 5]);
    assert!(areas[1].1.is_hovered);
    assert_eq!(areas[1].1.down_buttons, [true, true, false, false, true]);
    assert_eq!(areas[1].1.released_buttons, [false, false, true, false, false]);
    assert!(!areas[2].1.is_hovered);
    let none = ClearOthersMutation { excluded: None };
    none.apply(&mut areas);
    assert!(areas.iter().all(|(_, s)| !s.is_hovered));
}
