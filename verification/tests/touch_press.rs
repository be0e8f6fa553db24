use tilecast::geom::{point_in_box, step_toward, Vec2i};
use tilecast::mouse::{on_mouse_move, MouseState};
use tilecast::press::{detect_press, press_next, PressState};
use tilecast::touch::{
    detect_touch, just_touched, scale_on_touch, touch_next, ScaleOnTouch, TouchArea, TouchState,
    Touchable,
};

fn v(x: i64, y: i64) -> Vec2i {
    Vec2i { x, y }
}

#[test]
fn box_test_is_inclusive_on_edges() {
    let center = v(0, 0);
    let area = v(96, 96);
    assert!(point_in_box(center, area, v(48, 48)));
    assert!(point_in_box(center, area, v(-48, -48)));
    assert!(point_in_box(center, area, v(0, 0)));
    assert!(!point_in_box(center, area, v(49, 0)));
    assert!(!point_in_box(center, area, v(0, -49)));
}

#[test]
fn touch_clears_without_overlap_from_any_state() {
    for prev in [
        TouchState::Untouched,
        TouchState::JustTouched,
        TouchState::Touching { duration: 123 },
    ] {
        assert_eq!(touch_next(false, &prev, 16), TouchState::Untouched);
    }
}

#[test]
fn touch_transition_table() {
    assert_eq!(touch_next(true, &TouchState::Untouched, 16), TouchState::JustTouched);
    assert_eq!(
        touch_next(true, &TouchState::JustTouched, 16),
        TouchState::Touching { duration: 16 }
    );
    assert_eq!(
        touch_next(true, &TouchState::Touching { duration: 16 }, 17),
        TouchState::Touching { duration: 33 }
    );
}

#[test]
fn detect_touch_updates_every_entity() {
    let mut entities = vec![
        Touchable {
            position: v(0, 0),
            area: TouchArea { area: v(96, 96) },
            state: TouchState::Untouched,
        },
        Touchable {
            position: v(200, 0),
            area: TouchArea { area: v(96, 96) },
            state: TouchState::JustTouched,
        },
    ];
    // pointer on the first entity only
    let changed = detect_touch(&mut entities, v(10, 10), 16);
    assert_eq!(entities[0].state, TouchState::JustTouched);
    assert_eq!(entities[1].state, TouchState::Untouched);
    assert_eq!(changed, vec![true, true]);
    let changed = detect_touch(&mut entities, v(10, 10), 16);
    assert_eq!(entities[0].state, TouchState::Touching { duration: 16 });
    // the second entity stayed untouched: no spurious change notification
    assert_eq!(changed, vec![true, false]);
}

#[test]
fn just_touched_finds_a_fresh_touch() {
    let none: Vec<TouchState> = vec![TouchState::Untouched, TouchState::Touching { duration: 5 }];
    assert!(!just_touched(&none));
    let some = vec![TouchState::Untouched, TouchState::JustTouched];
    assert!(just_touched(&some));
}

#[test]
fn press_starts_only_inside_with_button_down() {
    assert_eq!(
        press_next(true, &PressState::Unpressed, true, 16),
        PressState::JustPressed
    );
    assert_eq!(
        press_next(true, &PressState::Unpressed, false, 16),
        PressState::Unpressed
    );
    assert_eq!(
        press_next(false, &PressState::Unpressed, true, 16),
        PressState::Unpressed
    );
}

#[test]
fn press_hold_accumulates_duration() {
    assert_eq!(
        press_next(true, &PressState::JustPressed, true, 16),
        PressState::Pressed { duration: 16 }
    );
    assert_eq!(
        press_next(true, &PressState::Pressed { duration: 16 }, true, 10),
        PressState::Pressed { duration: 26 }
    );
}

#[test]
fn press_release_and_cancel() {
    // releasing the button inside the area completes the click
    assert_eq!(
        press_next(true, &PressState::JustPressed, false, 16),
        PressState::JustReleased
    );
    assert_eq!(
        press_next(true, &PressState::Pressed { duration: 50 }, false, 16),
        PressState::JustReleased
    );
    assert_eq!(
        press_next(true, &PressState::JustReleased, false, 16),
        PressState::Unpressed
    );
    assert_eq!(
        press_next(true, &PressState::JustReleased, true, 16),
        PressState::JustPressed
    );
    // dragging off the area cancels the press instead of completing it
    assert_eq!(
        press_next(false, &PressState::Pressed { duration: 50 }, true, 16),
        PressState::Unpressed
    );
    assert_eq!(
        press_next(false, &PressState::JustPressed, false, 16),
        PressState::Unpressed
    );
}

#[test]
fn detect_press_touches_only_changed_entities() {
    let mut states = vec![PressState::Unpressed, PressState::JustPressed];
    let touch = vec![TouchState::JustTouched, TouchState::Touching { duration: 5 }];
    let changed = vec![true, false];
    detect_press(&mut states, &touch, &changed, true, 16);
    assert_eq!(states[0], PressState::JustPressed);
    // untouched by the detector: its touch state did not change
    assert_eq!(states[1], PressState::JustPressed);
}

#[test]
fn scale_changes_on_touch_edges_only() {
    let scale = ScaleOnTouch(2000);
    assert_eq!(scale_on_touch(&scale, &TouchState::JustTouched), Some(2000));
    assert_eq!(scale_on_touch(&scale, &TouchState::Untouched), Some(1000));
    assert_eq!(scale_on_touch(&scale, &TouchState::Touching { duration: 3 }), None);
}

#[test]
fn mouse_idle_tracking() {
    let mut state = MouseState::Moving;
    on_mouse_move(&mut state, false, 100);
    assert_eq!(state, MouseState::Idle { duration: 100 });
    on_mouse_move(&mut state, false, 150);
    assert_eq!(state, MouseState::Idle { duration: 250 });
    assert!(state.is_idle_at_least(250));
    assert!(!state.is_idle_at_least(251));
    assert_eq!(state.idle_duration(), Some(250));
    on_mouse_move(&mut state, true, 16);
    assert_eq!(state, MouseState::Moving);
    assert_eq!(state.idle_duration(), None);
    assert!(!state.is_idle_at_least(0));
}

#[test]
fn step_toward_snaps_without_overshoot() {
    assert_eq!(step_toward(0, 1000, 300), 300);
    assert_eq!(step_toward(300, 1000, 300), 600);
    assert_eq!(step_toward(900, 1000, 300), 1000);
    assert_eq!(step_toward(1000, 1000, 300), 1000);
    assert_eq!(step_toward(1000, 0, 300), 700);
    assert_eq!(step_toward(-100, 100, 300), 100);
}
