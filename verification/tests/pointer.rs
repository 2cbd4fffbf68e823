use computer_use_linux::abs_pointer::{
    build_device, AbsPointer, Gesture, PointerAction, PointerButton, PointerEvent,
};

#[test]
fn from_name_defaults_to_left() {
    assert!(matches!(
        PointerButton::from_name(None),
        PointerButton::Left
    ));
    assert!(matches!(
        PointerButton::from_name(Some("unknown")),
        PointerButton::Left
    ));
}

#[test]
fn from_name_recognises_right_and_middle() {
    assert!(matches!(
        PointerButton::from_name(Some("right")),
        PointerButton::Right
    ));
    assert!(matches!(
        PointerButton::from_name(Some("RIGHT")),
        PointerButton::Right
    ));
    assert!(matches!(
        PointerButton::from_name(Some("middle")),
        PointerButton::Middle
    ));
}

#[test]
fn build_device_clamps_zero_dims_to_one() {
    let p = AbsPointer::create(0, 0);
    assert_eq!(p.width(), 1);
    assert_eq!(p.height(), 1);
}

fn steps(mut gesture: Gesture) -> Vec<PointerAction> {
    let mut out = Vec::new();
    while let Some(step) = gesture.next() {
        out.push(step);
    }
    out
}

fn events(step: &PointerAction) -> Vec<PointerEvent> {
    match step {
        PointerAction::Move(events) => events.clone(),
        PointerAction::Button(event) => vec![*event],
        PointerAction::Pause(_) => panic!("a pause"),
    }
}

fn pause(step: &PointerAction) -> u64 {
    match step {
        PointerAction::Pause(millis) => *millis,
        _ => panic!("events"),
    }
}

#[test]
fn buttons_have_the_codes_of_the_input_subsystem() {
    assert_eq!(PointerButton::Left.key_code(), evdev::KeyCode::BTN_LEFT.0);
    assert_eq!(PointerButton::Right.key_code(), evdev::KeyCode::BTN_RIGHT.0);
    assert_eq!(
        PointerButton::Middle.key_code(),
        evdev::KeyCode::BTN_MIDDLE.0
    );
    assert_eq!(PointerButton::Left.key_code(), 0x110);
    assert_eq!(PointerButton::Right.key_code(), 0x111);
    assert_eq!(PointerButton::Middle.key_code(), 0x112);
}

#[test]
fn motion_is_kept_on_the_desktop() {
    let p = AbsPointer::create(1920, 1080);
    assert_eq!(
        p.move_to(-5, 2000),
        vec![
            PointerEvent {
                kind: 3,
                code: 0,
                value: 0
            },
            PointerEvent {
                kind: 3,
                code: 1,
                value: 1080
            },
        ]
    );
    let inside = p.move_to(1920, 17);
    assert_eq!(inside[0].value, 1920);
    assert_eq!(inside[1].value, 17);
    assert_eq!(inside[0].kind, evdev::EventType::ABSOLUTE.0);
    assert_eq!(inside[0].code, evdev::AbsoluteAxisCode::ABS_X.0);
    assert_eq!(inside[1].code, evdev::AbsoluteAxisCode::ABS_Y.0);
}

#[test]
fn click_presses_and_releases_as_often_as_asked() {
    let p = AbsPointer::create(100, 100);
    let all = steps(p.click(10, 20, PointerButton::Right, 2));
    assert_eq!(all.len(), 10);
    assert_eq!(events(&all[0]), p.move_to(10, 20));
    assert_eq!(pause(&all[1]), 30);
    for round in 0..2 {
        let down = events(&all[2 + 4 * round]);
        assert_eq!(
            down,
            vec![PointerEvent {
                kind: evdev::EventType::KEY.0,
                code: 0x111,
                value: 1
            }]
        );
        assert_eq!(pause(&all[3 + 4 * round]), 30);
        let up = events(&all[4 + 4 * round]);
        assert_eq!(
            up,
            vec![PointerEvent {
                kind: 1,
                code: 0x111,
                value: 0
            }]
        );
        assert_eq!(pause(&all[5 + 4 * round]), 40);
    }
}

#[test]
fn click_with_count_zero_only_moves() {
    let p = AbsPointer::create(100, 100);
    let all = steps(p.click(1, 1, PointerButton::Left, 0));
    assert_eq!(all.len(), 2);
    assert_eq!(events(&all[0]), p.move_to(1, 1));
    assert_eq!(pause(&all[1]), 30);
    assert_eq!(steps(p.click(1, 1, PointerButton::Left, 1)).len(), 6);
}

#[test]
fn drag_holds_the_button_on_the_way() {
    let p = AbsPointer::create(100, 100);
    let all = steps(p.drag((1, 2), (300, 4), PointerButton::Middle));
    assert_eq!(all.len(), 7);
    assert_eq!(events(&all[0]), p.move_to(1, 2));
    assert_eq!(pause(&all[1]), 30);
    assert_eq!(events(&all[2])[0].value, 1);
    assert_eq!(events(&all[2])[0].code, 0x112);
    assert_eq!(pause(&all[3]), 40);
    assert_eq!(events(&all[4]), p.move_to(100, 4));
    assert_eq!(pause(&all[5]), 40);
    assert_eq!(events(&all[6])[0].value, 0);
}

#[test]
fn resize_replaces_the_pointer_only_for_another_size() {
    let p = AbsPointer::create(100, 50);
    assert!(p.resize(100, 50).is_none());
    let q = p.resize(-3, 50).unwrap();
    assert_eq!((q.width(), q.height()), (1, 50));
    assert!(q.resize(0, 50).is_none());
}

#[test]
fn device_spans_the_desktop() {
    let plan = build_device(&AbsPointer::create(640, 480));
    assert_eq!(plan.name, "codex-computer-use-linux absolute pointer");
    assert_eq!(plan.keys, vec![0x110, 0x111, 0x112]);
    assert!(plan.direct);
    assert_eq!(plan.settle_millis, 500);
    assert_eq!(plan.horizontal.maximum, 640);
    assert_eq!(plan.vertical.maximum, 480);
    assert_eq!(
        (plan.horizontal.minimum, plan.horizontal.resolution),
        (0, 1)
    );
    assert_eq!((plan.horizontal.code, plan.vertical.code), (0, 1));
}
