//! An absolute pointer: a virtual device whose axes span the logical desktop,
//! and the gestures that are made with it.
//!
//! The compositor spreads the position of an absolute device over the logical
//! desktop, so neither pointer acceleration nor display scaling moves a click
//! away from where it belongs. Positions are therefore in logical coordinates,
//! not in the pixels of a screenshot.

use evdev::{AbsoluteAxisCode, EventType, KeyCode};
use vstd::prelude::*;

use crate::text::{lowered, lowering_changes_only_capitals, same_text, to_ascii_lowercase};

verus! {

/// What the device calls itself.
pub const DEVICE_NAME: &'static str = "codex-computer-use-linux absolute pointer";

/// How long a new device takes to be noticed, in milliseconds.
pub const SETTLE_MILLIS: u64 = 500;

// ---------------------------------------------------------------------------
// Trusted items: the codes of the input subsystem, as evdev has them.
// ---------------------------------------------------------------------------

/// `KeyCode::BTN_LEFT`: the code of the left button.
#[verifier::external_body]
fn left_button_code() -> (r: u16)
    ensures
        r == 0x110,
{
    KeyCode::BTN_LEFT.0
}

/// `KeyCode::BTN_RIGHT`: the code of the right button.
#[verifier::external_body]
fn right_button_code() -> (r: u16)
    ensures
        r == 0x111,
{
    KeyCode::BTN_RIGHT.0
}

/// `KeyCode::BTN_MIDDLE`: the code of the middle button.
#[verifier::external_body]
fn middle_button_code() -> (r: u16)
    ensures
        r == 0x112,
{
    KeyCode::BTN_MIDDLE.0
}

/// `EventType::KEY`: the type of the events of keys and buttons.
#[verifier::external_body]
fn key_event_type() -> (r: u16)
    ensures
        r == 0x01,
{
    EventType::KEY.0
}

/// `EventType::ABSOLUTE`: the type of the events of absolute axes.
#[verifier::external_body]
fn absolute_event_type() -> (r: u16)
    ensures
        r == 0x03,
{
    EventType::ABSOLUTE.0
}

/// `AbsoluteAxisCode::ABS_X`: the code of the horizontal axis.
#[verifier::external_body]
fn horizontal_axis_code() -> (r: u16)
    ensures
        r == 0x00,
{
    AbsoluteAxisCode::ABS_X.0
}

/// `AbsoluteAxisCode::ABS_Y`: the code of the vertical axis.
#[verifier::external_body]
fn vertical_axis_code() -> (r: u16)
    ensures
        r == 0x01,
{
    AbsoluteAxisCode::ABS_Y.0
}

// ---------------------------------------------------------------------------
// Buttons.
// ---------------------------------------------------------------------------

/// The buttons of the pointer.
#[derive(Clone, Copy, Debug, PartialEq, Eq, Structural)]
pub enum PointerButton {
    Left,
    Right,
    Middle,
}

/// The button of a name; every name that is not known, and none, means the left
/// one. Capital and small letters are the same.
pub open spec fn button_named(name: Option<Seq<char>>) -> PointerButton {
    match name {
        None => PointerButton::Left,
        Some(text) => if lowered(text) == "right"@ {
            PointerButton::Right
        } else if lowered(text) == "middle"@ {
            PointerButton::Middle
        } else {
            PointerButton::Left
        },
    }
}

/// The code of a button.
pub open spec fn button_code(button: PointerButton) -> u16 {
    match button {
        PointerButton::Left => 0x110,
        PointerButton::Right => 0x111,
        PointerButton::Middle => 0x112,
    }
}

impl PointerButton {
    /// The button of a name.
    pub fn from_name(name: Option<&str>) -> (r: Self)
        ensures
            r == button_named(
                match name {
                    Some(text) => Some(text@),
                    None => None,
                },
            ),
    {
        match name {
            None => PointerButton::Left,
            Some(text) => {
                let lower = to_ascii_lowercase(text);
                if same_text(lower.as_str(), "right") {
                    PointerButton::Right
                } else if same_text(lower.as_str(), "middle") {
                    PointerButton::Middle
                } else {
                    PointerButton::Left
                }
            },
        }
    }

    /// The code of the button.
    pub fn key_code(self) -> (r: u16)
        ensures
            r == button_code(self),
    {
        match self {
            PointerButton::Left => left_button_code(),
            PointerButton::Right => right_button_code(),
            PointerButton::Middle => middle_button_code(),
        }
    }
}

// ---------------------------------------------------------------------------
// Events and gestures as mathematical values.
// ---------------------------------------------------------------------------

/// An event that the device emits.
#[derive(Clone, Copy, Debug, PartialEq, Eq, Structural)]
pub struct PointerEvent {
    pub kind: u16,
    pub code: u16,
    pub value: i32,
}

/// A step of a gesture: the events of a motion, which are emitted together, the
/// event of a button, or a pause in milliseconds.
pub enum ActionText {
    Move(Seq<PointerEvent>),
    Button(PointerEvent),
    Pause(u64),
}

/// A number brought into a range.
pub open spec fn clamped(v: i32, max: i32) -> i32 {
    if v < 0 {
        0
    } else if v > max {
        max
    } else {
        v
    }
}

/// The extent that an axis gets: at least one.
pub open spec fn extent(v: i32) -> i32 {
    if v < 1 {
        1
    } else {
        v
    }
}

/// The events that move the pointer on a desktop of the given size.
pub open spec fn motion(width: i32, height: i32, x: i32, y: i32) -> Seq<PointerEvent> {
    seq![
        PointerEvent { kind: 0x03, code: 0x00, value: clamped(x, width) },
        PointerEvent { kind: 0x03, code: 0x01, value: clamped(y, height) },
    ]
}

/// Pressing a button.
pub open spec fn press(button: PointerButton) -> ActionText {
    ActionText::Button(PointerEvent { kind: 0x01, code: button_code(button), value: 1 })
}

/// Letting a button go.
pub open spec fn release(button: PointerButton) -> ActionText {
    ActionText::Button(PointerEvent { kind: 0x01, code: button_code(button), value: 0 })
}

/// One click.
pub open spec fn one_click(button: PointerButton) -> Seq<ActionText> {
    seq![press(button), ActionText::Pause(30), release(button), ActionText::Pause(40)]
}

/// Several clicks.
pub open spec fn clicks(button: PointerButton, count: int) -> Seq<ActionText>
    decreases count,
{
    if count <= 0 {
        seq![]
    } else {
        one_click(button) + clicks(button, count - 1)
    }
}

/// The steps of a click: the pointer moves, and the button is pressed and let go
/// as often as asked for.
pub open spec fn click_steps(
    moved: Seq<PointerEvent>,
    button: PointerButton,
    count: int,
) -> Seq<ActionText> {
    seq![ActionText::Move(moved), ActionText::Pause(30)] + clicks(button, count)
}

/// The steps of a drag: the button is held on the way from start to end.
pub open spec fn drag_steps(
    from: Seq<PointerEvent>,
    to: Seq<PointerEvent>,
    button: PointerButton,
) -> Seq<ActionText> {
    seq![
        ActionText::Move(from),
        ActionText::Pause(30),
        press(button),
        ActionText::Pause(40),
        ActionText::Move(to),
        ActionText::Pause(40),
        release(button),
    ]
}

// ---------------------------------------------------------------------------
// Laws.
// ---------------------------------------------------------------------------

/// How an event changes the number of buttons that are held.
pub open spec fn hold_of(e: PointerEvent) -> int {
    if e.kind == 0x01 && e.value == 1 {
        1
    } else if e.kind == 0x01 && e.value == 0 {
        -1
    } else {
        0
    }
}

/// How events change it.
pub open spec fn hold_of_events(es: Seq<PointerEvent>) -> int
    decreases es.len(),
{
    if es.len() == 0 {
        0
    } else {
        hold_of_events(es.drop_last()) + hold_of(es.last())
    }
}

/// How many buttons are held after some steps.
pub open spec fn held(steps: Seq<ActionText>) -> int
    decreases steps.len(),
{
    if steps.len() == 0 {
        0
    } else {
        held(steps.drop_last()) + match steps.last() {
            ActionText::Move(es) => hold_of_events(es),
            ActionText::Button(e) => hold_of(e),
            ActionText::Pause(_) => 0,
        }
    }
}

proof fn lemma_held_append(a: Seq<ActionText>, b: Seq<ActionText>)
    ensures
        held(a + b) == held(a) + held(b),
    decreases b.len(),
{
    if b.len() == 0 {
        assert(a + b =~= a);
    } else {
        lemma_held_append(a, b.drop_last());
        assert((a + b).drop_last() =~= a + b.drop_last());
        assert((a + b).last() == b.last());
    }
}

proof fn lemma_one_step(a: ActionText)
    ensures
        held(seq![a]) == (match a {
            ActionText::Move(es) => hold_of_events(es),
            ActionText::Button(e) => hold_of(e),
            ActionText::Pause(_) => 0,
        }),
{
    reveal_with_fuel(held, 2);
    assert(seq![a].drop_last() =~= seq![]);
}

proof fn lemma_press_and_release(button: PointerButton)
    ensures
        held(seq![press(button)]) == 1,
        held(seq![release(button)]) == -1,
{
    lemma_one_step(press(button));
    lemma_one_step(release(button));
}

proof fn lemma_motion_holds_nothing(width: i32, height: i32, x: i32, y: i32)
    ensures
        held(seq![ActionText::Move(motion(width, height, x, y))]) == 0,
{
    let m = motion(width, height, x, y);
    lemma_one_step(ActionText::Move(m));
    assert(m.drop_last() =~= seq![m[0]]);
    assert(m.drop_last().drop_last() =~= seq![]);
    reveal_with_fuel(hold_of_events, 3);
}

/// At every point of the steps `n` or `n + 1` buttons are held.
pub open spec fn holds_at_most_one_more(steps: Seq<ActionText>, n: int) -> bool {
    forall|i: int| 0 <= i <= steps.len() ==> n <= #[trigger] held(steps.take(i)) <= n + 1
}

proof fn lemma_one_click(button: PointerButton)
    ensures
        held(one_click(button)) == 0,
        holds_at_most_one_more(one_click(button), 0),
{
    let c = one_click(button);
    lemma_press_and_release(button);
    lemma_one_step(ActionText::Pause(30));
    lemma_one_step(ActionText::Pause(40));
    assert(c.take(0) =~= seq![]);
    assert(c.take(1) =~= seq![press(button)]);
    assert(c.take(2) =~= c.take(1) + seq![ActionText::Pause(30)]);
    assert(c.take(3) =~= c.take(2) + seq![release(button)]);
    assert(c.take(4) =~= c.take(3) + seq![ActionText::Pause(40)]);
    lemma_held_append(c.take(1), seq![ActionText::Pause(30)]);
    lemma_held_append(c.take(2), seq![release(button)]);
    lemma_held_append(c.take(3), seq![ActionText::Pause(40)]);
    assert(c.take(4) =~= c);
    assert forall|i: int| 0 <= i <= c.len() implies 0 <= #[trigger] held(c.take(i)) <= 1 by {
        assert(i == 0 || i == 1 || i == 2 || i == 3 || i == 4);
    }
}

proof fn lemma_clicks(button: PointerButton, count: int)
    ensures
        held(clicks(button, count)) == 0,
        holds_at_most_one_more(clicks(button, count), 0),
    decreases count,
{
    let all = clicks(button, count);
    if count <= 0 {
        assert forall|i: int| 0 <= i <= all.len() implies 0 <= #[trigger] held(all.take(i)) <= 1 by {
            assert(all.take(i) =~= seq![]);
        }
    } else {
        let one = one_click(button);
        let rest = clicks(button, count - 1);
        lemma_one_click(button);
        lemma_clicks(button, count - 1);
        lemma_held_append(one, rest);
        assert forall|i: int| 0 <= i <= all.len() implies 0 <= #[trigger] held(all.take(i)) <= 1 by {
            if i <= 4 {
                assert(all.take(i) =~= one.take(i));
            } else {
                assert(all.take(i) =~= one + rest.take(i - 4));
                lemma_held_append(one, rest.take(i - 4));
            }
        }
    }
}

/// A click lets go of the button as often as it presses it, and never presses it
/// while it is held.
pub proof fn click_is_balanced(
    width: i32,
    height: i32,
    x: i32,
    y: i32,
    button: PointerButton,
    count: int,
)
    ensures
        held(click_steps(motion(width, height, x, y), button, count)) == 0,
        holds_at_most_one_more(click_steps(motion(width, height, x, y), button, count), 0),
{
    let m = ActionText::Move(motion(width, height, x, y));
    let head = seq![m, ActionText::Pause(30)];
    let all = click_steps(motion(width, height, x, y), button, count);
    let rest = clicks(button, count);
    lemma_motion_holds_nothing(width, height, x, y);
    lemma_one_step(ActionText::Pause(30));
    assert(head =~= seq![m] + seq![ActionText::Pause(30)]);
    lemma_held_append(seq![m], seq![ActionText::Pause(30)]);
    lemma_clicks(button, count);
    lemma_held_append(head, rest);
    assert forall|i: int| 0 <= i <= all.len() implies 0 <= #[trigger] held(all.take(i)) <= 1 by {
        if i == 0 {
            assert(all.take(i) =~= seq![]);
        } else if i == 1 {
            assert(all.take(i) =~= seq![m]);
        } else {
            assert(all.take(i) =~= head + rest.take(i - 2));
            lemma_held_append(head, rest.take(i - 2));
        }
    }
}

/// How often a button is pressed in some steps.
pub open spec fn presses(steps: Seq<ActionText>, button: PointerButton) -> int
    decreases steps.len(),
{
    if steps.len() == 0 {
        0
    } else {
        presses(steps.drop_last(), button) + if steps.last() == press(button) {
            1int
        } else {
            0int
        }
    }
}

proof fn lemma_presses_append(a: Seq<ActionText>, b: Seq<ActionText>, button: PointerButton)
    ensures
        presses(a + b, button) == presses(a, button) + presses(b, button),
    decreases b.len(),
{
    if b.len() == 0 {
        assert(a + b =~= a);
    } else {
        lemma_presses_append(a, b.drop_last(), button);
        assert((a + b).drop_last() =~= a + b.drop_last());
        assert((a + b).last() == b.last());
    }
}

proof fn lemma_presses_of_one_click(button: PointerButton)
    ensures
        presses(one_click(button), button) == 1,
{
    reveal_with_fuel(presses, 5);
    let c = one_click(button);
    assert(c.drop_last() =~= c.take(3));
    assert(c.take(3).drop_last() =~= c.take(2));
    assert(c.take(2).drop_last() =~= c.take(1));
    assert(c.take(1).drop_last() =~= seq![]);
}

proof fn lemma_presses_of_clicks(button: PointerButton, count: int)
    requires
        count >= 0,
    ensures
        presses(clicks(button, count), button) == count,
    decreases count,
{
    if count > 0 {
        lemma_presses_of_one_click(button);
        lemma_presses_of_clicks(button, count - 1);
        lemma_presses_append(one_click(button), clicks(button, count - 1), button);
    }
}

/// A click presses the button exactly as often as asked for, none at all among
/// them.
pub proof fn click_presses_as_often_as_asked(
    moved: Seq<PointerEvent>,
    button: PointerButton,
    count: int,
)
    requires
        count >= 0,
    ensures
        presses(click_steps(moved, button, count), button) == count,
        count == 0 ==> click_steps(moved, button, count) == seq![
            ActionText::Move(moved),
            ActionText::Pause(30),
        ],
{
    let head = seq![ActionText::Move(moved), ActionText::Pause(30)];
    reveal_with_fuel(presses, 3);
    assert(head.drop_last() =~= head.take(1));
    assert(head.take(1).drop_last() =~= seq![]);
    lemma_presses_of_clicks(button, count);
    lemma_presses_append(head, clicks(button, count), button);
}

/// A drag holds the button on the way from start to end and nowhere else.
pub proof fn drag_is_balanced(
    width: i32,
    height: i32,
    start: (i32, i32),
    end: (i32, i32),
    button: PointerButton,
)
    ensures
        held(
            drag_steps(
                motion(width, height, start.0, start.1),
                motion(width, height, end.0, end.1),
                button,
            ),
        ) == 0,
        forall|i: int|
            0 <= i <= 7 ==> #[trigger] held(
                drag_steps(
                    motion(width, height, start.0, start.1),
                    motion(width, height, end.0, end.1),
                    button,
                ).take(i),
            ) == (if 3 <= i <= 6 {
                1int
            } else {
                0int
            }),
{
    let from = ActionText::Move(motion(width, height, start.0, start.1));
    let to = ActionText::Move(motion(width, height, end.0, end.1));
    let d = drag_steps(
        motion(width, height, start.0, start.1),
        motion(width, height, end.0, end.1),
        button,
    );
    lemma_motion_holds_nothing(width, height, start.0, start.1);
    lemma_motion_holds_nothing(width, height, end.0, end.1);
    lemma_press_and_release(button);
    lemma_one_step(ActionText::Pause(30));
    lemma_one_step(ActionText::Pause(40));
    assert(d.take(0) =~= seq![]);
    assert(d.take(1) =~= seq![from]);
    assert(d.take(2) =~= d.take(1) + seq![ActionText::Pause(30)]);
    assert(d.take(3) =~= d.take(2) + seq![press(button)]);
    assert(d.take(4) =~= d.take(3) + seq![ActionText::Pause(40)]);
    assert(d.take(5) =~= d.take(4) + seq![to]);
    assert(d.take(6) =~= d.take(5) + seq![ActionText::Pause(40)]);
    assert(d.take(7) =~= d.take(6) + seq![release(button)]);
    lemma_held_append(d.take(1), seq![ActionText::Pause(30)]);
    lemma_held_append(d.take(2), seq![press(button)]);
    lemma_held_append(d.take(3), seq![ActionText::Pause(40)]);
    lemma_held_append(d.take(4), seq![to]);
    lemma_held_append(d.take(5), seq![ActionText::Pause(40)]);
    lemma_held_append(d.take(6), seq![release(button)]);
    assert(d.take(7) =~= d);
    assert forall|i: int| 0 <= i <= 7 implies #[trigger] held(d.take(i)) == (if 3 <= i <= 6 {
        1int
    } else {
        0int
    }) by {
        assert(i == 0 || i == 1 || i == 2 || i == 3 || i == 4 || i == 5 || i == 6 || i == 7);
    }
}

/// A motion stays on the desktop, and goes exactly where it is sent where that
/// is on the desktop.
pub proof fn motion_stays_on_the_desktop(width: i32, height: i32, x: i32, y: i32)
    requires
        width >= 1,
        height >= 1,
    ensures
        0 <= motion(width, height, x, y)[0].value <= width,
        0 <= motion(width, height, x, y)[1].value <= height,
        0 <= x <= width ==> motion(width, height, x, y)[0].value == x,
        0 <= y <= height ==> motion(width, height, x, y)[1].value == y,
{
}

/// A motion sets the two axes, the horizontal one first, and nothing else: each
/// to where it is sent, or to the nearer edge of the desktop.
pub proof fn motion_goes_to_the_nearest_place(width: i32, height: i32, x: i32, y: i32)
    requires
        width >= 1,
        height >= 1,
    ensures
        motion(width, height, x, y).len() == 2,
        forall|i: int|
            0 <= i < 2 ==> (#[trigger] motion(width, height, x, y)[i]).kind == 3 && motion(
                width,
                height,
                x,
                y,
            )[i].code == i,
        0 <= x <= width ==> motion(width, height, x, y)[0].value == x,
        0 <= y <= height ==> motion(width, height, x, y)[1].value == y,
        x < 0 ==> motion(width, height, x, y)[0].value == 0,
        y < 0 ==> motion(width, height, x, y)[1].value == 0,
        x > width ==> motion(width, height, x, y)[0].value == width,
        y > height ==> motion(width, height, x, y)[1].value == height,
{
}

/// How an event changes how often the button with the given code is held: a key
/// event of that code with value 1 presses it, one with value 0 lets it go.
pub open spec fn code_hold(e: PointerEvent, code: u16) -> int {
    if e.kind != 1 || e.code != code {
        0
    } else if e.value == 1 {
        1
    } else if e.value == 0 {
        -1
    } else {
        0
    }
}

/// How several events change it.
pub open spec fn code_hold_of_events(es: Seq<PointerEvent>, code: u16) -> int
    decreases es.len(),
{
    if es.len() == 0 {
        0
    } else {
        code_hold_of_events(es.drop_last(), code) + code_hold(es.last(), code)
    }
}

/// How often the button with the given code is held after some steps.
pub open spec fn code_held(steps: Seq<ActionText>, code: u16) -> int
    decreases steps.len(),
{
    if steps.len() == 0 {
        0
    } else {
        code_held(steps.drop_last(), code) + match steps.last() {
            ActionText::Move(es) => code_hold_of_events(es, code),
            ActionText::Button(e) => code_hold(e, code),
            ActionText::Pause(_) => 0,
        }
    }
}

proof fn lemma_code_held_append(a: Seq<ActionText>, b: Seq<ActionText>, code: u16)
    ensures
        code_held(a + b, code) == code_held(a, code) + code_held(b, code),
    decreases b.len(),
{
    if b.len() == 0 {
        assert(a + b =~= a);
    } else {
        lemma_code_held_append(a, b.drop_last(), code);
        assert((a + b).drop_last() =~= a + b.drop_last());
        assert((a + b).last() == b.last());
    }
}

proof fn lemma_code_held_step(steps: Seq<ActionText>, i: int, code: u16)
    requires
        0 <= i < steps.len(),
    ensures
        code_held(steps.take(i + 1), code) == code_held(steps.take(i), code) + (match steps[i] {
            ActionText::Move(es) => code_hold_of_events(es, code),
            ActionText::Button(e) => code_hold(e, code),
            ActionText::Pause(_) => 0,
        }),
{
    assert(steps.take(i + 1).drop_last() =~= steps.take(i));
    assert(steps.take(i + 1).last() == steps[i]);
}

proof fn lemma_motion_holds_no_code(width: i32, height: i32, x: i32, y: i32, code: u16)
    ensures
        code_hold_of_events(motion(width, height, x, y), code) == 0,
{
    let m = motion(width, height, x, y);
    assert(m.drop_last().drop_last() =~= seq![]);
    reveal_with_fuel(code_hold_of_events, 3);
}

/// While some steps are made a button is held at most once, and no other button
/// at all; in the end every button is let go.
pub open spec fn holds_only(steps: Seq<ActionText>, button: PointerButton) -> bool {
    &&& forall|code: u16| #[trigger] code_held(steps, code) == 0
    &&& forall|i: int, code: u16|
        0 <= i <= steps.len() ==> 0 <= #[trigger] code_held(steps.take(i), code) <= (if code
            == button_code(button) {
            1int
        } else {
            0int
        })
}

proof fn lemma_one_click_holds_only(button: PointerButton)
    ensures
        holds_only(one_click(button), button),
{
    let c = one_click(button);
    assert(c.take(4) =~= c);
    assert forall|code: u16| #[trigger] code_held(c, code) == 0 by {
        lemma_code_held_step(c, 0, code);
        lemma_code_held_step(c, 1, code);
        lemma_code_held_step(c, 2, code);
        lemma_code_held_step(c, 3, code);
        assert(c.take(0) =~= seq![]);
    }
    assert forall|i: int, code: u16| 0 <= i <= c.len() implies 0 <= #[trigger] code_held(
        c.take(i),
        code,
    ) <= (if code == button_code(button) {
        1int
    } else {
        0int
    }) by {
        lemma_code_held_step(c, 0, code);
        lemma_code_held_step(c, 1, code);
        lemma_code_held_step(c, 2, code);
        lemma_code_held_step(c, 3, code);
        assert(c.take(0) =~= seq![]);
        assert(i == 0 || i == 1 || i == 2 || i == 3 || i == 4);
    }
}

proof fn lemma_holds_only_append(a: Seq<ActionText>, b: Seq<ActionText>, button: PointerButton)
    requires
        holds_only(a, button),
        holds_only(b, button),
    ensures
        holds_only(a + b, button),
{
    let all = a + b;
    assert forall|code: u16| #[trigger] code_held(all, code) == 0 by {
        lemma_code_held_append(a, b, code);
    }
    assert forall|i: int, code: u16| 0 <= i <= all.len() implies 0 <= #[trigger] code_held(
        all.take(i),
        code,
    ) <= (if code == button_code(button) {
        1int
    } else {
        0int
    }) by {
        if i <= a.len() {
            assert(all.take(i) =~= a.take(i));
        } else {
            assert(all.take(i) =~= a + b.take(i - a.len()));
            lemma_code_held_append(a, b.take(i - a.len()), code);
            assert(code_held(a, code) == 0);
            assert(0 <= code_held(b.take(i - a.len()), code));
        }
    }
}

proof fn lemma_clicks_hold_only(button: PointerButton, count: int)
    ensures
        holds_only(clicks(button, count), button),
    decreases count,
{
    if count <= 0 {
        let none = clicks(button, count);
        assert forall|i: int, code: u16| 0 <= i <= none.len() implies 0 <= #[trigger] code_held(
            none.take(i),
            code,
        ) <= (if code == button_code(button) {
            1int
        } else {
            0int
        }) by {
            assert(none.take(i) =~= seq![]);
        }
    } else {
        lemma_one_click_holds_only(button);
        lemma_clicks_hold_only(button, count - 1);
        lemma_holds_only_append(one_click(button), clicks(button, count - 1), button);
    }
}

/// A click holds no button but the one that is clicked, that one never twice at
/// once, and lets it go in the end.
pub proof fn click_lets_go_of_its_button(
    width: i32,
    height: i32,
    x: i32,
    y: i32,
    button: PointerButton,
    count: int,
)
    ensures
        holds_only(click_steps(motion(width, height, x, y), button, count), button),
{
    let m = motion(width, height, x, y);
    let head = seq![ActionText::Move(m), ActionText::Pause(30)];
    assert(head.take(2) =~= head);
    assert forall|i: int, code: u16| 0 <= i <= head.len() implies #[trigger] code_held(
        head.take(i),
        code,
    ) == 0 by {
        lemma_motion_holds_no_code(width, height, x, y, code);
        lemma_code_held_step(head, 0, code);
        lemma_code_held_step(head, 1, code);
        assert(head.take(0) =~= seq![]);
        assert(i == 0 || i == 1 || i == 2);
    }
    assert forall|code: u16| #[trigger] code_held(head, code) == 0 by {
        assert(code_held(head.take(2), code) == 0);
    }
    lemma_clicks_hold_only(button, count);
    lemma_holds_only_append(head, clicks(button, count), button);
}

/// A drag presses its button, and no other, and lets go of that very button in
/// the end; in between it is held.
pub proof fn drag_lets_go_of_its_button(
    width: i32,
    height: i32,
    start: (i32, i32),
    end: (i32, i32),
    button: PointerButton,
)
    ensures
        holds_only(
            drag_steps(
                motion(width, height, start.0, start.1),
                motion(width, height, end.0, end.1),
                button,
            ),
            button,
        ),
        exists|i: int|
            0 <= i <= 7 && #[trigger] code_held(
                drag_steps(
                    motion(width, height, start.0, start.1),
                    motion(width, height, end.0, end.1),
                    button,
                ).take(i),
                button_code(button),
            ) == 1,
{
    let from = motion(width, height, start.0, start.1);
    let to = motion(width, height, end.0, end.1);
    let d = drag_steps(from, to, button);
    assert(d.take(7) =~= d);
    assert(d.take(0) =~= seq![]);
    assert forall|i: int, code: u16| 0 <= i <= d.len() implies #[trigger] code_held(
        d.take(i),
        code,
    ) == (if 3 <= i <= 6 && code == button_code(button) {
        1int
    } else {
        0int
    }) by {
        lemma_motion_holds_no_code(width, height, start.0, start.1, code);
        lemma_motion_holds_no_code(width, height, end.0, end.1, code);
        lemma_code_held_step(d, 0, code);
        lemma_code_held_step(d, 1, code);
        lemma_code_held_step(d, 2, code);
        lemma_code_held_step(d, 3, code);
        lemma_code_held_step(d, 4, code);
        lemma_code_held_step(d, 5, code);
        lemma_code_held_step(d, 6, code);
        assert(i == 0 || i == 1 || i == 2 || i == 3 || i == 4 || i == 5 || i == 6 || i == 7);
    }
    assert forall|code: u16| #[trigger] code_held(d, code) == 0 by {
        assert(code_held(d.take(7), code) == 0);
    }
    assert(code_held(d.take(3), button_code(button)) == 1);
}

/// Where the pointer is after some steps: where the last motion took it.
pub open spec fn pointer_at(steps: Seq<ActionText>) -> Option<Seq<PointerEvent>>
    decreases steps.len(),
{
    if steps.len() == 0 {
        None
    } else {
        match steps.last() {
            ActionText::Move(es) => Some(es),
            _ => pointer_at(steps.drop_last()),
        }
    }
}

proof fn lemma_pointer_at_step(steps: Seq<ActionText>, i: int)
    requires
        0 <= i < steps.len(),
    ensures
        pointer_at(steps.take(i + 1)) == (match steps[i] {
            ActionText::Move(es) => Some(es),
            _ => pointer_at(steps.take(i)),
        }),
{
    assert(steps.take(i + 1).drop_last() =~= steps.take(i));
    assert(steps.take(i + 1).last() == steps[i]);
}

/// A drag presses where it starts and lets go where it ends.
pub proof fn drag_goes_from_start_to_end(
    from: Seq<PointerEvent>,
    to: Seq<PointerEvent>,
    button: PointerButton,
    i: int,
)
    requires
        0 <= i < drag_steps(from, to, button).len(),
    ensures
        drag_steps(from, to, button)[i] matches ActionText::Button(e) ==> {
            &&& e.value == 0 || e.value == 1
            &&& pointer_at(drag_steps(from, to, button).take(i)) == Some(
                if e.value == 1 {
                    from
                } else {
                    to
                },
            )
        },
{
    let d = drag_steps(from, to, button);
    lemma_pointer_at_step(d, 0);
    lemma_pointer_at_step(d, 1);
    lemma_pointer_at_step(d, 2);
    lemma_pointer_at_step(d, 3);
    lemma_pointer_at_step(d, 4);
    lemma_pointer_at_step(d, 5);
    assert(i == 0 || i == 1 || i == 2 || i == 3 || i == 4 || i == 5 || i == 6);
}

/// A click happens where the pointer was sent.
pub proof fn click_happens_where_it_is_sent(
    moved: Seq<PointerEvent>,
    button: PointerButton,
    count: int,
    i: int,
)
    requires
        0 < i <= click_steps(moved, button, count).len(),
    ensures
        pointer_at(click_steps(moved, button, count).take(i)) == Some(moved),
    decreases i,
{
    let all = click_steps(moved, button, count);
    lemma_pointer_at_step(all, i - 1);
    if i > 1 {
        click_happens_where_it_is_sent(moved, button, count, i - 1);
        lemma_clicks_do_not_move(button, count);
        if i > 2 {
            assert(all[i - 1] == clicks(button, count)[i - 3]);
        }
    }
}

proof fn lemma_clicks_do_not_move(button: PointerButton, count: int)
    ensures
        forall|i: int|
            0 <= i < clicks(button, count).len() ==> !(#[trigger] clicks(button, count)[i] is Move),
    decreases count,
{
    if count > 0 {
        lemma_clicks_do_not_move(button, count - 1);
        let one = one_click(button);
        let rest = clicks(button, count - 1);
        assert forall|i: int| 0 <= i < clicks(button, count).len() implies !(
        #[trigger] clicks(button, count)[i] is Move) by {
            if i >= 4 {
                assert(clicks(button, count)[i] == rest[i - 4]);
            }
        }
    }
}

/// Each button has a code of its own, that of the input subsystem, whatever the
/// case in which its name is written; what is not known is the left one.
pub proof fn names_mean_their_buttons(name: Seq<char>)
    ensures
        button_code(button_named(None)) == 0x110,
        button_code(button_named(Some(name))) == button_code(button_named(Some(lowered(name)))),
        lowered(name) == "right"@ ==> button_code(button_named(Some(name))) == 0x111,
        lowered(name) == "middle"@ ==> button_code(button_named(Some(name))) == 0x112,
        lowered(name) != "right"@ && lowered(name) != "middle"@ ==> button_code(
            button_named(Some(name)),
        ) == 0x110,
{
    reveal_strlit("right");
    reveal_strlit("middle");
    lowering_changes_only_capitals(0, 'a', name, name);
}

// ---------------------------------------------------------------------------
// Gestures in code.
// ---------------------------------------------------------------------------

/// A step of a gesture.
#[derive(Debug)]
pub enum PointerAction {
    /// The events of a motion, to be emitted together.
    Move(Vec<PointerEvent>),
    /// The event of a button, to be emitted.
    Button(PointerEvent),
    /// A pause in milliseconds.
    Pause(u64),
}

impl View for PointerAction {
    type V = ActionText;

    open spec fn view(&self) -> ActionText {
        match *self {
            PointerAction::Move(events) => ActionText::Move(events@),
            PointerAction::Button(event) => ActionText::Button(event),
            PointerAction::Pause(millis) => ActionText::Pause(millis),
        }
    }
}

/// The values of a sequence of steps.
pub open spec fn action_texts(v: Seq<PointerAction>) -> Seq<ActionText> {
    Seq::new(v.len(), |i: int| v[i]@)
}

/// A gesture: the steps that are still to be made.
#[derive(Debug)]
pub struct Gesture {
    ahead: Vec<PointerAction>,
    button: PointerButton,
    clicks_left: u32,
}

impl View for Gesture {
    type V = Seq<ActionText>;

    closed spec fn view(&self) -> Seq<ActionText> {
        action_texts(self.ahead@) + clicks(self.button, self.clicks_left as int)
    }
}

fn press_action(button: PointerButton) -> (r: PointerAction)
    ensures
        r@ == press(button),
{
    PointerAction::Button(
        PointerEvent { kind: key_event_type(), code: button.key_code(), value: 1 },
    )
}

fn release_action(button: PointerButton) -> (r: PointerAction)
    ensures
        r@ == release(button),
{
    PointerAction::Button(
        PointerEvent { kind: key_event_type(), code: button.key_code(), value: 0 },
    )
}

impl Gesture {
    /// The next step; none at the end.
    pub fn next(&mut self) -> (r: Option<PointerAction>)
        ensures
            r is Some <==> old(self)@.len() > 0,
            r is None ==> final(self)@ == old(self)@,
            r is Some ==> r->0@ == old(self)@[0] && final(self)@ == old(self)@.skip(1),
    {
        if self.ahead.len() == 0 {
            if self.clicks_left == 0 {
                assert(self@ =~= seq![]);
                return None;
            }
            let ghost steps = self@;
            self.ahead.push(press_action(self.button));
            self.ahead.push(PointerAction::Pause(30));
            self.ahead.push(release_action(self.button));
            self.ahead.push(PointerAction::Pause(40));
            self.clicks_left = self.clicks_left - 1;
            assert(action_texts(self.ahead@) =~= one_click(self.button));
            assert(self@ =~= steps);
        }
        let ghost steps = self@;
        let ghost before = self.ahead@;
        let step = self.ahead.remove(0);
        assert(action_texts(self.ahead@) =~= action_texts(before).skip(1));
        assert(self@ =~= steps.skip(1));
        Some(step)
    }
}

// ---------------------------------------------------------------------------
// The pointer.
// ---------------------------------------------------------------------------

/// The range of an axis.
#[derive(Clone, Copy, Debug, PartialEq, Eq, Structural)]
pub struct AxisRange {
    pub code: u16,
    pub value: i32,
    pub minimum: i32,
    pub maximum: i32,
    pub fuzz: i32,
    pub flat: i32,
    /// In units per pixel.
    pub resolution: i32,
}

/// The range of an axis that spans the given extent.
pub open spec fn spanning(code: u16, max: i32) -> AxisRange {
    AxisRange { code, value: 0, minimum: 0, maximum: max, fuzz: 0, flat: 0, resolution: 1 }
}

/// An axis reaches from zero to the side of the desktop, which is never shorter
/// than one, and reports every place in between: nothing is smoothed away.
pub proof fn axes_reach_every_place(code: u16, side: i32)
    ensures
        extent(side) >= 1,
        side >= 1 ==> extent(side) == side,
        side < 1 ==> extent(side) == 1,
        spanning(code, extent(side)).code == code,
        spanning(code, extent(side)).minimum == 0,
        spanning(code, extent(side)).maximum == extent(side),
        spanning(code, extent(side)).value == 0,
        spanning(code, extent(side)).fuzz == 0,
        spanning(code, extent(side)).flat == 0,
        spanning(code, extent(side)).resolution == 1,
{
}

/// An absolute pointer whose axes span a desktop.
#[derive(Debug)]
pub struct AbsPointer {
    width: i32,
    height: i32,
}

impl AbsPointer {
    #[verifier::type_invariant]
    spec fn has_extent(self) -> bool {
        self.width >= 1 && self.height >= 1
    }

    /// The width of the desktop.
    pub closed spec fn desktop_width(&self) -> i32 {
        self.width
    }

    /// The height of the desktop.
    pub closed spec fn desktop_height(&self) -> i32 {
        self.height
    }

    /// A pointer for a desktop of the given size, with each side at least one.
    pub fn create(width: i32, height: i32) -> (r: Self)
        ensures
            r.desktop_width() == extent(width),
            r.desktop_height() == extent(height),
    {
        AbsPointer {
            width: if width < 1 {
                1
            } else {
                width
            },
            height: if height < 1 {
                1
            } else {
                height
            },
        }
    }

    /// The width of the desktop.
    pub fn width(&self) -> (r: i32)
        ensures
            r == self.desktop_width(),
            r >= 1,
    {
        proof {
            use_type_invariant(self);
        }
        self.width
    }

    /// The height of the desktop.
    pub fn height(&self) -> (r: i32)
        ensures
            r == self.desktop_height(),
            r >= 1,
    {
        proof {
            use_type_invariant(self);
        }
        self.height
    }

    /// The ranges of the two axes, the horizontal one first.
    pub fn axes(&self) -> (r: (AxisRange, AxisRange))
        ensures
            r.0 == spanning(0x00, self.desktop_width()),
            r.1 == spanning(0x01, self.desktop_height()),
    {
        let x = AxisRange {
            code: horizontal_axis_code(),
            value: 0,
            minimum: 0,
            maximum: self.width,
            fuzz: 0,
            flat: 0,
            resolution: 1,
        };
        let y = AxisRange {
            code: vertical_axis_code(),
            value: 0,
            minimum: 0,
            maximum: self.height,
            fuzz: 0,
            flat: 0,
            resolution: 1,
        };
        (x, y)
    }

    /// The pointer that has to take this one's place for a desktop of the given
    /// size; none where this one spans it already. The range of an axis cannot
    /// be changed while its device lives, so a new device has to be made.
    pub fn resize(&self, width: i32, height: i32) -> (r: Option<Self>)
        ensures
            r is None <==> self.desktop_width() == extent(width) && self.desktop_height()
                == extent(height),
            r matches Some(p) ==> p.desktop_width() == extent(width) && p.desktop_height()
                == extent(height),
    {
        let next = AbsPointer::create(width, height);
        if self.width == next.width && self.height == next.height {
            None
        } else {
            Some(next)
        }
    }

    /// The events that move the pointer to a place in logical coordinates.
    pub fn move_to(&self, x: i32, y: i32) -> (r: Vec<PointerEvent>)
        ensures
            r@ == motion(self.desktop_width(), self.desktop_height(), x, y),
    {
        let x: i32 = if x < 0 {
            0
        } else if x > self.width {
            self.width
        } else {
            x
        };
        let y: i32 = if y < 0 {
            0
        } else if y > self.height {
            self.height
        } else {
            y
        };
        let kind: u16 = absolute_event_type();
        let mut events: Vec<PointerEvent> = Vec::new();
        events.push(PointerEvent { kind, code: horizontal_axis_code(), value: x });
        events.push(PointerEvent { kind, code: vertical_axis_code(), value: y });
        events
    }

    /// The gesture that moves to a place and presses and releases a button there
    /// `count` times.
    pub fn click(&self, x: i32, y: i32, button: PointerButton, count: u32) -> (r: Gesture)
        ensures
            r@ == click_steps(
                motion(self.desktop_width(), self.desktop_height(), x, y),
                button,
                count as int,
            ),
    {
        let mut ahead: Vec<PointerAction> = Vec::new();
        ahead.push(PointerAction::Move(self.move_to(x, y)));
        ahead.push(PointerAction::Pause(30));
        assert(action_texts(ahead@) =~= seq![
            ActionText::Move(motion(self.desktop_width(), self.desktop_height(), x, y)),
            ActionText::Pause(30),
        ]);
        Gesture { ahead, button, clicks_left: count }
    }

    /// The gesture that presses a button at one place and lets it go at another.
    pub fn drag(&self, start: (i32, i32), end: (i32, i32), button: PointerButton) -> (r: Gesture)
        ensures
            r@ == drag_steps(
                motion(self.desktop_width(), self.desktop_height(), start.0, start.1),
                motion(self.desktop_width(), self.desktop_height(), end.0, end.1),
                button,
            ),
    {
        let mut ahead: Vec<PointerAction> = Vec::new();
        ahead.push(PointerAction::Move(self.move_to(start.0, start.1)));
        ahead.push(PointerAction::Pause(30));
        ahead.push(press_action(button));
        ahead.push(PointerAction::Pause(40));
        ahead.push(PointerAction::Move(self.move_to(end.0, end.1)));
        ahead.push(PointerAction::Pause(40));
        ahead.push(release_action(button));
        let r = Gesture { ahead, button, clicks_left: 0 };
        assert(r@ =~= drag_steps(
            motion(self.desktop_width(), self.desktop_height(), start.0, start.1),
            motion(self.desktop_width(), self.desktop_height(), end.0, end.1),
            button,
        ));
        r
    }
}

/// What a device for a pointer has to offer.
#[derive(Debug)]
pub struct DevicePlan {
    pub name: String,
    pub horizontal: AxisRange,
    pub vertical: AxisRange,
    /// Whether the axes are mapped to the screen. Without it the device would be
    /// taken for a touchpad.
    pub direct: bool,
    /// The codes of the buttons.
    pub keys: Vec<u16>,
    /// How long to wait before the first event, in milliseconds.
    pub settle_millis: u64,
}

/// What the device for a pointer has to offer: two axes that span the desktop
/// and are mapped to it, and the three buttons.
pub fn build_device(pointer: &AbsPointer) -> (r: DevicePlan)
    ensures
        r.name@ == DEVICE_NAME@,
        r.horizontal == spanning(0x00, pointer.desktop_width()),
        r.vertical == spanning(0x01, pointer.desktop_height()),
        r.direct,
        r.keys@ == seq![
            button_code(PointerButton::Left),
            button_code(PointerButton::Right),
            button_code(PointerButton::Middle),
        ],
        r.settle_millis == SETTLE_MILLIS,
{
    let (horizontal, vertical) = pointer.axes();
    let mut keys: Vec<u16> = Vec::new();
    keys.push(PointerButton::Left.key_code());
    keys.push(PointerButton::Right.key_code());
    keys.push(PointerButton::Middle.key_code());
    DevicePlan {
        name: DEVICE_NAME.to_owned(),
        horizontal,
        vertical,
        direct: true,
        keys,
        settle_millis: SETTLE_MILLIS,
    }
}

} // verus!
