use screenstub::x::bounds::{Bounds, Rect};
use screenstub::x::events::{
    Fp3232, Position, XEventQueue, XInputEvent, XInputEventData,
};
use screenstub::x::motion::MotionVector;
use screenstub::x::util::iter_bits;
use screenstub::x::XEvent;
use screenstub::input::{EventKind, InputEvent};

fn vector(value: i64) -> MotionVector {
    let mut v = MotionVector::default();
    v.offset(value);
    v
}

#[test]
fn truncating_takes_whole_steps() {
    let mut v = vector(17);
    assert_eq!(v.truncate(5), Some(3));
    assert_eq!(v, vector(2));
    assert_eq!(v.truncate(5), None);
    let mut v = vector(-17);
    assert_eq!(v.truncate(5), Some(-3));
    assert_eq!(v, vector(-2));
    let mut v = vector(i64::MIN);
    assert_eq!(v.truncate(1 << 62), Some(2));
}

#[test]
fn rounding_up_keeps_the_excess() {
    let mut v = vector(17);
    assert_eq!(v.round_up(5), Some(-4));
    assert_eq!(v, vector(-3));
    let mut v = vector(-17);
    assert_eq!(v.round_up(5), Some(4));
    assert_eq!(v, vector(3));
    let mut v = vector(0);
    assert_eq!(v.round_up(5), None);
    let mut v = vector(9);
    assert_eq!(v.round_up(1), Some(9));
    assert_eq!(v, vector(0));
}

#[test]
fn appending_reports_a_turn() {
    let mut v = vector(4);
    assert_eq!(v.append(6, 3), None);
    assert_eq!(v, vector(10));
    assert_eq!(v.append(-2, 3), Some(3));
    assert_eq!(v, vector(-1));
    assert!(v.can_append(5));
    assert!(!v.can_append(i64::MIN));
    v.clear();
    assert_eq!(v, vector(0));
}

#[test]
fn bits_are_listed() {
    assert_eq!(iter_bits(0), Vec::<usize>::new());
    assert_eq!(iter_bits(1), vec![0]);
    assert_eq!(iter_bits(0b1010_0110), vec![1, 2, 5, 7]);
    assert_eq!(iter_bits(0x8000_0001), vec![0, 31]);
    assert_eq!(iter_bits(0xffff_ffff), (0..32).collect::<Vec<usize>>());
}

#[test]
fn bounds_have_a_size() {
    let b = Bounds::between(100, 0x7fff);
    assert_eq!((b.lower, b.upper, b.size), (100, 0x7fff, 0x7fff - 100));
    assert_eq!(Bounds::default().size, 0);
}

fn queue(width: u16, height: u16) -> XEventQueue {
    let mut q = XEventQueue::new();
    q.set_size(width, height);
    q.set_bounds(Rect { x: Bounds::between(0, 0x7fff), y: Bounds::between(0x1000, 0x2000) });
    q
}

fn input(kind: EventKind, code: u16, value: i32) -> XEvent {
    XEvent::Input(InputEvent::new(kind, code, value))
}

fn report() -> XEvent {
    XEvent::Input(InputEvent::report())
}

fn drain(q: &mut XEventQueue) -> Vec<XEvent> {
    let mut events = Vec::new();
    while let Some(e) = q.pop() {
        events.push(e);
    }
    events
}

fn push(q: &mut XEventQueue, data: XInputEventData) {
    let event = XInputEvent { time: 0, data };
    assert!(q.accepts(&event));
    q.push_x_event(&event);
}

#[test]
fn the_pointer_is_scaled() {
    let mut q = queue(1000, 500);
    push(&mut q, XInputEventData::Mouse { x: 500, y: 250 });
    assert_eq!(
        drain(&mut q),
        vec![
            input(EventKind::Absolute, 0, 0x7fff / 2),
            input(EventKind::Absolute, 1, 0x1000 + 0x1000 / 2),
            report()
        ]
    );
    push(&mut q, XInputEventData::Mouse { x: 2000, y: -5 });
    assert_eq!(
        drain(&mut q),
        vec![
            input(EventKind::Absolute, 0, 0x7fff),
            input(EventKind::Absolute, 1, 0x1000),
            report()
        ]
    );
}

#[test]
fn a_pointer_at_rest_is_not_reported() {
    let mut q = queue(1000, 500);
    push(&mut q, XInputEventData::Mouse { x: 10, y: 10 });
    assert_eq!(drain(&mut q).len(), 3);
    push(&mut q, XInputEventData::Mouse { x: 10, y: 10 });
    assert_eq!(drain(&mut q), vec![]);
    push(&mut q, XInputEventData::Mouse { x: 20, y: 10 });
    assert_eq!(
        drain(&mut q),
        vec![input(EventKind::Absolute, 0, 20 * 0x7fff / 1000), report()]
    );
}

#[test]
fn a_window_without_a_size_reports_no_pointer() {
    let mut q = queue(0, 0);
    push(&mut q, XInputEventData::Mouse { x: 10, y: 10 });
    assert_eq!(drain(&mut q), vec![]);
    assert_eq!(Position::new().last_x, -1);
    assert_eq!(Position::default().last_y, -1);
}

#[test]
fn buttons_and_keys_are_translated() {
    let mut q = queue(10, 10);
    let buttons = [
        (1, 0x110),
        (2, 0x112),
        (3, 0x111),
        (4, 0x151),
        (5, 0x150),
        (8, 0x113),
        (9, 0x114),
        (10, 0x115),
        (11, 0x116),
    ];
    for (button, code) in buttons {
        push(&mut q, XInputEventData::Button { pressed: true, button, state: 0 });
        assert_eq!(drain(&mut q), vec![input(EventKind::Key, code, 1), report()]);
    }
    push(&mut q, XInputEventData::Button { pressed: true, button: 6, state: 0 });
    assert_eq!(drain(&mut q), vec![]);
    push(&mut q, XInputEventData::Key { pressed: false, keycode: 30, keysym: None, state: 0 });
    assert_eq!(drain(&mut q), vec![input(EventKind::Key, 30, 0), report()]);
}

fn relative(axis: u16, units: i64) -> XInputEventData {
    XInputEventData::MouseRelative {
        axis,
        value: Fp3232 { integral: (units >> 32) as i32, frac: units as u32 },
    }
}

#[test]
fn motion_is_collected_until_something_else_happens() {
    let mut q = queue(10, 10);
    push(&mut q, relative(0, 5));
    // the first motion turns away from rest, but no whole step was pending
    assert_eq!(drain(&mut q), vec![]);
    push(&mut q, relative(0, 7));
    push(&mut q, relative(1, 2));
    assert_eq!(drain(&mut q), vec![]);
    push(&mut q, XInputEventData::Button { pressed: true, button: 1, state: 0 });
    assert_eq!(
        drain(&mut q),
        vec![
            input(EventKind::Relative, 0, 12),
            input(EventKind::Relative, 1, 2),
            input(EventKind::Key, 0x110, 1),
            report()
        ]
    );
    push(&mut q, XInputEventData::Button { pressed: false, button: 1, state: 0 });
    assert_eq!(drain(&mut q), vec![input(EventKind::Key, 0x110, 0), report()]);
}

#[test]
fn a_turn_reports_the_motion_before_it() {
    let mut q = queue(10, 10);
    push(&mut q, relative(1, 5));
    push(&mut q, relative(1, -3));
    assert_eq!(drain(&mut q), vec![input(EventKind::Relative, 1, 5), report()]);
    q.commit();
    assert_eq!(drain(&mut q).len(), 2);
    q.commit();
    assert_eq!(drain(&mut q), vec![]);
}

#[test]
fn wheels_turn_by_whole_units() {
    let mut q = queue(10, 10);
    push(
        &mut q,
        XInputEventData::MouseRelative { axis: 8, value: Fp3232 { integral: -2, frac: 77 } },
    );
    assert_eq!(drain(&mut q), vec![input(EventKind::Relative, 8, -2), report()]);
}

#[test]
fn motion_beyond_the_numbers_is_not_accepted() {
    let mut q = queue(10, 10);
    push(&mut q, relative(0, i64::MAX));
    let more = XInputEvent { time: 0, data: relative(0, 1) };
    assert!(!q.accepts(&more));
    assert!(!q.accepts_all(&vec![more]));
    let back = XInputEvent { time: 0, data: relative(0, -1) };
    assert!(q.accepts(&back));
    assert!(q.accepts_all(&vec![back, more]));
    assert!(q.commits());
}

#[test]
fn events_wait_in_order() {
    let mut q = XEventQueue::default();
    assert_eq!(q.pop(), None);
    q.push(XEvent::Close);
    q.push(XEvent::Focus(true));
    assert_eq!(q.pop(), Some(XEvent::Close));
    assert_eq!(q.pop(), Some(XEvent::Focus(true)));
    assert_eq!(q.pop(), None);
}

#[test]
fn fixed_point_numbers() {
    assert_eq!(Fp3232 { integral: 1, frac: 0x8000_0000 }.fixed_point(), 3 << 31);
    assert_eq!(Fp3232 { integral: -1, frac: 0xffff_ffff }.fixed_point(), -1);
    assert_eq!(Fp3232 { integral: i32::MIN, frac: 0 }.fixed_point(), i64::MIN);
}

#[test]
fn scaling_keeps_the_order_of_points() {
    let b = Bounds::between(100, 1000);
    let at = |value| Position::scale_absolute(&b, 7, value);
    assert_eq!([at(-3), at(0), at(1), at(6), at(7), at(9)], [100, 100, 228, 871, 1000, 1000]);
    for value in -10..20 {
        assert!(at(value) <= at(value + 1));
    }
}

#[test]
fn moving_to_the_same_point_moves_nothing() {
    let mut position = Position::new();
    assert_eq!(position.convert_absolute(1, 1), vec![]);
    position.width = 10;
    position.bounds = Rect { x: Bounds::between(0, 100), y: Bounds::between(0, 100) };
    assert_eq!(position.convert_absolute(5, 5), vec![(0, 50)]);
    position.height = 20;
    assert_eq!(position.convert_absolute(6, 5), vec![(0, 60), (1, 25)]);
    assert_eq!(position.convert_absolute(6, 5), vec![]);
}
