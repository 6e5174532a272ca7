//! Translation of X input into input events.

use super::bounds::{Bounds, Rect};
use super::motion::{
    abs, appended, appended_steps, can_round, motion_fits, rounded, rounded_steps,
    unit_resolution_leaves_nothing, Motion,
};
use super::XEvent;
use crate::input::{
    event_of, report_event, EventKind, EventTime, InputEvent, Key, ABS_X, ABS_Y, BUTTON_BACK, BUTTON_EXTRA,
    BUTTON_FORWARD, BUTTON_GEAR_UP, BUTTON_LEFT, BUTTON_MIDDLE, BUTTON_RIGHT, BUTTON_SIDE,
    BUTTON_WHEEL, PRESSED, RELEASED, REL_X, REL_Y,
};
use vstd::prelude::*;

verus! {

/// A number with 32 bits after the point.
#[derive(Debug, Clone, Copy, PartialEq, Eq, Structural)]
pub struct Fp3232 {
    pub integral: i32,
    pub frac: u32,
}

impl Fp3232 {
    /// The number in units of its last bit.
    pub open spec fn units(self) -> int {
        self.integral * 0x1_0000_0000 + self.frac
    }

    pub fn fixed_point(&self) -> (units: i64)
        ensures
            units == self.units(),
    {
        self.integral as i64 * 0x1_0000_0000 + self.frac as i64
    }
}

/// An input event as X reports it.
#[derive(Debug, Clone, Copy, PartialEq, Eq, Structural)]
pub struct XInputEvent {
    pub time: u32,
    pub data: XInputEventData,
}

#[derive(Debug, Clone, Copy, PartialEq, Eq, Structural)]
pub enum XInputEventData {
    Mouse { x: i16, y: i16 },
    MouseRelative { axis: u16, value: Fp3232 },
    Button { pressed: bool, button: u8, state: u16 },
    Key { pressed: bool, keycode: u8, keysym: Option<u32>, state: u16 },
}

/// The window and the pointer in it.
#[derive(Debug, Clone, Copy, PartialEq, Eq, Structural)]
pub struct Position {
    pub width: u16,
    pub height: u16,
    pub last_x: i32,
    pub last_y: i32,
    pub bounds: Rect,
}

/// A coordinate of the window, which has an extent of `dim`, cut off at the
/// edges of the window.
pub open spec fn clipped(dim: u16, value: i16) -> int {
    if value < 0 {
        0
    } else if value > dim {
        dim as int
    } else {
        value as int
    }
}

/// Division that rounds towards zero.
pub open spec fn quotient(a: int, b: int) -> int {
    if a < 0 {
        -((-a) / b)
    } else {
        a / b
    }
}

/// Where a coordinate of a window with an extent of `dim` lies within a range.
pub open spec fn scaled(bounds: Bounds, dim: u16, value: i16) -> int {
    let at = bounds.lower + quotient(clipped(dim, value) * bounds.size, dim as int);
    if bounds.upper < at {
        bounds.upper as int
    } else {
        at
    }
}

/// Whether scaled coordinates stay within the machine's numbers.
pub open spec fn can_scale(bounds: Bounds) -> bool {
    bounds.lower + bounds.size >= i32::MIN
}

/// An axis and the coordinate that it moves to, where it moves.
pub open spec fn axis_move(axis: u16, bounds: Bounds, dim: u16, value: i16, last: i32) -> Seq<
    (u16, i32),
> {
    if dim == 0 || scaled(bounds, dim, value) == last {
        Seq::empty()
    } else {
        seq![(axis, scaled(bounds, dim, value) as i32)]
    }
}

proof fn lemma_scaled_fits(bounds: Bounds, dim: u16, value: i16)
    requires
        dim > 0,
        can_scale(bounds),
    ensures
        i32::MIN <= scaled(bounds, dim, value) <= bounds.upper,
        -0x1_0000_0000_0000 < clipped(dim, value) * bounds.size < 0x1_0000_0000_0000,
        -0x1_0000_0000 < quotient(clipped(dim, value) * bounds.size, dim as int) < 0x1_0000_0000,
{
    let v = clipped(dim, value);
    let s = bounds.size as int;
    let d = dim as int;
    assert(-0x1_0000_0000_0000 < v * s < 0x1_0000_0000_0000) by (nonlinear_arith)
        requires
            0 <= v <= 0xffff,
            -0x8000_0000 <= s < 0x8000_0000,
    ;
    if s >= 0 {
        assert(0 <= v * s <= s * d) by (nonlinear_arith)
            requires
                0 <= v <= d,
                0 <= s,
        ;
        assert(0 <= (v * s) / d <= s) by (nonlinear_arith)
            requires
                0 <= v * s <= s * d,
                0 < d,
        ;
    } else {
        assert(0 <= -(v * s) <= (-s) * d) by (nonlinear_arith)
            requires
                0 <= v <= d,
                s < 0,
        ;
        let p = -(v * s);
        assert(0 <= p / d <= -s) by (nonlinear_arith)
            requires
                0 <= p <= (-s) * d,
                0 < d,
        ;
    }
}

impl Position {
    /// No window yet, and the pointer nowhere.
    pub open spec fn unknown() -> Position {
        Position {
            width: 0,
            height: 0,
            last_x: (-1int) as i32,
            last_y: (-1int) as i32,
            bounds: Rect::nothing(),
        }
    }

    /// Whether a pointer anywhere stays within the machine's numbers.
    pub open spec fn can_convert(self) -> bool {
        can_scale(self.bounds.x) && can_scale(self.bounds.y)
    }

    /// The axes that move, and where to, as the pointer goes to a point of the
    /// window.
    pub open spec fn moves(self, x: i16, y: i16) -> Seq<(u16, i32)> {
        axis_move(ABS_X, self.bounds.x, self.width, x, self.last_x) + axis_move(
            ABS_Y,
            self.bounds.y,
            self.height,
            y,
            self.last_y,
        )
    }

    /// The position once the pointer has gone to a point of the window.
    pub open spec fn moved(self, x: i16, y: i16) -> Position {
        Position {
            last_x: if self.width == 0 {
                self.last_x
            } else {
                scaled(self.bounds.x, self.width, x) as i32
            },
            last_y: if self.height == 0 {
                self.last_y
            } else {
                scaled(self.bounds.y, self.height, y) as i32
            },
            ..self
        }
    }

    pub fn new() -> (position: Position)
        ensures
            position == Position::unknown(),
    {
        Position { width: 0, height: 0, last_x: -1, last_y: -1, bounds: Rect::default() }
    }

    /// Where a coordinate of a window with an extent of `dim` lies within a
    /// range.
    pub fn scale_absolute(bounds: &Bounds, dim: u16, value: i16) -> (at: i32)
        requires
            dim > 0,
            can_scale(*bounds),
        ensures
            at == scaled(*bounds, dim, value),
    {
        proof {
            lemma_scaled_fits(*bounds, dim, value);
        }
        let value: i64 = if value < 0 {
            0
        } else if value as i32 > dim as i32 {
            dim as i64
        } else {
            value as i64
        };
        let product = value * bounds.size as i64;
        let offset = if product < 0 {
            -((-product) / dim as i64)
        } else {
            product / dim as i64
        };
        let at = bounds.lower as i64 + offset;
        if (bounds.upper as i64) < at {
            bounds.upper
        } else {
            at as i32
        }
    }

    /// Moves the pointer to a point of the window, and gives the axes that
    /// move and where to.
    pub fn convert_absolute(&mut self, x: i16, y: i16) -> (moves: Vec<(u16, i32)>)
        requires
            old(self).can_convert(),
        ensures
            moves@ == old(self).moves(x, y),
            *final(self) == old(self).moved(x, y),
    {
        let mut moves: Vec<(u16, i32)> = Vec::new();
        if self.width != 0 {
            let value = Position::scale_absolute(&self.bounds.x, self.width, x);
            if value != self.last_x {
                self.last_x = value;
                moves.push((ABS_X, value));
            }
        }
        if self.height != 0 {
            let value = Position::scale_absolute(&self.bounds.y, self.height, y);
            if value != self.last_y {
                self.last_y = value;
                moves.push((ABS_Y, value));
            }
        }
        assert(moves@ =~= old(self).moves(x, y));
        moves
    }
}

impl Default for Position {
    fn default() -> (position: Self)
        ensures
            position == Position::unknown(),
    {
        Position::new()
    }
}

/// Moving the pointer to where it is moves no axis and changes nothing.
pub proof fn moving_again_is_still(position: Position, x: i16, y: i16)
    requires
        position.can_convert(),
    ensures
        position.moved(x, y).moves(x, y) == Seq::<(u16, i32)>::empty(),
        position.moved(x, y).moved(x, y) == position.moved(x, y),
{
    if position.width > 0 {
        lemma_scaled_fits(position.bounds.x, position.width, x);
    }
    if position.height > 0 {
        lemma_scaled_fits(position.bounds.y, position.height, y);
    }
    assert(position.moved(x, y).moves(x, y) =~= Seq::<(u16, i32)>::empty());
}

/// Every point of the window lies within the range that its axis is mapped to,
/// as far along as in the window, rounded down; and the edges of the window are
/// the ends of the range.
pub proof fn scaled_stays_within(bounds: Bounds, dim: u16, value: i16)
    requires
        dim > 0,
        bounds.is_consistent(),
        bounds.lower <= bounds.upper,
    ensures
        bounds.lower <= scaled(bounds, dim, value) <= bounds.upper,
        value <= 0 ==> scaled(bounds, dim, value) == bounds.lower,
        value >= dim ==> scaled(bounds, dim, value) == bounds.upper,
        0 <= value <= dim ==> scaled(bounds, dim, value) == bounds.lower + (value * bounds.size)
            / dim as int,
{
    lemma_scaled_fits(bounds, dim, value);
    let v = clipped(dim, value);
    let s = bounds.size as int;
    let d = dim as int;
    assert(0 <= v * s && 0 <= (v * s) / d) by (nonlinear_arith)
        requires
            0 <= v,
            0 <= s,
            0 < d,
    ;
    assert(v * s <= s * d) by (nonlinear_arith)
        requires
            0 <= v <= d,
            0 <= s,
    ;
    let p = v * s;
    assert(p / d <= s) by (nonlinear_arith)
        requires
            0 <= p <= s * d,
            0 < d,
    ;
    if v == 0 {
        assert(v * s == 0) by (nonlinear_arith)
            requires
                v == 0,
        ;
        assert(0int / d == 0) by (nonlinear_arith)
            requires
                0 < d,
        ;
    }
    if v == d {
        assert((v * s) / d == s) by (nonlinear_arith)
            requires
                v == d,
                0 < d,
        ;
    }
}

/// Of two points of the window, the one that is further along lies no earlier in
/// the range.
pub proof fn scaling_keeps_the_order(bounds: Bounds, dim: u16, a: i16, b: i16)
    requires
        dim > 0,
        bounds.is_consistent(),
        bounds.lower <= bounds.upper,
        a <= b,
    ensures
        scaled(bounds, dim, a) <= scaled(bounds, dim, b),
{
    let s = bounds.size as int;
    let d = dim as int;
    let v = clipped(dim, a);
    let w = clipped(dim, b);
    assert(0 <= v * s <= w * s) by (nonlinear_arith)
        requires
            0 <= v <= w,
            0 <= s,
    ;
    let p = v * s;
    let q = w * s;
    assert(p / d <= q / d) by (nonlinear_arith)
        requires
            0 <= p <= q,
            0 < d,
    ;
}

/// How many units of motion make a step.
pub const RESOLUTION: u64 = 1;

/// The event that reports steps along a relative axis.
pub open spec fn relative_event(axis: u16, steps: int) -> XEvent {
    XEvent::Input(event_of(EventKind::Relative, axis, (steps as i64) as i32))
}

/// The event that reports a coordinate on an absolute axis.
pub open spec fn absolute_event(axis: u16, value: i32) -> XEvent {
    XEvent::Input(event_of(EventKind::Absolute, axis, value))
}

/// The event that reports a press or a release.
pub open spec fn key_code_event(code: u16, pressed: bool) -> XEvent {
    XEvent::Input(
        event_of(
            EventKind::Key,
            code,
            if pressed {
                PRESSED
            } else {
                RELEASED
            },
        ),
    )
}

/// The code of the button that X gives a number.
pub open spec fn button_code(button: u8) -> Option<u16> {
    if button == 1 {
        Some(BUTTON_LEFT)
    } else if button == 2 {
        Some(BUTTON_MIDDLE)
    } else if button == 3 {
        Some(BUTTON_RIGHT)
    } else if button == 4 {
        Some(BUTTON_GEAR_UP)
    } else if button == 5 {
        Some(BUTTON_WHEEL)
    } else if button == 8 {
        Some(BUTTON_SIDE)
    } else if button == 9 {
        Some(BUTTON_EXTRA)
    } else if button == 10 {
        Some(BUTTON_FORWARD)
    } else if button == 11 {
        Some(BUTTON_BACK)
    } else {
        None
    }
}

/// The steps along one axis, if any.
pub open spec fn step_events(axis: u16, steps: Option<int>) -> Seq<XEvent> {
    match steps {
        Some(n) => seq![relative_event(axis, n)],
        None => Seq::empty(),
    }
}

/// What reports a motion that is pending.
pub open spec fn pending_events(x: int, y: int) -> Seq<XEvent> {
    step_events(REL_X, rounded_steps(x, RESOLUTION as nat)) + step_events(
        REL_Y,
        rounded_steps(y, RESOLUTION as nat),
    )
}

/// The input events that an event of X stands for, with a motion pending along
/// each axis.
pub open spec fn translated(x: int, y: int, position: Position, data: XInputEventData) -> Seq<
    XEvent,
> {
    match data {
        XInputEventData::Mouse { x: to_x, y: to_y } => pending_events(x, y) + position.moves(
            to_x,
            to_y,
        ).map_values(|m: (u16, i32)| absolute_event(m.0, m.1)),
        XInputEventData::MouseRelative { axis, value } => if axis == REL_X {
            step_events(REL_X, appended_steps(x, value.units(), RESOLUTION as nat))
        } else if axis == REL_Y {
            step_events(REL_Y, appended_steps(y, value.units(), RESOLUTION as nat))
        } else {
            seq![relative_event(axis, value.integral as int)]
        },
        XInputEventData::Button { pressed, button, state } => pending_events(x, y) + match button_code(
            button,
        ) {
            Some(code) => seq![key_code_event(code, pressed)],
            None => Seq::empty(),
        },
        XInputEventData::Key { pressed, keycode, keysym, state } => pending_events(x, y).push(
            key_code_event(keycode as u16, pressed),
        ),
    }
}

/// The motion along X that is pending after an event.
pub open spec fn pending_x(x: int, data: XInputEventData) -> int {
    match data {
        XInputEventData::MouseRelative { axis, value } => if axis == REL_X {
            appended(x, value.units(), RESOLUTION as nat)
        } else {
            x
        },
        _ => rounded(x, RESOLUTION as nat),
    }
}

/// The motion along Y that is pending after an event.
pub open spec fn pending_y(y: int, data: XInputEventData) -> int {
    match data {
        XInputEventData::MouseRelative { axis, value } => if axis == REL_Y {
            appended(y, value.units(), RESOLUTION as nat)
        } else {
            y
        },
        _ => rounded(y, RESOLUTION as nat),
    }
}

/// A group of events with the event that ends it; nothing where it is empty.
pub open spec fn grouped(events: Seq<XEvent>) -> Seq<XEvent> {
    if events.len() == 0 {
        events
    } else {
        events.push(XEvent::Input(report_event()))
    }
}

/// The events that wait, the motion along each axis that is not among them yet,
/// and the position.
#[verifier::ext_equal]
pub ghost struct QueueModel {
    pub queued: Seq<XEvent>,
    pub x: int,
    pub y: int,
    pub position: Position,
}

impl QueueModel {
    /// With another event that waits.
    pub open spec fn pushed(self, event: XEvent) -> QueueModel {
        QueueModel { queued: self.queued.push(event), ..self }
    }

    /// Once an event of X has been translated.
    pub open spec fn after(self, data: XInputEventData) -> QueueModel {
        QueueModel {
            queued: self.queued + grouped(translated(self.x, self.y, self.position, data)),
            x: pending_x(self.x, data),
            y: pending_y(self.y, data),
            position: match data {
                XInputEventData::Mouse { x, y } => self.position.moved(x, y),
                _ => self.position,
            },
        }
    }

    /// Once some events of X have been translated.
    pub open spec fn after_all(self, events: Seq<XInputEvent>) -> QueueModel
        decreases events.len(),
    {
        if events.len() == 0 {
            self
        } else {
            self.after_all(events.drop_last()).after(events.last().data)
        }
    }

    /// Whether the pending motion can be reported.
    pub open spec fn can_commit(self) -> bool {
        can_round(self.x, RESOLUTION as nat) && can_round(self.y, RESOLUTION as nat)
    }

    /// Whether an event can be translated within the machine's numbers.
    pub open spec fn can_take(self, data: XInputEventData) -> bool {
        match data {
            XInputEventData::MouseRelative { axis, value } => {
                &&& axis == REL_X ==> i64::MIN <= self.x + value.units() <= i64::MAX
                &&& axis == REL_Y ==> i64::MIN <= self.y + value.units() <= i64::MAX
            },
            XInputEventData::Mouse { .. } => self.can_commit() && self.position.can_convert(),
            _ => self.can_commit(),
        }
    }

    /// Whether some events can be translated within the machine's numbers, one
    /// after another.
    pub open spec fn can_take_all(self, events: Seq<XInputEvent>) -> bool
        decreases events.len(),
    {
        events.len() == 0 || self.can_take_all(events.drop_last()) && self.after_all(
            events.drop_last(),
        ).can_take(events.last().data)
    }
}

/// Events that wait to be sent, and the motion that is not among them yet.
#[derive(Debug)]
pub struct XEventQueue {
    pub event_queue: Vec<XEvent>,
    pub motion: Motion,
    pub position: Position,
}

impl XEventQueue {
    /// The events that wait, first come first.
    pub open spec fn queued(self) -> Seq<XEvent> {
        self.event_queue@
    }

    pub open spec fn model(self) -> QueueModel {
        QueueModel {
            queued: self.queued(),
            x: self.motion.x@,
            y: self.motion.y@,
            position: self.position,
        }
    }

    pub fn new() -> (queue: XEventQueue)
        ensures
            queue.queued() == Seq::<XEvent>::empty(),
            queue.motion.is_still(),
            queue.position == Position::unknown(),
    {
        XEventQueue {
            event_queue: Vec::new(),
            position: Position::default(),
            motion: Motion::default(),
        }
    }

    pub fn set_size(&mut self, width: u16, height: u16)
        ensures
            final(self).position == (Position { width, height, ..old(self).position }),
            final(self).motion == old(self).motion,
            final(self).queued() == old(self).queued(),
    {
        self.position.width = width;
        self.position.height = height;
    }

    pub fn set_bounds(&mut self, bounds: Rect)
        ensures
            final(self).position == (Position { bounds, ..old(self).position }),
            final(self).motion == old(self).motion,
            final(self).queued() == old(self).queued(),
    {
        self.position.bounds = bounds;
    }

    pub fn push(&mut self, event: XEvent)
        ensures
            final(self).queued() == old(self).queued().push(event),
            final(self).motion == old(self).motion,
            final(self).position == old(self).position,
    {
        self.event_queue.push(event);
    }

    /// Takes out the event that has waited longest.
    pub fn pop(&mut self) -> (event: Option<XEvent>)
        ensures
            old(self).queued().len() == 0 ==> event is None && *final(self) == *old(self),
            old(self).queued().len() > 0 ==> event == Some(old(self).queued()[0])
                && final(self).queued() == old(self).queued().drop_first(),
            final(self).motion == old(self).motion,
            final(self).position == old(self).position,
    {
        if self.event_queue.len() == 0 {
            None
        } else {
            let event = self.event_queue.remove(0);
            assert(self.queued() =~= old(self).queued().drop_first());
            Some(event)
        }
    }

    /// Whether an event of X can be translated. Motion that adds up to more
    /// than the machine's numbers hold cannot.
    pub fn accepts(&self, event: &XInputEvent) -> (accepts: bool)
        ensures
            accepts == self.model().can_take(event.data),
    {
        match event.data {
            XInputEventData::MouseRelative { axis, value } => {
                if axis == REL_X {
                    self.motion.x.can_append(value.fixed_point())
                } else if axis == REL_Y {
                    self.motion.y.can_append(value.fixed_point())
                } else {
                    true
                }
            },
            XInputEventData::Mouse { .. } => self.commits() && self.position.bounds.x.lower as i64
                + self.position.bounds.x.size as i64 >= i32::MIN as i64
                && self.position.bounds.y.lower as i64 + self.position.bounds.y.size as i64
                >= i32::MIN as i64,
            _ => self.commits(),
        }
    }

    /// Whether some events of X can be translated one after another.
    pub fn accepts_all(&self, events: &Vec<XInputEvent>) -> (accepts: bool)
        ensures
            accepts == self.model().can_take_all(events@),
    {
        let mut trial = XEventQueue {
            event_queue: Vec::new(),
            motion: self.motion,
            position: self.position,
        };
        let ghost start = trial.model();
        let ghost before = self.model();
        for i in 0..events.len()
            invariant
                before == self.model(),
                before.can_take_all(events@.take(i as int)),
                start.x == before.x,
                start.y == before.y,
                start.position == before.position,
                trial.model() == start.after_all(events@.take(i as int)),
        {
            let ghost taken = events@.take(i as int);
            proof {
                assert(events@.take(i + 1).drop_last() =~= taken);
                lemma_queued_does_not_matter(start, before, taken);
            }
            if !trial.accepts(&events[i]) {
                proof {
                    if before.can_take_all(events@) {
                        lemma_can_take_fewer(before, events@, i + 1);
                    }
                }
                return false;
            }
            trial.push_x_event(&events[i]);
        }
        assert(events@.take(events@.len() as int) =~= events@);
        true
    }

    /// Whether the pending motion can be reported.
    pub fn commits(&self) -> (commits: bool)
        ensures
            commits == self.model().can_commit(),
    {
        self.motion.x.can_round_unit() && self.motion.y.can_round_unit()
    }

    /// Translates an event of X. What it stands for ends the group, if it is
    /// anything.
    pub fn push_x_event(&mut self, event: &XInputEvent)
        requires
            old(self).model().can_take(event.data),
        ensures
            final(self).model() == old(self).model().after(event.data),
    {
        self.convert_x_events(event)
    }

    /// Translates events of X, one after another.
    pub fn push_x_events(&mut self, events: &Vec<XInputEvent>)
        requires
            old(self).model().can_take_all(events@),
        ensures
            final(self).model() == old(self).model().after_all(events@),
    {
        let ghost before = self.model();
        for i in 0..events.len()
            invariant
                before.can_take_all(events@),
                self.model() == before.after_all(events@.take(i as int)),
        {
            proof {
                assert(events@.take(i + 1).drop_last() =~= events@.take(i as int));
                lemma_can_take_fewer(before, events@, i + 1);
            }
            self.push_x_event(&events[i]);
        }
        assert(events@.take(events@.len() as int) =~= events@);
    }

    fn x_button(button: u8) -> (key: Option<Key>)
        ensures
            key is Some <==> button_code(button) is Some,
            key matches Some(k) ==> button_code(button) == Some(k@),
    {
        match button {
            1 => Key::from_code(BUTTON_LEFT),
            2 => Key::from_code(BUTTON_MIDDLE),
            3 => Key::from_code(BUTTON_RIGHT),
            4 => Key::from_code(BUTTON_GEAR_UP),
            5 => Key::from_code(BUTTON_WHEEL),
            8 => Key::from_code(BUTTON_SIDE),
            9 => Key::from_code(BUTTON_EXTRA),
            10 => Key::from_code(BUTTON_FORWARD),
            11 => Key::from_code(BUTTON_BACK),
            _ => None,
        }
    }

    fn x_keycode(key: u8) -> (code: Option<Key>)
        ensures
            code matches Some(k) && k@ == key,
    {
        Key::from_code(key as u16)
    }

    /// Queues the motion that is pending.
    pub fn commit(&mut self)
        requires
            old(self).model().can_commit(),
        ensures
            final(self).queued() == old(self).queued() + grouped(
                pending_events(old(self).motion.x@, old(self).motion.y@),
            ),
            final(self).motion.x@ == rounded(old(self).motion.x@, RESOLUTION as nat),
            final(self).motion.y@ == rounded(old(self).motion.y@, RESOLUTION as nat),
            final(self).position == old(self).position,
    {
        let sync = self.synchronize_start();
        self.commit_pending();
        self.synchronize_end(sync);
        assert(self.queued() =~= old(self).queued() + grouped(
            pending_events(old(self).motion.x@, old(self).motion.y@),
        ));
    }

    fn commit_pending(&mut self)
        requires
            old(self).model().can_commit(),
        ensures
            final(self).queued() == old(self).queued() + pending_events(
                old(self).motion.x@,
                old(self).motion.y@,
            ),
            final(self).motion.x@ == rounded(old(self).motion.x@, RESOLUTION as nat),
            final(self).motion.y@ == rounded(old(self).motion.y@, RESOLUTION as nat),
            final(self).position == old(self).position,
    {
        let x = self.motion.x.round_up(RESOLUTION);
        let y = self.motion.y.round_up(RESOLUTION);
        if let Some(value) = x {
            self.push_relative(REL_X, value);
        }
        if let Some(value) = y {
            self.push_relative(REL_Y, value);
        }
        assert(self.queued() =~= old(self).queued() + pending_events(
            old(self).motion.x@,
            old(self).motion.y@,
        ));
    }

    fn push_relative(&mut self, axis: u16, value: i64)
        ensures
            final(self).queued() == old(self).queued().push(relative_event(axis, value as int)),
            final(self).motion == old(self).motion,
            final(self).position == old(self).position,
    {
        self.event_queue.push(
            XEvent::Input(
                InputEvent::new(
                    EventKind::Relative,
                    axis,
                    #[verifier::truncate]
                    (value as i32),
                ),
            ),
        );
    }

    fn synchronize_start(&self) -> (state: usize)
        ensures
            state == self.queued().len(),
    {
        self.event_queue.len()
    }

    fn synchronize_end(&mut self, state: usize)
        ensures
            final(self).queued() == if old(self).queued().len() == state {
                old(self).queued()
            } else {
                old(self).queued().push(XEvent::Input(report_event()))
            },
            final(self).motion == old(self).motion,
            final(self).position == old(self).position,
    {
        if self.synchronize_start() != state {
            self.event_queue.push(XEvent::Input(InputEvent::report()));
        }
    }

    fn convert_x_events(&mut self, e: &XInputEvent)
        requires
            old(self).model().can_take(e.data),
        ensures
            final(self).model() == old(self).model().after(e.data),
    {
        let ghost before = self.queued();
        let ghost added = translated(self.motion.x@, self.motion.y@, self.position, e.data);
        let sync = self.synchronize_start();
        match e.data {
            XInputEventData::Mouse { x, y } => {
                self.commit_pending();
                let moves = self.position.convert_absolute(x, y);
                let ghost committed = self.queued();
                let ghost wrap = |m: (u16, i32)| absolute_event(m.0, m.1);
                let ghost motion = self.motion;
                let ghost position = self.position;
                for i in 0..moves.len()
                    invariant
                        wrap == (|m: (u16, i32)| absolute_event(m.0, m.1)),
                        self.queued() == committed + moves@.take(i as int).map_values(wrap),
                        self.motion == motion,
                        self.position == position,
                {
                    self.event_queue.push(
                        XEvent::Input(
                            InputEvent::new(EventKind::Absolute, moves[i].0, moves[i].1),
                        ),
                    );
                    proof {
                        assert(moves@.take(i + 1).map_values(wrap) =~= moves@.take(
                            i as int,
                        ).map_values(wrap).push(wrap(moves@[i as int])));
                    }
                }
                assert(moves@.take(moves@.len() as int) =~= moves@);
                assert(self.queued() =~= before + added);
            },
            XInputEventData::MouseRelative { axis, value } => {
                let committed = if axis == REL_X {
                    self.motion.x.append(value.fixed_point(), RESOLUTION)
                } else if axis == REL_Y {
                    self.motion.y.append(value.fixed_point(), RESOLUTION)
                } else {
                    Some(value.integral as i64)
                };
                if let Some(steps) = committed {
                    self.push_relative(axis, steps);
                }
                assert(self.queued() =~= before + added);
            },
            XInputEventData::Button { pressed, button, .. } => {
                self.commit_pending();
                if let Some(key) = XEventQueue::x_button(button) {
                    self.event_queue.push(XEvent::Input(InputEvent::key(key, pressed)));
                }
                assert(self.queued() =~= before + added);
            },
            XInputEventData::Key { pressed, keycode, .. } => {
                self.commit_pending();
                if let Some(key) = XEventQueue::x_keycode(keycode) {
                    self.event_queue.push(XEvent::Input(InputEvent::key(key, pressed)));
                }
                assert(self.queued() =~= before + added);
            },
        }
        self.synchronize_end(sync);
        assert(self.queued() =~= before + grouped(added));
    }
}

proof fn lemma_queued_does_not_matter(a: QueueModel, b: QueueModel, events: Seq<XInputEvent>)
    requires
        a.x == b.x,
        a.y == b.y,
        a.position == b.position,
    ensures
        a.after_all(events).x == b.after_all(events).x,
        a.after_all(events).y == b.after_all(events).y,
        a.after_all(events).position == b.after_all(events).position,
    decreases events.len(),
{
    if events.len() > 0 {
        lemma_queued_does_not_matter(a, b, events.drop_last());
    }
}

proof fn lemma_can_take_fewer(queue: QueueModel, events: Seq<XInputEvent>, n: int)
    requires
        queue.can_take_all(events),
        0 <= n <= events.len(),
    ensures
        queue.can_take_all(events.take(n)),
    decreases events.len() - n,
{
    if n == events.len() {
        assert(events.take(n) =~= events);
    } else {
        lemma_can_take_fewer(queue, events, n + 1);
        assert(events.take(n + 1).drop_last() =~= events.take(n));
    }
}

impl Default for XEventQueue {
    fn default() -> (queue: Self)
        ensures
            queue.queued() == Seq::<XEvent>::empty(),
            queue.motion.is_still(),
            queue.position == Position::unknown(),
    {
        XEventQueue::new()
    }
}

/// A translated group ends with the event that ends groups, and with no other
/// event is one made for nothing.
pub proof fn groups_are_closed(x: int, y: int, position: Position, data: XInputEventData)
    ensures
        grouped(translated(x, y, position, data)).len() > 0 ==> grouped(
            translated(x, y, position, data),
        ).last() == XEvent::Input(report_event()),
        grouped(translated(x, y, position, data)).len() != 1,
{
}

/// Any event but a relative motion reports the motion before it, so that
/// nothing stays pending.
pub proof fn other_events_flush_motion(x: int, y: int, data: XInputEventData)
    requires
        i64::MIN < x <= i64::MAX,
        i64::MIN < y <= i64::MAX,
        !(data is MouseRelative),
    ensures
        pending_x(x, data) == 0,
        pending_y(y, data) == 0,
{
    unit_resolution_leaves_nothing(x);
    unit_resolution_leaves_nothing(y);
}

/// A coordinate of the window, cut off at its edges, lies as far along the range
/// as along the window, rounded towards the start of the range, and no further
/// than the end of the range.
pub proof fn scaling_is_proportional(bounds: Bounds, dim: u16, value: i16, at: i32)
    requires
        dim > 0,
        can_scale(bounds),
        call_ensures(Position::scale_absolute, (&bounds, dim, value), at),
    ensures
        ({
            let inside = if value < 0 {
                0int
            } else if value > dim {
                dim as int
            } else {
                value as int
            };
            let along = inside * bounds.size;
            let reached = (at - bounds.lower) * dim;
            &&& at <= bounds.upper
            &&& bounds.size >= 0 && at < bounds.upper ==> reached <= along < reached + dim
            &&& bounds.size >= 0 && at == bounds.upper ==> reached <= along
            &&& bounds.size < 0 && at < bounds.upper ==> reached - dim < along <= reached
            &&& bounds.size < 0 && at == bounds.upper ==> reached - dim < along
        }),
{
    lemma_scaled_fits(bounds, dim, value);
    let v = clipped(dim, value);
    let d = dim as int;
    let p = v * bounds.size;
    let q = quotient(p, d);
    if p < 0 {
        let n = -p;
        assert((n / d) * d <= n < (n / d) * d + d) by (nonlinear_arith)
            requires
                0 <= n,
                0 < d,
        ;
        assert(q * d == -((n / d) * d)) by (nonlinear_arith)
            requires
                q == -(n / d),
        ;
        assert(q * d - d < p <= q * d);
    } else {
        assert((p / d) * d <= p < (p / d) * d + d) by (nonlinear_arith)
            requires
                0 <= p,
                0 < d,
        ;
        assert(q * d <= p < q * d + d);
    }
    if bounds.size >= 0 {
        assert(p >= 0) by (nonlinear_arith)
            requires
                p == v * bounds.size,
                0 <= v,
                0 <= bounds.size,
        ;
    } else {
        assert(p <= 0) by (nonlinear_arith)
            requires
                p == v * bounds.size,
                0 <= v,
                bounds.size < 0,
        ;
        if p == 0 {
            assert(0int / d == 0) by (nonlinear_arith)
                requires
                    0 < d,
            ;
        }
    }
    let r = at - bounds.lower;
    if at < bounds.upper {
        assert(r == q);
    } else {
        assert(r <= q);
        assert(r * d <= q * d) by (nonlinear_arith)
            requires
                r <= q,
                0 < d,
        ;
    }
}

/// Moving the pointer reports exactly the axes whose coordinate in the range
/// differs from the one reported last, in either direction, with that
/// coordinate, the horizontal axis first; and that coordinate is the one
/// reported last from then on. A window without an extent moves nothing.
pub proof fn moves_report_what_differs(
    before: Position,
    x: i16,
    y: i16,
    at_x: i32,
    at_y: i32,
    moves: Vec<(u16, i32)>,
    after: Position,
)
    requires
        before.can_convert(),
        before.width > 0 ==> call_ensures(
            Position::scale_absolute,
            (&before.bounds.x, before.width, x),
            at_x,
        ),
        before.height > 0 ==> call_ensures(
            Position::scale_absolute,
            (&before.bounds.y, before.height, y),
            at_y,
        ),
        exists|this: &mut Position| #[trigger]
            call_ensures(Position::convert_absolute, (this, x, y), moves) && *this == before
                && *final(this) == after,
    ensures
        forall|m: (u16, i32)| #[trigger]
            moves@.contains(m) <==> {
                ||| m == (0u16, at_x) && before.width > 0 && at_x != before.last_x
                ||| m == (1u16, at_y) && before.height > 0 && at_y != before.last_y
            },
        forall|i: int, j: int|
            0 <= i < j < moves@.len() ==> (#[trigger] moves@[i]).0 < (#[trigger] moves@[j]).0,
        before.width > 0 ==> after.last_x == at_x,
        before.width == 0 ==> after.last_x == before.last_x,
        before.height > 0 ==> after.last_y == at_y,
        before.height == 0 ==> after.last_y == before.last_y,
        after.width == before.width && after.height == before.height,
        after.bounds == before.bounds,
{
    if before.width > 0 {
        lemma_scaled_fits(before.bounds.x, before.width, x);
    }
    if before.height > 0 {
        lemma_scaled_fits(before.bounds.y, before.height, y);
    }
    let first = axis_move(ABS_X, before.bounds.x, before.width, x, before.last_x);
    let second = axis_move(ABS_Y, before.bounds.y, before.height, y, before.last_y);
    assert(moves@ == first + second);
    assert forall|m: (u16, i32)| #[trigger] moves@.contains(m) <==> {
        ||| m == (0u16, at_x) && before.width > 0 && at_x != before.last_x
        ||| m == (1u16, at_y) && before.height > 0 && at_y != before.last_y
    } by {
        if before.width > 0 && at_x != before.last_x {
            assert(moves@[0] == (0u16, at_x));
        }
        if before.height > 0 && at_y != before.last_y {
            assert(moves@[first.len() as int] == (1u16, at_y));
        }
    }
}

/// The coordinate on an axis once some moves were made.
pub open spec fn replayed(start: i32, axis: u16, moves: Seq<(u16, i32)>) -> i32
    decreases moves.len(),
{
    if moves.len() == 0 {
        start
    } else if moves.last().0 == axis {
        moves.last().1
    } else {
        replayed(start, axis, moves.drop_last())
    }
}

/// The position once the pointer has gone through some points.
pub open spec fn moved_through(position: Position, points: Seq<(i16, i16)>) -> Position
    decreases points.len(),
{
    if points.len() == 0 {
        position
    } else {
        moved_through(position, points.drop_last()).moved(points.last().0, points.last().1)
    }
}

/// All moves that are reported as the pointer goes through some points.
pub open spec fn moves_through(position: Position, points: Seq<(i16, i16)>) -> Seq<(u16, i32)>
    decreases points.len(),
{
    if points.len() == 0 {
        Seq::empty()
    } else {
        moves_through(position, points.drop_last()) + moved_through(
            position,
            points.drop_last(),
        ).moves(points.last().0, points.last().1)
    }
}

proof fn lemma_replayed_through(position: Position, points: Seq<(i16, i16)>)
    requires
        position.can_convert(),
    ensures
        ({
            let now = moved_through(position, points);
            let moves = moves_through(position, points);
            &&& now == (Position { last_x: now.last_x, last_y: now.last_y, ..position })
            &&& replayed(position.last_x, 0, moves) == now.last_x
            &&& replayed(position.last_y, 1, moves) == now.last_y
        }),
    decreases points.len(),
{
    if points.len() > 0 {
        let fewer = points.drop_last();
        lemma_replayed_through(position, fewer);
        let prior = moved_through(position, fewer);
        let (x, y) = points.last();
        let earlier = moves_through(position, fewer);
        let first = axis_move(ABS_X, prior.bounds.x, prior.width, x, prior.last_x);
        let second = axis_move(ABS_Y, prior.bounds.y, prior.height, y, prior.last_y);
        if prior.width > 0 {
            lemma_scaled_fits(prior.bounds.x, prior.width, x);
        }
        if prior.height > 0 {
            lemma_scaled_fits(prior.bounds.y, prior.height, y);
        }
        let middle = earlier + first;
        let all = earlier + (first + second);
        assert(all =~= middle + second);
        if first.len() > 0 {
            assert(middle.drop_last() =~= earlier);
        } else {
            assert(middle =~= earlier);
        }
        let now = prior.moved(x, y);
        assert(replayed(position.last_x, 0, middle) == now.last_x);
        assert(replayed(position.last_y, 1, middle) == prior.last_y);
        if second.len() > 0 {
            assert(all.drop_last() =~= middle);
        } else {
            assert(all =~= middle);
        }
        assert(replayed(position.last_x, 0, all) == now.last_x);
        assert(replayed(position.last_y, 1, all) == now.last_y);
    }
}

/// However the pointer goes through a window with an extent, the moves that were
/// reported, one after another, end where the last point lies in the range, on
/// both axes: no move is lost.
pub proof fn reported_moves_end_at_the_pointer(
    position: Position,
    points: Seq<(i16, i16)>,
    at_x: i32,
    at_y: i32,
)
    requires
        position.can_convert(),
        position.width > 0,
        position.height > 0,
        points.len() > 0,
        call_ensures(
            Position::scale_absolute,
            (&position.bounds.x, position.width, points.last().0),
            at_x,
        ),
        call_ensures(
            Position::scale_absolute,
            (&position.bounds.y, position.height, points.last().1),
            at_y,
        ),
    ensures
        replayed(position.last_x, 0, moves_through(position, points)) == at_x,
        replayed(position.last_y, 1, moves_through(position, points)) == at_y,
{
    lemma_replayed_through(position, points);
    lemma_replayed_through(position, points.drop_last());
    lemma_scaled_fits(position.bounds.x, position.width, points.last().0);
    lemma_scaled_fits(position.bounds.y, position.height, points.last().1);
}

/// Events leave the queue in the order in which they were added.
pub proof fn the_queue_keeps_the_order(
    before: XEventQueue,
    event: XEvent,
    taken: Option<XEvent>,
    after: XEventQueue,
)
    ensures
        (exists|this: &mut XEventQueue, r: ()| #[trigger]
            call_ensures(XEventQueue::push, (this, event), r) && *this == before && *final(this)
                == after) ==> {
            &&& after.event_queue@.len() == before.event_queue@.len() + 1
            &&& after.event_queue@.last() == event
            &&& after.event_queue@.drop_last() == before.event_queue@
        },
        (exists|this: &mut XEventQueue| #[trigger]
            call_ensures(XEventQueue::pop, (this,), taken) && *this == before && *final(this)
                == after) ==> {
            &&& taken is None <==> before.event_queue@.len() == 0
            &&& taken matches Some(e) ==> seq![e] + after.event_queue@ == before.event_queue@
            &&& taken is None ==> after.event_queue@ == before.event_queue@
        },
{
    if exists|this: &mut XEventQueue, r: ()| #[trigger]
        call_ensures(XEventQueue::push, (this, event), r) && *this == before && *final(this)
            == after {
        assert(after.event_queue@.drop_last() =~= before.event_queue@);
    }
    if exists|this: &mut XEventQueue| #[trigger]
        call_ensures(XEventQueue::pop, (this,), taken) && *this == before && *final(this) == after {
        if before.event_queue@.len() > 0 {
            assert(seq![before.event_queue@[0]] + before.event_queue@.drop_first()
                =~= before.event_queue@);
        }
    }
}

/// An input event without a timestamp.
pub open spec fn plain(kind: EventKind, code: u16, value: i32) -> XEvent {
    XEvent::Input(
        InputEvent { time: EventTime { seconds: 0, microseconds: 0 }, kind, code, value },
    )
}

/// The events that report a pending motion: one for each axis along which there
/// is any.
pub open spec fn reported_motion(x: int, y: int) -> Seq<XEvent> {
    let along_x = (abs(x) as i64) as i32;
    let along_y = (abs(y) as i64) as i32;
    if x != 0 && y != 0 {
        seq![plain(EventKind::Relative, 0, along_x), plain(EventKind::Relative, 1, along_y)]
    } else if x != 0 {
        seq![plain(EventKind::Relative, 0, along_x)]
    } else if y != 0 {
        seq![plain(EventKind::Relative, 1, along_y)]
    } else {
        seq![]
    }
}

/// A key that goes down or up is queued with its code as a press or a release,
/// behind the motion before it and in front of the event that ends the group.
pub proof fn keys_are_queued(before: XEventQueue, event: XInputEvent, after: XEventQueue)
    requires
        before.model().can_take(event.data),
        exists|this: &mut XEventQueue, r: ()| #[trigger]
            call_ensures(XEventQueue::push_x_event, (this, &event), r) && *this == before
                && *final(this) == after,
        event.data is Key,
    ensures
        event.data matches XInputEventData::Key { pressed, keycode, .. } ==> after.event_queue@
            == before.event_queue@ + reported_motion(before.motion.x@, before.motion.y@) + seq![
            plain(
                EventKind::Key,
                keycode as u16,
                if pressed {
                    1
                } else {
                    0
                },
            ),
            plain(EventKind::Synchronize, 0, 0),
        ],
        after.motion.is_still(),
        after.position == before.position,
{
    motion_fits(before.motion.x);
    motion_fits(before.motion.y);
    lemma_reported(before.motion.x@, before.motion.y@);
    other_events_flush_motion(before.motion.x@, before.motion.y@, event.data);
    if let XInputEventData::Key { pressed, keycode, .. } = event.data {
        let own = key_code_event(keycode as u16, pressed);
        assert(before.event_queue@ + grouped(
            reported_motion(before.motion.x@, before.motion.y@).push(own),
        ) =~= before.event_queue@ + reported_motion(before.motion.x@, before.motion.y@) + seq![
            own,
            plain(EventKind::Synchronize, 0, 0),
        ]);
    }
}

/// The code of the button that has a number in X, for the numbers that buttons
/// of a mouse have.
pub open spec fn is_button_with(button: u8, code: u16) -> bool {
    ||| button == 1 && code == 0x110
    ||| button == 2 && code == 0x112
    ||| button == 3 && code == 0x111
    ||| button == 4 && code == 0x151
    ||| button == 5 && code == 0x150
    ||| button == 8 && code == 0x113
    ||| button == 9 && code == 0x114
    ||| button == 10 && code == 0x115
    ||| button == 11 && code == 0x116
}

/// A button that goes down or up is queued with the code that the kernel has for
/// it as a press or a release, behind the motion before it and in front of the
/// event that ends the group. Of any other button only the motion is queued.
pub proof fn buttons_are_queued(
    before: XEventQueue,
    event: XInputEvent,
    code: u16,
    after: XEventQueue,
)
    requires
        before.model().can_take(event.data),
        exists|this: &mut XEventQueue, r: ()| #[trigger]
            call_ensures(XEventQueue::push_x_event, (this, &event), r) && *this == before
                && *final(this) == after,
        event.data is Button,
    ensures
        event.data matches XInputEventData::Button { pressed, button, .. } ==> {
            let motion = reported_motion(before.motion.x@, before.motion.y@);
            let own = plain(
                EventKind::Key,
                code,
                if pressed {
                    1
                } else {
                    0
                },
            );
            let end = plain(EventKind::Synchronize, 0, 0);
            &&& is_button_with(button, code) ==> after.event_queue@ == before.event_queue@ + motion
                + seq![own, end]
            &&& (button == 0 || button == 6 || button == 7 || button > 11) ==> after.event_queue@
                == before.event_queue@ + motion + if motion.len() > 0 {
                seq![end]
            } else {
                seq![]
            }
        },
        after.motion.is_still(),
        after.position == before.position,
{
    motion_fits(before.motion.x);
    motion_fits(before.motion.y);
    lemma_reported(before.motion.x@, before.motion.y@);
    other_events_flush_motion(before.motion.x@, before.motion.y@, event.data);
    if let XInputEventData::Button { pressed, button, .. } = event.data {
        let motion = reported_motion(before.motion.x@, before.motion.y@);
        let own = key_code_event(code, pressed);
        let end = plain(EventKind::Synchronize, 0, 0);
        if is_button_with(button, code) {
            assert(motion + seq![own] =~= motion.push(own));
            assert(before.event_queue@ + motion.push(own).push(end) =~= before.event_queue@ + motion
                + seq![own, end]);
        } else if button_code(button) is None {
            assert(motion + Seq::<XEvent>::empty() =~= motion);
            assert(before.event_queue@ + grouped(motion) =~= before.event_queue@ + motion
                + if motion.len() > 0 {
                seq![end]
            } else {
                seq![]
            });
        }
    }
}

/// A pointer that goes to a point of the window is queued as the moves of the
/// absolute axes, behind the motion before it and in front of the event that ends
/// the group. Where nothing moves, nothing is queued.
pub proof fn pointers_are_queued(
    before: XEventQueue,
    event: XInputEvent,
    moves: Vec<(u16, i32)>,
    after: XEventQueue,
)
    requires
        before.model().can_take(event.data),
        exists|this: &mut XEventQueue, r: ()| #[trigger]
            call_ensures(XEventQueue::push_x_event, (this, &event), r) && *this == before
                && *final(this) == after,
        event.data matches XInputEventData::Mouse { x, y } && exists|this: &mut Position| #[trigger]
            call_ensures(Position::convert_absolute, (this, x, y), moves) && *this
                == before.position && *final(this) == after.position,
    ensures
        ({
            let motion = reported_motion(before.motion.x@, before.motion.y@);
            let start = before.event_queue@.len() + motion.len();
            let queue = after.event_queue@;
            &&& queue.take(start as int) == before.event_queue@ + motion
            &&& queue.len() == if start + moves@.len() == before.event_queue@.len() {
                start
            } else {
                start + moves@.len() + 1
            }
            &&& forall|i: int|
                0 <= i < moves@.len() ==> #[trigger] queue[start + i] == plain(
                    EventKind::Absolute,
                    moves@[i].0,
                    moves@[i].1,
                )
            &&& queue.len() > before.event_queue@.len() ==> queue.last() == plain(
                EventKind::Synchronize,
                0,
                0,
            )
        }),
        after.motion.is_still(),
{
    motion_fits(before.motion.x);
    motion_fits(before.motion.y);
    lemma_reported(before.motion.x@, before.motion.y@);
    other_events_flush_motion(before.motion.x@, before.motion.y@, event.data);
    let motion = reported_motion(before.motion.x@, before.motion.y@);
    let start = before.event_queue@.len() + motion.len();
    let wrap = |m: (u16, i32)| absolute_event(m.0, m.1);
    let own = moves@.map_values(wrap);
    let queue = after.event_queue@;
    assert(queue == before.event_queue@ + grouped(motion + own));
    assert(queue.take(start as int) =~= before.event_queue@ + motion);
    assert forall|i: int| 0 <= i < moves@.len() implies #[trigger] queue[start + i] == plain(
        EventKind::Absolute,
        moves@[i].0,
        moves@[i].1,
    ) by {
        assert((motion + own)[motion.len() + i] == own[i]);
    }
}

/// A relative motion along a pointer's axis adds to the one that is pending, and
/// queues nothing, as long as it goes on in the same direction; where it turns
/// around, what was pending is queued and only the new motion is pending. The
/// other axis is not touched. A motion along any other axis is queued at once.
pub proof fn motions_are_queued(before: XEventQueue, event: XInputEvent, after: XEventQueue)
    requires
        before.model().can_take(event.data),
        exists|this: &mut XEventQueue, r: ()| #[trigger]
            call_ensures(XEventQueue::push_x_event, (this, &event), r) && *this == before
                && *final(this) == after,
        event.data is MouseRelative,
        before.motion.x@ > i64::MIN,
        before.motion.y@ > i64::MIN,
    ensures
        event.data matches XInputEventData::MouseRelative { axis, value } ==> {
            let by = value.integral * 0x1_0000_0000 + value.frac;
            let x = before.motion.x@;
            let y = before.motion.y@;
            let goes_on_x = x == 0 || x > 0 && by > 0 || x < 0 && by < 0;
            let goes_on_y = y == 0 || y > 0 && by > 0 || y < 0 && by < 0;
            let end = plain(EventKind::Synchronize, 0, 0);
            &&& axis == 0 ==> {
                &&& after.motion.y@ == y
                &&& after.motion.x@ == if goes_on_x {
                    x + by
                } else {
                    by
                }
                &&& after.event_queue@ == before.event_queue@ + if goes_on_x {
                    seq![]
                } else {
                    reported_motion(x, 0).push(end)
                }
            }
            &&& axis == 1 ==> {
                &&& after.motion.x@ == x
                &&& after.motion.y@ == if goes_on_y {
                    y + by
                } else {
                    by
                }
                &&& after.event_queue@ == before.event_queue@ + if goes_on_y {
                    seq![]
                } else {
                    reported_motion(0, y).push(end)
                }
            }
            &&& axis > 1 ==> {
                &&& after.motion.x@ == x && after.motion.y@ == y
                &&& after.event_queue@ == before.event_queue@ + seq![
                    plain(EventKind::Relative, axis, value.integral),
                    end,
                ]
            }
        },
        after.position == before.position,
{
    if let XInputEventData::MouseRelative { axis, value } = event.data {
        let x = before.motion.x@;
        let y = before.motion.y@;
        motion_fits(before.motion.x);
        motion_fits(before.motion.y);
        lemma_reported(x, 0);
        lemma_reported(0, y);
        let end = plain(EventKind::Synchronize, 0, 0);
        let own = relative_event(axis, value.integral as int);
        assert(grouped(seq![own]) =~= seq![own, end]);
        assert(grouped(reported_motion(x, 0)) =~= if x == 0 {
            seq![]
        } else {
            reported_motion(x, 0).push(end)
        });
        assert(grouped(reported_motion(0, y)) =~= if y == 0 {
            seq![]
        } else {
            reported_motion(0, y).push(end)
        });
    }
}

proof fn lemma_reported(x: int, y: int)
    requires
        i64::MIN <= x <= i64::MAX,
        i64::MIN <= y <= i64::MAX,
    ensures
        i64::MIN < x && i64::MIN < y ==> pending_events(x, y) == reported_motion(x, y),
{
    if i64::MIN < x && i64::MIN < y {
        unit_resolution_leaves_nothing(x);
        unit_resolution_leaves_nothing(y);
        assert(pending_events(x, y) =~= reported_motion(x, y));
    }
}

/// The size of the window and the range that it is mapped to take the place of those
/// before, and nothing else changes.
pub proof fn windows_are_resized_and_mapped(
    before: XEventQueue,
    width: u16,
    height: u16,
    sized: XEventQueue,
    bounds: Rect,
    mapped: XEventQueue,
)
    requires
        exists|this: &mut XEventQueue, r: ()| #[trigger]
            call_ensures(XEventQueue::set_size, (this, width, height), r) && *this == before
                && *final(this) == sized,
        exists|this: &mut XEventQueue, r: ()| #[trigger]
            call_ensures(XEventQueue::set_bounds, (this, bounds), r) && *this == before
                && *final(this) == mapped,
    ensures
        sized.position.width == width && sized.position.height == height,
        sized.position.bounds == before.position.bounds,
        mapped.position.bounds == bounds,
        mapped.position.width == before.position.width && mapped.position.height
            == before.position.height,
        sized.position.last_x == before.position.last_x && sized.position.last_y
            == before.position.last_y,
        mapped.position.last_x == before.position.last_x && mapped.position.last_y
            == before.position.last_y,
        sized.motion == before.motion && mapped.motion == before.motion,
        sized.event_queue@ == before.event_queue@ && mapped.event_queue@ == before.event_queue@,
{
}

/// Committing queues the motion that is pending and the event that ends its group,
/// where there is any, and leaves none pending.
pub proof fn commits_leave_no_motion(before: XEventQueue, after: XEventQueue)
    requires
        before.model().can_commit(),
        exists|this: &mut XEventQueue, r: ()| #[trigger]
            call_ensures(XEventQueue::commit, (this,), r) && *this == before && *final(this)
                == after,
    ensures
        after.event_queue@ == before.event_queue@ + (if before.motion.x@ == 0 && before.motion.y@
            == 0 {
            seq![]
        } else {
            reported_motion(before.motion.x@, before.motion.y@).push(
                plain(EventKind::Synchronize, 0, 0),
            )
        }),
        after.motion.is_still(),
        after.position == before.position,
{
    motion_fits(before.motion.x);
    motion_fits(before.motion.y);
    lemma_reported(before.motion.x@, before.motion.y@);
    unit_resolution_leaves_nothing(before.motion.x@);
    unit_resolution_leaves_nothing(before.motion.y@);
}

/// Any event is accepted as long as the motion that adds up fits the machine's numbers
/// and the range of the screen does.
pub proof fn ordinary_events_are_accepted(
    queue: XEventQueue,
    event: XInputEvent,
    accepts: bool,
)
    requires
        call_ensures(XEventQueue::accepts, (&queue, &event), accepts),
        -0x4000_0000_0000_0000 <= queue.motion.x@ <= 0x3fff_ffff_0000_0000,
        -0x4000_0000_0000_0000 <= queue.motion.y@ <= 0x3fff_ffff_0000_0000,
        queue.position.bounds.x.is_consistent() && queue.position.bounds.y.is_consistent(),
        event.data matches XInputEventData::MouseRelative { axis, value } ==> -0x4000_0000
            <= value.integral < 0x4000_0000,
    ensures
        accepts,
{
    unit_resolution_leaves_nothing(queue.motion.x@);
    unit_resolution_leaves_nothing(queue.motion.y@);
}

/// Some events are translated as they are one after another, in order.
pub proof fn events_are_translated_in_order(
    before: XEventQueue,
    events: Vec<XInputEvent>,
    all: Vec<XInputEvent>,
    event: XInputEvent,
    between: XEventQueue,
    after: XEventQueue,
    at_once: XEventQueue,
)
    requires
        all@ == events@.push(event),
        before.model().can_take_all(all@),
        exists|this: &mut XEventQueue, r: ()| #[trigger]
            call_ensures(XEventQueue::push_x_events, (this, &events), r) && *this == before
                && *final(this) == between,
        exists|this: &mut XEventQueue, r: ()| #[trigger]
            call_ensures(XEventQueue::push_x_event, (this, &event), r) && *this == between
                && *final(this) == after,
        exists|this: &mut XEventQueue, r: ()| #[trigger]
            call_ensures(XEventQueue::push_x_events, (this, &all), r) && *this == before
                && *final(this) == at_once,
    ensures
        at_once.event_queue@ == after.event_queue@,
        at_once.motion.x@ == after.motion.x@ && at_once.motion.y@ == after.motion.y@,
        at_once.position == after.position,
        events@.len() == 0 ==> between.event_queue@ == before.event_queue@,
{
    assert(all@.drop_last() =~= events@);
}

/// A window starts without an extent and with the pointer nowhere, so that the first
/// point that it goes to is told, and a range is as large as its ends are apart.
pub proof fn windows_start_without_an_extent(
    position: Position,
    queue: XEventQueue,
    lower: i32,
    upper: i32,
    bounds: Bounds,
    value: Fp3232,
    units: i64,
)
    requires
        i32::MIN <= upper - lower <= i32::MAX,
        call_ensures(Position::new, (), position),
        call_ensures(XEventQueue::new, (), queue),
        call_ensures(Bounds::between, (lower, upper), bounds),
        call_ensures(Fp3232::fixed_point, (&value,), units),
    ensures
        position.width == 0 && position.height == 0,
        position.last_x == -1 && position.last_y == -1,
        position.bounds.x == position.bounds.y && position.bounds.x.size == 0,
        queue.position == position && queue.event_queue@.len() == 0 && queue.motion.is_still(),
        bounds.lower == lower && bounds.upper == upper && bounds.size == upper - lower,
        units == value.integral * 0x1_0000_0000 + value.frac,
{
}

} // verus!
