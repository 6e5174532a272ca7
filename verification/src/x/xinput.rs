//! Versions and events of the input extension.

use super::events::{Fp3232, XInputEvent, XInputEventData};
use super::protocol::{
    InputDeviceEvent, KeyboardMapping, ModifierMapping, MotionNotifyEvent, Valuator, ValuatorMode,
    XI2DeviceEvent, XIEventMask,
};
use crate::config::ConfigInputEvent;
use crate::filter::EventFlags;
use crate::input::{REL_HORIZONTAL_WHEEL, REL_WHEEL, REL_X, REL_Y};
use std::collections::BTreeMap;
use vstd::prelude::*;
use vstd::std_specs::btree::group_btree_axioms;

verus! {

/// A version of the input extension.
#[derive(Debug, Clone, Copy, PartialEq, Eq, PartialOrd, Ord, Structural)]
pub struct XInputVersion {
    pub major: u16,
    pub minor: u16,
}

/// What the server answers to a question for the version of the extension that
/// is spoken.
#[derive(Debug, Clone, Copy, PartialEq, Eq, Structural)]
pub struct XIQueryVersionReply {
    pub major_version: u16,
    pub minor_version: u16,
}

/// What the server answers to a question for the version of the extension that
/// it has.
#[derive(Debug, Clone, Copy, PartialEq, Eq, Structural)]
pub struct GetExtensionVersionReply {
    pub server_major: u16,
    pub server_minor: u16,
    pub present: bool,
}

/// What to do once the server has been asked for the version that is spoken.
#[derive(Debug, Clone, Copy, PartialEq, Eq, Structural)]
pub enum VersionStep {
    Known(XInputVersion),
    AskExtension,
}

impl From<GetExtensionVersionReply> for XInputVersion {
    fn from(v: GetExtensionVersionReply) -> (version: Self) {
        XInputVersion { major: v.server_major, minor: v.server_minor }
    }
}

impl vstd::std_specs::convert::FromSpecImpl<GetExtensionVersionReply> for XInputVersion {
    open spec fn obeys_from_spec() -> bool {
        true
    }

    open spec fn from_spec(v: GetExtensionVersionReply) -> Self {
        XInputVersion { major: v.server_major, minor: v.server_minor }
    }
}

impl From<XIQueryVersionReply> for XInputVersion {
    fn from(v: XIQueryVersionReply) -> (version: Self) {
        XInputVersion { major: v.major_version, minor: v.minor_version }
    }
}

impl vstd::std_specs::convert::FromSpecImpl<XIQueryVersionReply> for XInputVersion {
    open spec fn obeys_from_spec() -> bool {
        true
    }

    open spec fn from_spec(v: XIQueryVersionReply) -> Self {
        XInputVersion { major: v.major_version, minor: v.minor_version }
    }
}

/// The two masks of a press and a release, raw or not, where `wanted`.
pub open spec fn press_masks(
    wanted: bool,
    raw: bool,
    raw_masks: Seq<XIEventMask>,
    masks: Seq<XIEventMask>,
) -> Seq<XIEventMask> {
    if !wanted {
        Seq::empty()
    } else if raw {
        raw_masks
    } else {
        masks
    }
}

/// The events to ask for. Raw events are only there from version 2.1 on.
pub open spec fn wanted_masks(
    version: XInputVersion,
    raw: bool,
    classes: Set<ConfigInputEvent>,
) -> Seq<XIEventMask> {
    let raw = raw && version.at_least(2, 1);
    let relative = classes.contains(ConfigInputEvent::Relative);
    let absolute = classes.contains(ConfigInputEvent::Absolute);
    press_masks(
        classes.contains(ConfigInputEvent::Key),
        raw,
        seq![XIEventMask::RawKeyPress, XIEventMask::RawKeyRelease],
        seq![XIEventMask::KeyPress, XIEventMask::KeyRelease],
    ) + press_masks(
        classes.contains(ConfigInputEvent::Button),
        raw,
        seq![XIEventMask::RawButtonPress, XIEventMask::RawButtonRelease],
        seq![XIEventMask::ButtonPress, XIEventMask::ButtonRelease],
    ) + if absolute || relative && !raw {
        seq![XIEventMask::Motion]
    } else {
        Seq::empty()
    } + if raw && (relative || absolute) {
        seq![XIEventMask::RawMotion]
    } else {
        Seq::empty()
    }
}

/// Whether a mask asks for raw events.
pub open spec fn is_raw(mask: XIEventMask) -> bool {
    mask is RawKeyPress || mask is RawKeyRelease || mask is RawButtonPress
        || mask is RawButtonRelease || mask is RawMotion
}

/// Raw events are only asked for where they are wanted and the server has
/// them, and no events are asked for where no class of them is wanted.
pub proof fn raw_events_need_a_version(
    version: XInputVersion,
    raw: bool,
    classes: Set<ConfigInputEvent>,
)
    ensures
        !raw || !version.at_least(2, 1) ==> forall|i: int|
            0 <= i < wanted_masks(version, raw, classes).len() ==> !is_raw(
                #[trigger] wanted_masks(version, raw, classes)[i],
            ),
        classes.is_empty() ==> wanted_masks(version, raw, classes).len() == 0,
{
}

impl XInputVersion {
    /// Whether this version comes no earlier than another one.
    pub open spec fn at_least(self, major: u16, minor: u16) -> bool {
        self.major > major || self.major == major && self.minor >= minor
    }

    pub fn new(major: u16, minor: u16) -> (version: XInputVersion)
        ensures
            version == (XInputVersion { major, minor }),
    {
        XInputVersion { major, minor }
    }

    /// Both numbers in one.
    pub fn value(&self) -> (value: u32)
        ensures
            value == self.major * 0x1_0000 + self.minor,
    {
        let major = self.major as u32;
        let minor = self.minor as u32;
        assert(major << 16u32 | minor == major * 0x1_0000 + minor) by (bit_vector)
            requires
                major <= 0xffff,
                minor <= 0xffff,
        ;
        major << 16 | minor
    }

    /// What follows from asking for the version that is spoken: where the
    /// server does not know the question, it is asked for the version of the
    /// extension.
    pub fn query(reply: Option<XIQueryVersionReply>) -> (step: VersionStep)
        ensures
            step == match reply {
                Some(v) => VersionStep::Known(
                    XInputVersion { major: v.major_version, minor: v.minor_version },
                ),
                None => VersionStep::AskExtension,
            },
    {
        match reply {
            Some(v) => VersionStep::Known(XInputVersion::from(v)),
            None => VersionStep::AskExtension,
        }
    }

    /// What follows from asking for the version of the extension.
    pub fn query_extension(reply: GetExtensionVersionReply) -> (version: Option<XInputVersion>)
        ensures
            version == if reply.present {
                Some(XInputVersion { major: reply.server_major, minor: reply.server_minor })
            } else {
                None
            },
    {
        if reply.present {
            Some(XInputVersion::from(reply))
        } else {
            None
        }
    }

    /// The events to ask for, where the given classes of events are wanted.
    pub fn events_mask(&self, raw: bool, config_mask: EventFlags) -> (masks: Vec<XIEventMask>)
        ensures
            masks@ == wanted_masks(*self, raw, config_mask.classes()),
    {
        let ghost asked = raw;
        let raw = raw && (self.major > 2 || self.major == 2 && self.minor >= 1);
        let mut masks: Vec<XIEventMask> = Vec::with_capacity(5);
        if config_mask.contains(ConfigInputEvent::Key) {
            if raw {
                masks.push(XIEventMask::RawKeyPress);
                masks.push(XIEventMask::RawKeyRelease);
            } else {
                masks.push(XIEventMask::KeyPress);
                masks.push(XIEventMask::KeyRelease);
            }
        }
        if config_mask.contains(ConfigInputEvent::Button) {
            if raw {
                masks.push(XIEventMask::RawButtonPress);
                masks.push(XIEventMask::RawButtonRelease);
            } else {
                masks.push(XIEventMask::ButtonPress);
                masks.push(XIEventMask::ButtonRelease);
            }
        }
        let has_motion = config_mask.contains(ConfigInputEvent::Absolute);
        if has_motion {
            masks.push(XIEventMask::Motion);
        }
        if config_mask.contains(ConfigInputEvent::Relative) || config_mask.contains(
            ConfigInputEvent::Absolute,
        ) {
            if raw {
                masks.push(XIEventMask::RawMotion);
            } else if !has_motion {
                masks.push(XIEventMask::Motion);
            }
        }
        assert(masks@ =~= wanted_masks(*self, asked, config_mask.classes()));
        masks
    }
}

/// The first symbol of a key, which counts from the lowest keycode. The symbol
/// 0 is none.
pub open spec fn symbol_of(keys: KeyboardMapping, code: u8) -> Option<u32> {
    let at = code * keys.keysyms_per_keycode;
    if at < keys.keysyms@.len() && keys.keysyms@[at] != 0 {
        Some(keys.keysyms@[at])
    } else {
        None
    }
}

pub(crate) fn first_symbol(keys: &KeyboardMapping, code: u8) -> (keysym: Option<u32>)
    ensures
        keysym == symbol_of(*keys, code),
{
    assert(code * keys.keysyms_per_keycode <= 0xff * 0xff) by (nonlinear_arith)
        requires
            code <= 0xff,
            keys.keysyms_per_keycode <= 0xff,
    ;
    assert(0 <= code * keys.keysyms_per_keycode) by (nonlinear_arith);
    let at = code as usize * keys.keysyms_per_keycode as usize;
    if at < keys.keysyms.len() {
        let keysym = keys.keysyms[at];
        if keysym == 0 {
            None
        } else {
            Some(keysym)
        }
    } else {
        None
    }
}

/// Where the valuator of a device is found.
pub open spec fn valuator_key(deviceid: u16, number: u16) -> u32 {
    (deviceid * 0x1_0000 + number) as u32
}

pub(crate) fn make_valuator_key(deviceid: u16, number: u16) -> (key: u32)
    ensures
        key == valuator_key(deviceid, number),
{
    deviceid as u32 * 0x1_0000 + number as u32
}

/// No two axes are found at one place.
pub proof fn valuator_keys_are_distinct(a: u16, m: u16, b: u16, n: u16)
    requires
        valuator_key(a, m) == valuator_key(b, n),
    ensures
        a == b,
        m == n,
{
}

/// The relative axis that the valuator with a number moves.
pub open spec fn relative_axis(number: u16) -> Option<u16> {
    if number == 0 {
        Some(REL_X)
    } else if number == 1 {
        Some(REL_Y)
    } else if number == 2 {
        Some(REL_WHEEL)
    } else if number == 3 {
        Some(REL_HORIZONTAL_WHEEL)
    } else {
        None
    }
}

pub(crate) fn find_relative_axis(number: u16) -> (axis: Option<u16>)
    ensures
        axis == relative_axis(number),
{
    match number {
        0 => Some(REL_X),
        1 => Some(REL_Y),
        2 => Some(REL_WHEEL),
        3 => Some(REL_HORIZONTAL_WHEEL),
        _ => None,
    }
}

/// Motion as the input extension reports it: the values of some axes, and
/// where the pointer is.
#[derive(Debug, PartialEq, Eq)]
pub struct XI2MotionEvent {
    pub time: u32,
    pub deviceid: u16,
    pub axisvalues: Vec<(u16, Fp3232)>,
    pub event_x: i16,
    pub event_y: i16,
}

/// The keyboard and the axes that events refer to.
#[derive(Debug)]
pub struct XInput {
    pub min_keycode: u8,
    pub keys: KeyboardMapping,
    pub mods: ModifierMapping,
    pub valuators: BTreeMap<u32, Valuator>,
}

/// A press or a release of a button.
pub open spec fn button_event(time: u32, button: u8, state: u16, pressed: bool) -> XInputEvent {
    XInputEvent { time, data: XInputEventData::Button { pressed, button, state } }
}

impl XInput {
    /// A press or a release of a key, which counts from the lowest keycode.
    pub open spec fn key_event(
        self,
        time: u32,
        detail: u8,
        state: u16,
        pressed: bool,
    ) -> XInputEvent {
        let keycode = (detail - self.min_keycode) as u8;
        XInputEvent {
            time,
            data: XInputEventData::Key {
                pressed,
                keycode,
                keysym: symbol_of(self.keys, keycode),
                state,
            },
        }
    }

    /// Whether the value of an axis can be translated: absolute axes and
    /// further relative axes are not provided for.
    pub open spec fn knows_axis(self, deviceid: u16, number: u16, relative: bool) -> bool {
        let key = valuator_key(deviceid, number);
        if !self.valuators@.contains_key(key) {
            true
        } else {
            match self.valuators@[key].mode {
                ValuatorMode::Relative => relative ==> relative_axis(number) is Some,
                ValuatorMode::Absolute => relative,
            }
        }
    }

    /// The motion that the value of an axis stands for; none where the axis is
    /// unknown or no relative one, or where no relative motion is wanted.
    pub open spec fn axis_event(
        self,
        time: u32,
        deviceid: u16,
        number: u16,
        value: Fp3232,
        relative: bool,
    ) -> Option<XInputEvent> {
        let key = valuator_key(deviceid, number);
        if relative && self.valuators@.contains_key(key) && self.valuators@[key].mode is Relative
            && relative_axis(number) is Some {
            Some(
                XInputEvent {
                    time,
                    data: XInputEventData::MouseRelative {
                        axis: relative_axis(number)->0,
                        value,
                    },
                },
            )
        } else {
            None
        }
    }

    /// The motions that the values of some axes stand for.
    pub open spec fn axis_events(
        self,
        time: u32,
        deviceid: u16,
        values: Seq<(u16, Fp3232)>,
        relative: bool,
    ) -> Seq<XInputEvent>
        decreases values.len(),
    {
        if values.len() == 0 {
            Seq::empty()
        } else {
            let before = self.axis_events(time, deviceid, values.drop_last(), relative);
            let (number, value) = values.last();
            match self.axis_event(time, deviceid, number, value, relative) {
                Some(event) => before.push(event),
                None => before,
            }
        }
    }

    pub fn new(min_keycode: u8, keys: KeyboardMapping, mods: ModifierMapping) -> (input: XInput)
        ensures
            input.min_keycode == min_keycode,
            input.keys == keys,
            input.mods == mods,
            input.valuators@ == Map::<u32, Valuator>::empty(),
    {
        XInput { min_keycode, keys, mods, valuators: BTreeMap::new() }
    }

    pub fn process_event_buttonpress(&self, event: &InputDeviceEvent) -> (e: XInputEvent)
        ensures
            e == button_event(event.time, event.detail, event.state, true),
    {
        self.process_event_buttonpress_internal(event, true)
    }

    pub fn process_event_buttonrelease(&self, event: &InputDeviceEvent) -> (e: XInputEvent)
        ensures
            e == button_event(event.time, event.detail, event.state, false),
    {
        self.process_event_buttonpress_internal(event, false)
    }

    fn process_event_buttonpress_internal(
        &self,
        event: &InputDeviceEvent,
        pressed: bool,
    ) -> (e: XInputEvent)
        ensures
            e == button_event(event.time, event.detail, event.state, pressed),
    {
        XInputEvent {
            time: event.time,
            data: XInputEventData::Button { pressed, button: event.detail, state: event.state },
        }
    }

    pub fn process_event_keypress(&self, event: &InputDeviceEvent) -> (e: XInputEvent)
        requires
            event.detail >= self.min_keycode,
        ensures
            e == self.key_event(event.time, event.detail, event.state, true),
    {
        self.process_event_keypress_internal(event, true)
    }

    pub fn process_event_keyrelease(&self, event: &InputDeviceEvent) -> (e: XInputEvent)
        requires
            event.detail >= self.min_keycode,
        ensures
            e == self.key_event(event.time, event.detail, event.state, false),
    {
        self.process_event_keypress_internal(event, false)
    }

    fn process_event_keypress_internal(
        &self,
        event: &InputDeviceEvent,
        pressed: bool,
    ) -> (e: XInputEvent)
        requires
            event.detail >= self.min_keycode,
        ensures
            e == self.key_event(event.time, event.detail, event.state, pressed),
    {
        self.process_event_keypress_internal_common(
            event.time,
            event.detail,
            event.state,
            pressed,
        )
    }

    fn process_event_keypress_internal_common(
        &self,
        time: u32,
        detail: u8,
        state: u16,
        pressed: bool,
    ) -> (e: XInputEvent)
        requires
            detail >= self.min_keycode,
        ensures
            e == self.key_event(time, detail, state, pressed),
    {
        let keycode = self.keycode(detail);
        let keysym = self.keysym(keycode);
        XInputEvent { time, data: XInputEventData::Key { pressed, keycode, keysym, state } }
    }

    pub fn process_event_motion(&self, event: &MotionNotifyEvent) -> (e: XInputEvent)
        ensures
            e.time == event.time,
            e.data == (XInputEventData::Mouse { x: event.event_x, y: event.event_y }),
    {
        XInputEvent {
            time: event.time,
            data: XInputEventData::Mouse { x: event.event_x, y: event.event_y },
        }
    }

    /// Motion before any acceleration: the values of the axes.
    pub fn process_event_xi2_motion_raw(
        &self,
        time: u32,
        deviceid: u16,
        axisvalues_raw: &Vec<(u16, Fp3232)>,
        mask: EventFlags,
    ) -> (events: Vec<XInputEvent>)
        requires
            forall|i: int|
                0 <= i < axisvalues_raw@.len() ==> self.knows_axis(
                    deviceid,
                    (#[trigger] axisvalues_raw@[i]).0,
                    mask.classes().contains(ConfigInputEvent::Relative),
                ),
        ensures
            events@ == self.axis_events(
                time,
                deviceid,
                axisvalues_raw@,
                mask.classes().contains(ConfigInputEvent::Relative),
            ),
    {
        let relative = mask.contains(ConfigInputEvent::Relative);
        let mut events: Vec<XInputEvent> = Vec::new();
        for i in 0..axisvalues_raw.len()
            invariant
                relative == mask.classes().contains(ConfigInputEvent::Relative),
                forall|i: int|
                    0 <= i < axisvalues_raw@.len() ==> self.knows_axis(
                        deviceid,
                        (#[trigger] axisvalues_raw@[i]).0,
                        relative,
                    ),
                events@ == self.axis_events(
                    time,
                    deviceid,
                    axisvalues_raw@.take(i as int),
                    relative,
                ),
        {
            let (number, value) = axisvalues_raw[i];
            proof {
                assert(axisvalues_raw@.take(i + 1).drop_last() =~= axisvalues_raw@.take(i as int));
                assert(self.knows_axis(deviceid, axisvalues_raw@[i as int].0, relative));
            }
            if let Some(event) = self.process_event_xi2_motion_internal(
                time,
                deviceid,
                number,
                value,
                relative,
            ) {
                events.push(event);
            }
        }
        assert(axisvalues_raw@.take(axisvalues_raw@.len() as int) =~= axisvalues_raw@);
        events
    }

    /// Motion: the values of the axes, and where the pointer is unless
    /// relative motion is wanted.
    pub fn process_event_xi2_motion(
        &self,
        event: &XI2MotionEvent,
        mask: EventFlags,
    ) -> (events: Vec<XInputEvent>)
        requires
            forall|i: int|
                0 <= i < event.axisvalues@.len() ==> self.knows_axis(
                    event.deviceid,
                    (#[trigger] event.axisvalues@[i]).0,
                    mask.classes().contains(ConfigInputEvent::Relative),
                ),
        ensures
            events@ == if mask.classes().contains(ConfigInputEvent::Relative) {
                self.axis_events(event.time, event.deviceid, event.axisvalues@, true)
            } else {
                self.axis_events(event.time, event.deviceid, event.axisvalues@, false).push(
                    XInputEvent {
                        time: event.time,
                        data: XInputEventData::Mouse { x: event.event_x, y: event.event_y },
                    },
                )
            },
    {
        let mut events = self.process_event_xi2_motion_raw(
            event.time,
            event.deviceid,
            &event.axisvalues,
            mask,
        );
        if !mask.contains(ConfigInputEvent::Relative) {
            events.push(
                XInputEvent {
                    time: event.time,
                    data: XInputEventData::Mouse { x: event.event_x, y: event.event_y },
                },
            );
        }
        events
    }

    fn process_event_xi2_motion_internal(
        &self,
        time: u32,
        deviceid: u16,
        axisnumber: u16,
        value: Fp3232,
        relative: bool,
    ) -> (e: Option<XInputEvent>)
        requires
            self.knows_axis(deviceid, axisnumber, relative),
        ensures
            e == self.axis_event(time, deviceid, axisnumber, value, relative),
    {
        broadcast use group_btree_axioms;

        let valuator = match self.valuators.get(&make_valuator_key(deviceid, axisnumber)) {
            Some(valuator) => *valuator,
            None => {
                return None;
            },
        };
        match valuator.mode {
            ValuatorMode::Relative => {
                if relative {
                    match find_relative_axis(axisnumber) {
                        Some(axis) => Some(
                            XInputEvent {
                                time,
                                data: XInputEventData::MouseRelative { axis, value },
                            },
                        ),
                        None => None,
                    }
                } else {
                    None
                }
            },
            ValuatorMode::Absolute => None,
        }
    }

    pub fn process_event_xi2_keypress(&self, event: &XI2DeviceEvent) -> (e: XInputEvent)
        requires
            event.detail as u8 >= self.min_keycode,
        ensures
            e == self.key_event(event.time, event.detail as u8, 0, true),
    {
        self.process_event_xi2_keypress_internal(event, true)
    }

    pub fn process_event_xi2_keyrelease(&self, event: &XI2DeviceEvent) -> (e: XInputEvent)
        requires
            event.detail as u8 >= self.min_keycode,
        ensures
            e == self.key_event(event.time, event.detail as u8, 0, false),
    {
        self.process_event_xi2_keypress_internal(event, false)
    }

    fn process_event_xi2_keypress_internal(
        &self,
        event: &XI2DeviceEvent,
        pressed: bool,
    ) -> (e: XInputEvent)
        requires
            event.detail as u8 >= self.min_keycode,
        ensures
            e == self.key_event(event.time, event.detail as u8, 0, pressed),
    {
        self.process_event_keypress_internal_common(
            event.time,
            #[verifier::truncate]
            (event.detail as u8),
            0,
            pressed,
        )
    }

    pub fn process_event_xi2_buttonpress(&self, event: &XI2DeviceEvent) -> (e: XInputEvent)
        ensures
            e == button_event(event.time, event.detail as u8, 0, true),
    {
        self.process_event_xi2_buttonpress_internal(event, true)
    }

    pub fn process_event_xi2_buttonrelease(&self, event: &XI2DeviceEvent) -> (e: XInputEvent)
        ensures
            e == button_event(event.time, event.detail as u8, 0, false),
    {
        self.process_event_xi2_buttonpress_internal(event, false)
    }

    fn process_event_xi2_buttonpress_internal(
        &self,
        event: &XI2DeviceEvent,
        pressed: bool,
    ) -> (e: XInputEvent)
        ensures
            e == button_event(event.time, event.detail as u8, 0, pressed),
    {
        XInputEvent {
            time: event.time,
            data: XInputEventData::Button {
                pressed,
                button: #[verifier::truncate]
                (event.detail as u8),
                state: 0,
            },
        }
    }

    fn keycode(&self, code: u8) -> (keycode: u8)
        requires
            code >= self.min_keycode,
        ensures
            keycode == code - self.min_keycode,
    {
        code - self.min_keycode
    }

    fn keysym(&self, code: u8) -> (keysym: Option<u32>)
        ensures
            keysym == symbol_of(self.keys, code),
    {
        first_symbol(&self.keys, code)
    }
}

/// A press and a release of a button keep the button, the time and the state, and
/// are told apart; those of the input extension have no state.
pub proof fn buttons_are_pressed_and_released(
    input: XInput,
    event: InputDeviceEvent,
    press: XInputEvent,
    release: XInputEvent,
    extended: XI2DeviceEvent,
    extended_press: XInputEvent,
    extended_release: XInputEvent,
)
    requires
        call_ensures(XInput::process_event_buttonpress, (&input, &event), press),
        call_ensures(XInput::process_event_buttonrelease, (&input, &event), release),
        call_ensures(XInput::process_event_xi2_buttonpress, (&input, &extended), extended_press),
        call_ensures(
            XInput::process_event_xi2_buttonrelease,
            (&input, &extended),
            extended_release,
        ),
    ensures
        press.time == event.time && release.time == event.time,
        press.data == (XInputEventData::Button {
            pressed: true,
            button: event.detail,
            state: event.state,
        }),
        release.data == (XInputEventData::Button {
            pressed: false,
            button: event.detail,
            state: event.state,
        }),
        extended_press.time == extended.time && extended_release.time == extended.time,
        extended_press.data == (XInputEventData::Button {
            pressed: true,
            button: extended.detail as u8,
            state: 0,
        }),
        extended_release.data == (XInputEventData::Button {
            pressed: false,
            button: extended.detail as u8,
            state: 0,
        }),
{
}

/// A press and a release of a key have its code, counted from the lowest one, and
/// the first of its symbols, where that is one; they keep the time and the state,
/// and are told apart.
pub proof fn keys_are_pressed_and_released(
    input: XInput,
    event: InputDeviceEvent,
    press: XInputEvent,
    release: XInputEvent,
)
    requires
        event.detail >= input.min_keycode,
        call_ensures(XInput::process_event_keypress, (&input, &event), press),
        call_ensures(XInput::process_event_keyrelease, (&input, &event), release),
    ensures
        ({
            let code = event.detail - input.min_keycode;
            let at = code * input.keys.keysyms_per_keycode;
            &&& press.time == event.time && release.time == event.time
            &&& press.data is Key && release.data is Key
            &&& press.data->Key_pressed && !release.data->Key_pressed
            &&& press.data->keycode == code && release.data->keycode == code
            &&& press.data->Key_state == event.state && release.data->Key_state == event.state
            &&& press.data->keysym == release.data->keysym
            &&& 0 <= at < input.keys.keysyms@.len() && input.keys.keysyms@[at] != 0
                ==> press.data->keysym == Some(input.keys.keysyms@[at])
            &&& at >= input.keys.keysyms@.len() || input.keys.keysyms@[at] == 0
                ==> press.data->keysym is None
        }),
{
    assert(0 <= (event.detail - input.min_keycode) * input.keys.keysyms_per_keycode)
        by (nonlinear_arith)
        requires
            event.detail >= input.min_keycode,
    ;
}

/// A press and a release of a key that the input extension tells of are those of
/// the key, without a state.
pub proof fn extended_keys_are_the_keys(
    input: XInput,
    event: XI2DeviceEvent,
    plain: InputDeviceEvent,
    press: XInputEvent,
    release: XInputEvent,
    plain_press: XInputEvent,
    plain_release: XInputEvent,
)
    requires
        event.detail as u8 >= input.min_keycode,
        plain.time == event.time && plain.detail == event.detail as u8 && plain.state == 0,
        call_ensures(XInput::process_event_xi2_keypress, (&input, &event), press),
        call_ensures(XInput::process_event_xi2_keyrelease, (&input, &event), release),
        call_ensures(XInput::process_event_keypress, (&input, &plain), plain_press),
        call_ensures(XInput::process_event_keyrelease, (&input, &plain), plain_release),
    ensures
        press == plain_press,
        release == plain_release,
{
}

/// The place of the pointer is told with its time.
pub proof fn pointers_are_where_they_are_told(
    input: XInput,
    event: MotionNotifyEvent,
    e: XInputEvent,
)
    requires
        call_ensures(XInput::process_event_motion, (&input, &event), e),
    ensures
        e.time == event.time,
        e.data is Mouse && e.data->x == event.event_x && e.data->y == event.event_y,
{
}

/// With relative motion wanted, the value of each known relative axis is a motion
/// along the axis that its number stands for, unchanged and in order, and the place
/// of the pointer is left out; without, only the place of the pointer is there.
pub proof fn axes_move_by_their_values(
    input: XInput,
    event: XI2MotionEvent,
    mask: EventFlags,
    events: Vec<XInputEvent>,
    number: u16,
    value: Fp3232,
    relative: bool,
)
    requires
        forall|i: int|
            0 <= i < event.axisvalues@.len() ==> input.knows_axis(
                event.deviceid,
                (#[trigger] event.axisvalues@[i]).0,
                mask.classes().contains(ConfigInputEvent::Relative),
            ),
        relative == mask.classes().contains(ConfigInputEvent::Relative),
        call_ensures(XInput::process_event_xi2_motion, (&input, &event, mask), events),
    ensures
        !relative ==> events@ == seq![
            XInputEvent {
                time: event.time,
                data: XInputEventData::Mouse { x: event.event_x, y: event.event_y },
            },
        ],
        relative && event.axisvalues@ == seq![(number, value)] ==> {
            let key = (event.deviceid * 0x1_0000 + number) as u32;
            let known = input.valuators@.contains_key(key) && input.valuators@[key].mode is Relative;
            &&& !known ==> events@.len() == 0
            &&& known && number <= 3 ==> events@ == seq![
                XInputEvent {
                    time: event.time,
                    data: XInputEventData::MouseRelative {
                        axis: if number == 0 {
                            0
                        } else if number == 1 {
                            1
                        } else if number == 2 {
                            8
                        } else {
                            6
                        },
                        value,
                    },
                },
            ]
        },
{
    if !relative {
        lemma_no_axis_events(input, event.time, event.deviceid, event.axisvalues@);
        assert(events@ =~= seq![
            XInputEvent {
                time: event.time,
                data: XInputEventData::Mouse { x: event.event_x, y: event.event_y },
            },
        ]);
    } else if event.axisvalues@ == seq![(number, value)] {
        reveal_with_fuel(XInput::axis_events, 2);
        assert(event.axisvalues@.drop_last() =~= Seq::<(u16, Fp3232)>::empty());
        assert(event.axisvalues@.last() == (number, value));
    }
}

proof fn lemma_no_axis_events(
    input: XInput,
    time: u32,
    deviceid: u16,
    values: Seq<(u16, Fp3232)>,
)
    ensures
        input.axis_events(time, deviceid, values, false).len() == 0,
    decreases values.len(),
{
    if values.len() > 0 {
        lemma_no_axis_events(input, time, deviceid, values.drop_last());
    }
}

/// The motions of some axes are those of the first ones and then those of the
/// others.
pub proof fn axes_move_in_order(
    input: XInput,
    time: u32,
    deviceid: u16,
    first: Vec<(u16, Fp3232)>,
    second: Vec<(u16, Fp3232)>,
    all: Vec<(u16, Fp3232)>,
    mask: EventFlags,
    of_first: Vec<XInputEvent>,
    of_second: Vec<XInputEvent>,
    of_all: Vec<XInputEvent>,
)
    requires
        all@ == first@ + second@,
        forall|i: int|
            0 <= i < all@.len() ==> input.knows_axis(
                deviceid,
                (#[trigger] all@[i]).0,
                mask.classes().contains(ConfigInputEvent::Relative),
            ),
        call_ensures(
            XInput::process_event_xi2_motion_raw,
            (&input, time, deviceid, &first, mask),
            of_first,
        ),
        call_ensures(
            XInput::process_event_xi2_motion_raw,
            (&input, time, deviceid, &second, mask),
            of_second,
        ),
        call_ensures(
            XInput::process_event_xi2_motion_raw,
            (&input, time, deviceid, &all, mask),
            of_all,
        ),
    ensures
        of_all@ == of_first@ + of_second@,
{
    let relative = mask.classes().contains(ConfigInputEvent::Relative);
    assert forall|i: int| 0 <= i < first@.len() implies input.knows_axis(
        deviceid,
        (#[trigger] first@[i]).0,
        relative,
    ) by {
        assert(all@[i] == first@[i]);
    }
    assert forall|i: int| 0 <= i < second@.len() implies input.knows_axis(
        deviceid,
        (#[trigger] second@[i]).0,
        relative,
    ) by {
        assert(all@[first@.len() + i] == second@[i]);
    }
    lemma_axis_events_in_order(input, time, deviceid, first@, second@, relative);
}

proof fn lemma_axis_events_in_order(
    input: XInput,
    time: u32,
    deviceid: u16,
    first: Seq<(u16, Fp3232)>,
    second: Seq<(u16, Fp3232)>,
    relative: bool,
)
    ensures
        input.axis_events(time, deviceid, first + second, relative) == input.axis_events(
            time,
            deviceid,
            first,
            relative,
        ) + input.axis_events(time, deviceid, second, relative),
    decreases second.len(),
{
    let all = first + second;
    if second.len() == 0 {
        assert(all =~= first);
        assert(input.axis_events(time, deviceid, all, relative) =~= input.axis_events(
            time,
            deviceid,
            first,
            relative,
        ) + input.axis_events(time, deviceid, second, relative));
    } else {
        lemma_axis_events_in_order(input, time, deviceid, first, second.drop_last(), relative);
        assert(all.drop_last() =~= first + second.drop_last());
        assert(all.last() == second.last());
        assert(input.axis_events(time, deviceid, all, relative) =~= input.axis_events(
            time,
            deviceid,
            first,
            relative,
        ) + input.axis_events(time, deviceid, second, relative));
    }
}

/// Each class of events that is wanted is asked for, and no other: presses and
/// releases of keys and of buttons, and motion, raw where that is wanted and the
/// version has it. Absolute motion is asked for in any case as it is.
pub proof fn wanted_classes_are_asked_for(
    version: XInputVersion,
    raw: bool,
    wanted: EventFlags,
    masks: Vec<XIEventMask>,
)
    requires
        call_ensures(XInputVersion::events_mask, (&version, raw, wanted), masks),
    ensures
        ({
            let raw = raw && (version.major > 2 || version.major == 2 && version.minor >= 1);
            let key = wanted.classes().contains(ConfigInputEvent::Key);
            let button = wanted.classes().contains(ConfigInputEvent::Button);
            let relative = wanted.classes().contains(ConfigInputEvent::Relative);
            let absolute = wanted.classes().contains(ConfigInputEvent::Absolute);
            &&& masks@.contains(XIEventMask::KeyPress) <==> key && !raw
            &&& masks@.contains(XIEventMask::KeyRelease) <==> key && !raw
            &&& masks@.contains(XIEventMask::RawKeyPress) <==> key && raw
            &&& masks@.contains(XIEventMask::RawKeyRelease) <==> key && raw
            &&& masks@.contains(XIEventMask::ButtonPress) <==> button && !raw
            &&& masks@.contains(XIEventMask::ButtonRelease) <==> button && !raw
            &&& masks@.contains(XIEventMask::RawButtonPress) <==> button && raw
            &&& masks@.contains(XIEventMask::RawButtonRelease) <==> button && raw
            &&& masks@.contains(XIEventMask::Motion) <==> absolute || relative && !raw
            &&& masks@.contains(XIEventMask::RawMotion) <==> raw && (relative || absolute)
            &&& !masks@.contains(XIEventMask::Nothing)
            &&& !masks@.contains(XIEventMask::DeviceChanged)
        }),
{
    let asked = raw && version.at_least(2, 1);
    let key = wanted.classes().contains(ConfigInputEvent::Key);
    let button = wanted.classes().contains(ConfigInputEvent::Button);
    let relative = wanted.classes().contains(ConfigInputEvent::Relative);
    let absolute = wanted.classes().contains(ConfigInputEvent::Absolute);
    let keys: int = if key {
        2
    } else {
        0
    };
    let buttons: int = if button {
        2
    } else {
        0
    };
    let motion: int = if absolute || relative && !asked {
        1
    } else {
        0
    };
    if key {
        assert(masks@[0] is KeyPress || masks@[0] is RawKeyPress);
        assert(masks@[1] is KeyRelease || masks@[1] is RawKeyRelease);
    }
    if button {
        assert(masks@[keys] is ButtonPress || masks@[keys] is RawButtonPress);
        assert(masks@[keys + 1] is ButtonRelease || masks@[keys + 1] is RawButtonRelease);
    }
    if motion == 1 {
        assert(masks@[keys + buttons] is Motion);
    }
    if asked && (relative || absolute) {
        assert(masks@[keys + buttons + motion] is RawMotion);
    }
}

/// A version is known by its two numbers, which are compared with the major one
/// first, and the one that the server speaks counts before the one that it has.
pub proof fn versions_are_their_numbers(
    version: XInputVersion,
    value: u32,
    other: XInputVersion,
    other_value: u32,
    spoken: Option<XIQueryVersionReply>,
    step: VersionStep,
    extension: GetExtensionVersionReply,
    had: Option<XInputVersion>,
)
    requires
        call_ensures(XInputVersion::value, (&version,), value),
        call_ensures(XInputVersion::value, (&other,), other_value),
        call_ensures(XInputVersion::query, (spoken,), step),
        call_ensures(XInputVersion::query_extension, (extension,), had),
    ensures
        value < other_value <==> version.major < other.major || version.major == other.major
            && version.minor < other.minor,
        value == other_value <==> version == other,
        spoken matches Some(reply) ==> (step matches VersionStep::Known(known) && known.major
            == reply.major_version && known.minor == reply.minor_version),
        spoken is None <==> step is AskExtension,
        had is Some <==> extension.present,
        had matches Some(known) ==> known.major == extension.server_major && known.minor
            == extension.server_minor,
{
}

} // verus!
