//! The requests, replies and events of the X protocol that the session with
//! the X server is made of.

use super::events::Fp3232;
use vstd::prelude::*;

verus! {

pub const EVENT_KEY_PRESS: u32 = 0x1;

pub const EVENT_KEY_RELEASE: u32 = 0x2;

pub const EVENT_BUTTON_PRESS: u32 = 0x4;

pub const EVENT_BUTTON_RELEASE: u32 = 0x8;

pub const EVENT_POINTER_MOTION: u32 = 0x40;

pub const EVENT_BUTTON_MOTION: u32 = 0x2000;

pub const EVENT_VISIBILITY_CHANGE: u32 = 0x1_0000;

pub const EVENT_STRUCTURE_NOTIFY: u32 = 0x2_0000;

pub const EVENT_FOCUS_CHANGE: u32 = 0x20_0000;

pub const EVENT_PROPERTY_CHANGE: u32 = 0x40_0000;

/// The events that the window asks for.
pub const WINDOW_EVENTS: u32 = EVENT_VISIBILITY_CHANGE + EVENT_KEY_PRESS + EVENT_KEY_RELEASE
    + EVENT_BUTTON_PRESS + EVENT_BUTTON_RELEASE + EVENT_POINTER_MOTION + EVENT_BUTTON_MOTION
    + EVENT_PROPERTY_CHANGE + EVENT_STRUCTURE_NOTIFY + EVENT_FOCUS_CHANGE;

/// The events that a grabbed pointer reports.
pub const GRAB_EVENTS: u32 = EVENT_BUTTON_PRESS + EVENT_BUTTON_RELEASE + EVENT_POINTER_MOTION
    + EVENT_BUTTON_MOTION;

/// The predefined atoms `ATOM`, `STRING`, `WM_NAME` and `WM_CLASS`.
pub const ATOM_ATOM: u32 = 4;

pub const ATOM_STRING: u32 = 31;

pub const ATOM_WM_NAME: u32 = 39;

pub const ATOM_WM_CLASS: u32 = 67;

/// No resource, the current time, or any type of property.
pub const NONE: u32 = 0;

/// The number of the event that reports the release of a key.
pub const KEY_RELEASE_NUMBER: u8 = 3;

/// The ids that stand for all devices and for all master devices.
pub const ALL_DEVICES: u16 = 0;

pub const ALL_MASTER_DEVICES: u16 = 1;

/// The keyboard extension's name for the core keyboard.
pub const XKB_USE_CORE_KBD: u16 = 0x100;

/// The keyboard extension's flag against releases made up by autorepeat.
pub const XKB_DETECTABLE_AUTO_REPEAT: u32 = 1;

/// The events of the input extension that can be asked for.
#[derive(Debug, Clone, Copy, PartialEq, Eq, Structural)]
pub enum XIEventMask {
    Nothing,
    DeviceChanged,
    KeyPress,
    KeyRelease,
    ButtonPress,
    ButtonRelease,
    Motion,
    RawKeyPress,
    RawKeyRelease,
    RawButtonPress,
    RawButtonRelease,
    RawMotion,
}

/// The events that are asked of a device.
#[derive(Debug, Clone, Copy, PartialEq, Eq, Structural)]
pub struct DeviceMask {
    pub deviceid: u16,
    pub mask: XIEventMask,
}

#[derive(Debug, Clone, Copy, PartialEq, Eq, Structural)]
pub enum PropMode {
    Replace,
    Append,
}

#[derive(Debug, PartialEq, Eq)]
pub enum PropertyData {
    Data8(Vec<u8>),
    Data32(Vec<u32>),
}

/// The atoms that the session interns.
#[derive(Debug, Clone, Copy, PartialEq, Eq, Structural)]
pub enum AtomName {
    WmState,
    WmProtocols,
    WmDeleteWindow,
    NetWmState,
    NetWmStateFullscreen,
}

impl AtomName {
    /// The text of an atom.
    pub open spec fn text(self) -> Seq<char> {
        match self {
            AtomName::WmState => "WM_STATE"@,
            AtomName::WmProtocols => "WM_PROTOCOLS"@,
            AtomName::WmDeleteWindow => "WM_DELETE_WINDOW"@,
            AtomName::NetWmState => "_NET_WM_STATE"@,
            AtomName::NetWmStateFullscreen => "_NET_WM_STATE_FULLSCREEN"@,
        }
    }

    pub fn name(&self) -> (name: &'static str)
        ensures
            name@ == self.text(),
    {
        match *self {
            AtomName::WmState => "WM_STATE",
            AtomName::WmProtocols => "WM_PROTOCOLS",
            AtomName::WmDeleteWindow => "WM_DELETE_WINDOW",
            AtomName::NetWmState => "_NET_WM_STATE",
            AtomName::NetWmStateFullscreen => "_NET_WM_STATE_FULLSCREEN",
        }
    }
}

/// A request to the X server. Requests of an extension carry its opcode.
#[derive(Debug, PartialEq, Eq)]
pub enum XCommand {
    XIQueryVersion { major_opcode: u8, major_version: u16, minor_version: u16 },
    XkbUseExtension { major_opcode: u8, wanted_major: u16, wanted_minor: u16 },
    /// A window that takes input and output, at the origin, without a border
    /// and with the depth of its parent.
    CreateWindow {
        wid: u32,
        parent: u32,
        width: u16,
        height: u16,
        visual: u32,
        background_pixel: u32,
        event_mask: u32,
    },
    XISelectEvents { major_opcode: u8, window: u32, masks: Vec<DeviceMask> },
    XkbPerClientFlags { major_opcode: u8, device_spec: u16, change: u32, value: u32 },
    GetKeyboardMapping { first_keycode: u8, count: u8 },
    GetModifierMapping,
    InternAtom { name: AtomName },
    ChangeProperty { mode: PropMode, window: u32, property: u32, type_: u32, data: PropertyData },
    MapWindow { window: u32 },
    XIQueryDevice { major_opcode: u8, deviceid: u16 },
    QueryKeymap,
    FakeInput { major_opcode: u8, type_: u8, detail: u8, time: u32, root: u32, deviceid: u8 },
    /// A grab of the keyboard that freezes nothing.
    GrabKeyboard { owner_events: bool, grab_window: u32, time: u32 },
    /// A grab of the pointer that freezes nothing.
    GrabPointer {
        owner_events: bool,
        grab_window: u32,
        event_mask: u32,
        confine_to: u32,
        cursor: u32,
        time: u32,
    },
    UngrabKeyboard { time: u32 },
    UngrabPointer { time: u32 },
    GetProperty {
        delete: bool,
        window: u32,
        property: u32,
        type_: u32,
        long_offset: u32,
        long_length: u32,
    },
    GetAtomName { atom: u32 },
    DpmsInfo { major_opcode: u8 },
}

#[derive(Debug, Clone, Copy, PartialEq, Eq, Structural)]
pub enum GrabStatus {
    Success,
    AlreadyGrabbed,
    InvalidTime,
    NotViewable,
    Frozen,
}

impl GrabStatus {
    pub fn name(&self) -> (name: &'static str)
        ensures
            name@ == self.text(),
    {
        match *self {
            GrabStatus::Success => "Success",
            GrabStatus::AlreadyGrabbed => "AlreadyGrabbed",
            GrabStatus::InvalidTime => "InvalidTime",
            GrabStatus::NotViewable => "NotViewable",
            GrabStatus::Frozen => "Frozen",
        }
    }

    pub open spec fn text(self) -> Seq<char> {
        match self {
            GrabStatus::Success => "Success"@,
            GrabStatus::AlreadyGrabbed => "AlreadyGrabbed"@,
            GrabStatus::InvalidTime => "InvalidTime"@,
            GrabStatus::NotViewable => "NotViewable"@,
            GrabStatus::Frozen => "Frozen"@,
        }
    }
}

/// Which symbols the keys have.
#[derive(Debug, PartialEq, Eq)]
pub struct KeyboardMapping {
    pub keysyms_per_keycode: u8,
    pub keysyms: Vec<u32>,
}

/// Which keys the modifiers have.
#[derive(Debug, PartialEq, Eq)]
pub struct ModifierMapping {
    pub keycodes: Vec<u8>,
}

#[derive(Debug, Clone, Copy, PartialEq, Eq, Structural)]
pub enum ValuatorMode {
    Relative,
    Absolute,
}

/// An axis of an input device.
#[derive(Debug, Clone, Copy, PartialEq, Eq, Structural)]
pub struct Valuator {
    pub number: u16,
    pub mode: ValuatorMode,
}

#[derive(Debug, Clone, Copy, PartialEq, Eq, Structural)]
pub enum DeviceType {
    MasterPointer,
    MasterKeyboard,
    SlavePointer,
    SlaveKeyboard,
    FloatingSlave,
}

/// One of the things that an input device can do.
#[derive(Debug, Clone, Copy, PartialEq, Eq, Structural)]
pub enum DeviceClass {
    Valuator(Valuator),
    Other,
}

#[derive(Debug, PartialEq, Eq)]
pub struct XIDeviceInfo {
    pub deviceid: u16,
    pub type_: DeviceType,
    pub name: Vec<u8>,
    pub classes: Vec<DeviceClass>,
}

/// A reply of the X server, of which only what matters is kept.
#[derive(Debug, PartialEq, Eq)]
pub enum XReply {
    Done,
    Grab(GrabStatus),
    Keymap([u8; 32]),
    Devices(Vec<XIDeviceInfo>),
    KeyboardMapping(KeyboardMapping),
    ModifierMapping(ModifierMapping),
    /// Whether the screen is powered.
    PowerOn(bool),
    /// The first word of a property, where it has one.
    Property(Option<u32>),
}

#[derive(Debug, Clone, Copy, PartialEq, Eq, Structural)]
pub enum Visibility {
    Unobscured,
    PartiallyObscured,
    FullyObscured,
}

#[derive(Debug, Clone, Copy, PartialEq, Eq, Structural)]
pub enum ClientMessageData {
    Data8,
    Data16,
    Data32 { first: u32 },
}

/// A press or a release of a key or of a button.
#[derive(Debug, Clone, Copy, PartialEq, Eq, Structural)]
pub struct InputDeviceEvent {
    pub time: u32,
    pub detail: u8,
    pub state: u16,
}

/// A press or a release, as the input extension reports it.
#[derive(Debug, Clone, Copy, PartialEq, Eq, Structural)]
pub struct XI2DeviceEvent {
    pub time: u32,
    pub detail: u32,
}

#[derive(Debug, Clone, Copy, PartialEq, Eq, Structural)]
pub struct MotionNotifyEvent {
    pub time: u32,
    pub event_x: i16,
    pub event_y: i16,
}

/// Motion before any acceleration. Each bit of the mask stands for an axis
/// that has a value.
#[derive(Debug, PartialEq, Eq)]
pub struct RawMotionEvent {
    pub time: u32,
    pub deviceid: u16,
    pub valuator_mask: Vec<u32>,
    pub axisvalues: Vec<Fp3232>,
    pub axisvalues_raw: Vec<Fp3232>,
}

/// An event of the X server.
#[derive(Debug, PartialEq, Eq)]
pub enum XServerEvent {
    VisibilityNotify { state: Visibility },
    ClientMessage { data: ClientMessageData },
    PropertyNotify { window: u32, atom: u32 },
    MappingNotify,
    ConfigureNotify { width: u16, height: u16 },
    FocusOut,
    FocusIn,
    ButtonPress(InputDeviceEvent),
    ButtonRelease(InputDeviceEvent),
    MotionNotify(MotionNotifyEvent),
    KeyPress(InputDeviceEvent),
    KeyRelease(InputDeviceEvent),
    RawMotion(RawMotionEvent),
    DevicePresenceNotify,
    Other,
}

#[derive(Debug, Clone, Copy, PartialEq, Eq, Structural)]
pub struct Screen {
    pub root: u32,
    pub width_in_pixels: u16,
    pub height_in_pixels: u16,
    pub root_visual: u32,
    pub black_pixel: u32,
}

/// What the server says when the session starts.
#[derive(Debug, PartialEq, Eq)]
pub struct Setup {
    pub roots: Vec<Screen>,
    pub min_keycode: u8,
    pub max_keycode: u8,
}

/// The atoms have the names that window managers know them by, and why a grab was
/// refused is told by its name.
pub proof fn atoms_and_refusals_have_their_names(
    atom: AtomName,
    name: &'static str,
    status: GrabStatus,
    told: &'static str,
)
    requires
        call_ensures(AtomName::name, (&atom,), name),
        call_ensures(GrabStatus::name, (&status,), told),
    ensures
        atom is WmState ==> name@ == "WM_STATE"@,
        atom is WmProtocols ==> name@ == "WM_PROTOCOLS"@,
        atom is WmDeleteWindow ==> name@ == "WM_DELETE_WINDOW"@,
        atom is NetWmState ==> name@ == "_NET_WM_STATE"@,
        atom is NetWmStateFullscreen ==> name@ == "_NET_WM_STATE_FULLSCREEN"@,
        status is Success ==> told@ == "Success"@,
        status is AlreadyGrabbed ==> told@ == "AlreadyGrabbed"@,
        status is InvalidTime ==> told@ == "InvalidTime"@,
        status is NotViewable ==> told@ == "NotViewable"@,
        status is Frozen ==> told@ == "Frozen"@,
{
}

} // verus!
