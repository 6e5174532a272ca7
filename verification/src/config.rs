//! What the user configures.

use crate::input::{is_button_code, EventKind, EventRef, InputEvent, Key};
use vstd::prelude::*;

verus! {

#[derive(Debug, Clone)]
pub struct Config {
    pub screens: Vec<ConfigScreen>,
    pub qemu: ConfigQemu,
    pub hotkeys: Vec<ConfigHotkey>,
    /// Keys that the guest sees as other keys.
    pub key_remap: Vec<(Key, Key)>,
    pub exit_events: Vec<ConfigEvent>,
}

impl Default for Config {
    fn default() -> (config: Self)
        ensures
            config.screens@.len() == 0,
            config.qemu == ConfigQemu::unset(),
            config.hotkeys@.len() == 0,
            config.key_remap@.len() == 0,
            config.exit_events@.len() == 0,
    {
        Config {
            screens: Vec::new(),
            qemu: ConfigQemu::default(),
            hotkeys: Vec::new(),
            key_remap: Vec::new(),
            exit_events: Vec::new(),
        }
    }
}

#[derive(Debug, Clone)]
pub struct ConfigScreen {
    pub monitor: ConfigMonitor,
    pub guest_source: ConfigSource,
    pub host_source: ConfigSource,
    pub ddc: Option<ConfigDdc>,
    pub x_instance: Option<String>,
}

/// A way to switch the monitor to another source.
#[derive(Debug, Clone)]
pub enum ConfigDdcMethod {
    Ddc,
    Libddcutil,
    Ddcutil,
    Exec(Vec<String>),
    GuestExec(Vec<String>),
    GuestWait,
}

impl ConfigDdcMethod {
    /// The methods of a host that configures none.
    pub fn default_host() -> (methods: Vec<ConfigDdcMethod>)
        ensures
            methods@ == seq![ConfigDdcMethod::Ddc],
    {
        let mut methods: Vec<ConfigDdcMethod> = Vec::new();
        methods.push(ConfigDdcMethod::Ddc);
        methods
    }

    /// The methods of a guest that configures none: those of the host.
    pub fn default_guest() -> (methods: Vec<ConfigDdcMethod>)
        ensures
            methods@ == seq![ConfigDdcMethod::Ddc],
    {
        ConfigDdcMethod::default_host()
    }
}

#[derive(Debug, Clone)]
pub struct ConfigDdc {
    pub host: Vec<ConfigDdcMethod>,
    pub guest: Vec<ConfigDdcMethod>,
    /// A time in milliseconds that is configured with the methods; showing a
    /// source does not wait for it.
    pub minimal_delay: u64,
}

impl ConfigDdc {
    /// A tenth of a second.
    pub fn default_delay() -> (delay: u64)
        ensures
            delay == 100,
    {
        100
    }
}

impl Default for ConfigDdc {
    fn default() -> (ddc: Self)
        ensures
            ddc.host@ == seq![ConfigDdcMethod::Ddc],
            ddc.guest@ == seq![ConfigDdcMethod::Ddc],
            ddc.minimal_delay == 100,
    {
        ConfigDdc {
            host: ConfigDdcMethod::default_host(),
            guest: ConfigDdcMethod::default_guest(),
            minimal_delay: ConfigDdc::default_delay(),
        }
    }
}

/// How a device is attached to the guest.
#[derive(Debug, Clone, Copy, PartialEq, Eq, Structural)]
pub enum ConfigQemuDriver {
    Ps2,
    Usb,
    Virtio,
}

/// How input events reach the guest.
#[derive(Debug, Clone, Copy, PartialEq, Eq, Structural)]
pub enum ConfigQemuRouting {
    InputLinux,
    VirtioHost,
    Spice,
    Qmp,
}

impl ConfigQemuRouting {
    /// The routing where none is configured.
    pub fn qmp() -> (routing: ConfigQemuRouting)
        ensures
            routing == ConfigQemuRouting::Qmp,
    {
        ConfigQemuRouting::Qmp
    }
}

#[derive(Debug, Clone)]
pub struct ConfigQemu {
    pub ga_socket: Option<String>,
    pub qmp_socket: Option<String>,
    pub driver: Option<ConfigQemuDriver>,
    pub keyboard_driver: Option<ConfigQemuDriver>,
    pub relative_driver: Option<ConfigQemuDriver>,
    pub absolute_driver: Option<ConfigQemuDriver>,
    pub routing: ConfigQemuRouting,
}

/// The driver of a device: its own, else the common one, else a fallback.
pub open spec fn chosen_driver(
    own: Option<ConfigQemuDriver>,
    common: Option<ConfigQemuDriver>,
    fallback: ConfigQemuDriver,
) -> ConfigQemuDriver {
    match own {
        Some(driver) => driver,
        None => match common {
            Some(driver) => driver,
            None => fallback,
        },
    }
}

fn choose_driver(
    own: Option<ConfigQemuDriver>,
    common: Option<ConfigQemuDriver>,
    fallback: ConfigQemuDriver,
) -> (driver: ConfigQemuDriver)
    ensures
        driver == chosen_driver(own, common, fallback),
{
    match own {
        Some(driver) => driver,
        None => match common {
            Some(driver) => driver,
            None => fallback,
        },
    }
}

impl ConfigQemu {
    /// The configuration that sets nothing.
    pub open spec fn unset() -> ConfigQemu {
        ConfigQemu {
            ga_socket: None,
            qmp_socket: None,
            driver: None,
            keyboard_driver: None,
            relative_driver: None,
            absolute_driver: None,
            routing: ConfigQemuRouting::Qmp,
        }
    }

    pub fn keyboard_driver(&self) -> (driver: ConfigQemuDriver)
        ensures
            driver == chosen_driver(self.keyboard_driver, self.driver, ConfigQemuDriver::Ps2),
    {
        choose_driver(self.keyboard_driver, self.driver, ConfigQemuDriver::Ps2)
    }

    pub fn relative_driver(&self) -> (driver: ConfigQemuDriver)
        ensures
            driver == chosen_driver(self.relative_driver, self.driver, ConfigQemuDriver::Usb),
    {
        choose_driver(self.relative_driver, self.driver, ConfigQemuDriver::Usb)
    }

    pub fn absolute_driver(&self) -> (driver: ConfigQemuDriver)
        ensures
            driver == chosen_driver(self.absolute_driver, self.driver, ConfigQemuDriver::Usb),
    {
        choose_driver(self.absolute_driver, self.driver, ConfigQemuDriver::Usb)
    }
}

impl Default for ConfigQemu {
    fn default() -> (qemu: Self)
        ensures
            qemu == ConfigQemu::unset(),
    {
        ConfigQemu {
            ga_socket: None,
            qmp_socket: None,
            driver: None,
            keyboard_driver: None,
            relative_driver: None,
            absolute_driver: None,
            routing: ConfigQemuRouting::Qmp,
        }
    }
}

/// A key combination and the events that it causes.
#[derive(Debug, Clone)]
pub struct ConfigHotkey {
    pub triggers: Vec<Key>,
    pub modifiers: Vec<Key>,
    pub events: Vec<ConfigEvent>,
    pub on_release: bool,
    pub global: bool,
}

/// Something that the user can ask for.
#[derive(Debug, Clone)]
pub enum ConfigEvent {
    Exec(Vec<String>),
    GuestExec(Vec<String>),
    GuestWait,
    ShowHost,
    ShowGuest,
    ToggleShow,
    ToggleGrab(ConfigGrab),
    Grab(ConfigGrab),
    Ungrab(ConfigGrabMode),
    UnstickHost,
    UnstickGuest,
    Shutdown,
    Reboot,
    Exit,
}

/// A class of input events.
#[derive(Debug, Clone, Copy, PartialEq, Eq, PartialOrd, Ord, Hash, Structural)]
pub enum ConfigInputEvent {
    Key,
    Button,
    Relative,
    Absolute,
    Misc,
    Switch,
    Led,
    Sound,
}

/// The class of an event. Events whose code is out of range, and events of the
/// remaining kinds, have none.
pub open spec fn class_of(e: InputEvent) -> Option<ConfigInputEvent> {
    if !e.in_range() {
        None
    } else {
        match e.kind {
            EventKind::Key => if is_button_code(e.code) {
                Some(ConfigInputEvent::Button)
            } else {
                Some(ConfigInputEvent::Key)
            },
            EventKind::Relative => Some(ConfigInputEvent::Relative),
            EventKind::Absolute => Some(ConfigInputEvent::Absolute),
            EventKind::Misc => Some(ConfigInputEvent::Misc),
            EventKind::Switch => Some(ConfigInputEvent::Switch),
            EventKind::Led => Some(ConfigInputEvent::Led),
            EventKind::Sound => Some(ConfigInputEvent::Sound),
            _ => None,
        }
    }
}

/// The class of an event whose code has been read.
pub open spec fn class_of_read(e: EventRef) -> Option<ConfigInputEvent> {
    match e {
        EventRef::Key { key, value } => if is_button_code(key@) {
            Some(ConfigInputEvent::Button)
        } else {
            Some(ConfigInputEvent::Key)
        },
        EventRef::Relative { axis, value } => Some(ConfigInputEvent::Relative),
        EventRef::Absolute { axis, value } => Some(ConfigInputEvent::Absolute),
        EventRef::Misc => Some(ConfigInputEvent::Misc),
        EventRef::Switch => Some(ConfigInputEvent::Switch),
        EventRef::Led => Some(ConfigInputEvent::Led),
        EventRef::Sound => Some(ConfigInputEvent::Sound),
        _ => None,
    }
}

impl ConfigInputEvent {
    pub fn from_event(e: &InputEvent) -> (class: Option<ConfigInputEvent>)
        ensures
            class == class_of(*e),
    {
        match EventRef::new(e) {
            Ok(EventRef::Key { key, .. }) => {
                if key.is_key() {
                    Some(ConfigInputEvent::Key)
                } else {
                    Some(ConfigInputEvent::Button)
                }
            },
            Ok(EventRef::Relative { .. }) => Some(ConfigInputEvent::Relative),
            Ok(EventRef::Absolute { .. }) => Some(ConfigInputEvent::Absolute),
            Ok(EventRef::Misc) => Some(ConfigInputEvent::Misc),
            Ok(EventRef::Switch) => Some(ConfigInputEvent::Switch),
            Ok(EventRef::Led) => Some(ConfigInputEvent::Led),
            Ok(EventRef::Sound) => Some(ConfigInputEvent::Sound),
            _ => None,
        }
    }

    pub fn event_matches(&self, e: EventRef) -> (matches: bool)
        ensures
            matches == (class_of_read(e) == Some(*self)),
    {
        match (*self, e) {
            (ConfigInputEvent::Key, EventRef::Key { key, .. }) => key.is_key(),
            (ConfigInputEvent::Button, EventRef::Key { key, .. }) => key.is_button(),
            (ConfigInputEvent::Relative, EventRef::Relative { .. }) => true,
            (ConfigInputEvent::Absolute, EventRef::Absolute { .. }) => true,
            (ConfigInputEvent::Misc, EventRef::Misc) => true,
            (ConfigInputEvent::Switch, EventRef::Switch) => true,
            (ConfigInputEvent::Led, EventRef::Led) => true,
            (ConfigInputEvent::Sound, EventRef::Sound) => true,
            _ => false,
        }
    }
}

/// An event is of a class exactly when its reading matches that class, so no
/// event matches two classes.
pub proof fn class_is_the_one_that_matches(e: InputEvent, read: EventRef)
    requires
        e.in_range(),
        read.reads(e),
    ensures
        class_of(e) == class_of_read(read),
{
}

/// What to take from the host, and how.
#[derive(Debug, Clone)]
pub enum ConfigGrab {
    XCore,
    XInput,
    XDevice { devices: Vec<String> },
    Evdev {
        exclusive: bool,
        new_device_name: Option<String>,
        xcore_ignore: Vec<ConfigInputEvent>,
        evdev_ignore: Vec<ConfigInputEvent>,
        devices: Vec<String>,
    },
}

#[derive(Debug, Clone, Copy, PartialEq, Eq, PartialOrd, Ord, Hash, Structural)]
pub enum ConfigGrabMode {
    Evdev,
    XDevice,
    XCore,
    XInput,
}

impl ConfigGrab {
    /// The mode of a grab.
    pub open spec fn grab_mode(self) -> ConfigGrabMode {
        match self {
            ConfigGrab::XCore => ConfigGrabMode::XCore,
            ConfigGrab::XInput => ConfigGrabMode::XInput,
            ConfigGrab::XDevice { .. } => ConfigGrabMode::XDevice,
            ConfigGrab::Evdev { .. } => ConfigGrabMode::Evdev,
        }
    }

    pub fn mode(&self) -> (mode: ConfigGrabMode)
        ensures
            mode == self.grab_mode(),
    {
        match self {
            ConfigGrab::XCore => ConfigGrabMode::XCore,
            ConfigGrab::XInput => ConfigGrabMode::XInput,
            ConfigGrab::XDevice { .. } => ConfigGrabMode::XDevice,
            ConfigGrab::Evdev { .. } => ConfigGrabMode::Evdev,
        }
    }
}

impl Default for ConfigGrab {
    fn default() -> (grab: Self)
        ensures
            grab == ConfigGrab::XCore,
    {
        ConfigGrab::XCore
    }
}

impl Default for ConfigGrabMode {
    fn default() -> (mode: Self)
        ensures
            mode == ConfigGrabMode::XCore,
    {
        ConfigGrabMode::XCore
    }
}

/// Which monitor to control.
#[derive(Debug, Clone)]
pub struct ConfigMonitor {
    pub id: Option<String>,
    pub manufacturer: Option<String>,
    pub model: Option<String>,
    pub serial: Option<String>,
    pub xrandr_name: Option<String>,
}

/// A source of the monitor, by its value or by its name.
#[derive(Debug, Clone, Copy, PartialEq, Eq, Structural)]
pub struct ConfigSource {
    pub value: Option<u8>,
    pub name: Option<ConfigSourceName>,
}

impl ConfigSource {
    /// The value, else that of the name.
    pub open spec fn chosen_value(self) -> Option<u8> {
        match self.value {
            Some(value) => Some(value),
            None => match self.name {
                Some(name) => Some(name.number()),
                None => None,
            },
        }
    }

    pub fn value(&self) -> (value: Option<u8>)
        ensures
            value == self.chosen_value(),
    {
        match self.value {
            Some(value) => Some(value),
            None => match &self.name {
                Some(name) => Some(name.value()),
                None => None,
            },
        }
    }
}

/// The sources that the monitor control command set names.
#[derive(Debug, Clone, Copy, PartialEq, Eq, Structural)]
pub enum ConfigSourceName {
    Analog1,
    Analog2,
    DVI1,
    DVI2,
    Composite1,
    Composite2,
    SVideo1,
    SVideo2,
    Tuner1,
    Tuner2,
    Tuner3,
    Component1,
    Component2,
    Component3,
    DisplayPort1,
    DisplayPort2,
    HDMI1,
    HDMI2,
}

impl ConfigSourceName {
    /// The value of a named source.
    pub open spec fn number(self) -> u8 {
        match self {
            ConfigSourceName::Analog1 => 0x01,
            ConfigSourceName::Analog2 => 0x02,
            ConfigSourceName::DVI1 => 0x03,
            ConfigSourceName::DVI2 => 0x04,
            ConfigSourceName::Composite1 => 0x05,
            ConfigSourceName::Composite2 => 0x06,
            ConfigSourceName::SVideo1 => 0x07,
            ConfigSourceName::SVideo2 => 0x08,
            ConfigSourceName::Tuner1 => 0x09,
            ConfigSourceName::Tuner2 => 0x0a,
            ConfigSourceName::Tuner3 => 0x0b,
            ConfigSourceName::Component1 => 0x0c,
            ConfigSourceName::Component2 => 0x0d,
            ConfigSourceName::Component3 => 0x0e,
            ConfigSourceName::DisplayPort1 => 0x0f,
            ConfigSourceName::DisplayPort2 => 0x10,
            ConfigSourceName::HDMI1 => 0x11,
            ConfigSourceName::HDMI2 => 0x12,
        }
    }

    /// The text that names a source in the configuration.
    pub open spec fn text(self) -> Seq<char> {
        match self {
            ConfigSourceName::Analog1 => "Analog-1"@,
            ConfigSourceName::Analog2 => "Analog-2"@,
            ConfigSourceName::DVI1 => "DVI-1"@,
            ConfigSourceName::DVI2 => "DVI-2"@,
            ConfigSourceName::Composite1 => "Composite-1"@,
            ConfigSourceName::Composite2 => "Composite-2"@,
            ConfigSourceName::SVideo1 => "S-video-1"@,
            ConfigSourceName::SVideo2 => "S-video-2"@,
            ConfigSourceName::Tuner1 => "Tuner-1"@,
            ConfigSourceName::Tuner2 => "Tuner-2"@,
            ConfigSourceName::Tuner3 => "Tuner-3"@,
            ConfigSourceName::Component1 => "Component-1"@,
            ConfigSourceName::Component2 => "Component-2"@,
            ConfigSourceName::Component3 => "Component-3"@,
            ConfigSourceName::DisplayPort1 => "DisplayPort-1"@,
            ConfigSourceName::DisplayPort2 => "DisplayPort-2"@,
            ConfigSourceName::HDMI1 => "HDMI-1"@,
            ConfigSourceName::HDMI2 => "HDMI-2"@,
        }
    }

    pub fn value(&self) -> (value: u8)
        ensures
            value == self.number(),
    {
        match *self {
            ConfigSourceName::Analog1 => 0x01,
            ConfigSourceName::Analog2 => 0x02,
            ConfigSourceName::DVI1 => 0x03,
            ConfigSourceName::DVI2 => 0x04,
            ConfigSourceName::Composite1 => 0x05,
            ConfigSourceName::Composite2 => 0x06,
            ConfigSourceName::SVideo1 => 0x07,
            ConfigSourceName::SVideo2 => 0x08,
            ConfigSourceName::Tuner1 => 0x09,
            ConfigSourceName::Tuner2 => 0x0a,
            ConfigSourceName::Tuner3 => 0x0b,
            ConfigSourceName::Component1 => 0x0c,
            ConfigSourceName::Component2 => 0x0d,
            ConfigSourceName::Component3 => 0x0e,
            ConfigSourceName::DisplayPort1 => 0x0f,
            ConfigSourceName::DisplayPort2 => 0x10,
            ConfigSourceName::HDMI1 => 0x11,
            ConfigSourceName::HDMI2 => 0x12,
        }
    }

    /// The text that names the source in the configuration.
    pub fn name(&self) -> (name: &'static str)
        ensures
            name@ == self.text(),
    {
        match *self {
            ConfigSourceName::Analog1 => "Analog-1",
            ConfigSourceName::Analog2 => "Analog-2",
            ConfigSourceName::DVI1 => "DVI-1",
            ConfigSourceName::DVI2 => "DVI-2",
            ConfigSourceName::Composite1 => "Composite-1",
            ConfigSourceName::Composite2 => "Composite-2",
            ConfigSourceName::SVideo1 => "S-video-1",
            ConfigSourceName::SVideo2 => "S-video-2",
            ConfigSourceName::Tuner1 => "Tuner-1",
            ConfigSourceName::Tuner2 => "Tuner-2",
            ConfigSourceName::Tuner3 => "Tuner-3",
            ConfigSourceName::Component1 => "Component-1",
            ConfigSourceName::Component2 => "Component-2",
            ConfigSourceName::Component3 => "Component-3",
            ConfigSourceName::DisplayPort1 => "DisplayPort-1",
            ConfigSourceName::DisplayPort2 => "DisplayPort-2",
            ConfigSourceName::HDMI1 => "HDMI-1",
            ConfigSourceName::HDMI2 => "HDMI-2",
        }
    }

    /// The source with a value, where one has that value.
    pub fn from_value(value: u8) -> (name: Option<ConfigSourceName>)
        ensures
            name is Some <==> 1 <= value <= 0x12,
            name matches Some(n) ==> n.number() == value,
    {
        if 1 <= value && value <= 0x12 {
            Some(ConfigSourceName::from_value_unchecked(value))
        } else {
            None
        }
    }

    /// The source with a value that is known to be one.
    pub fn from_value_unchecked(value: u8) -> (name: ConfigSourceName)
        requires
            1 <= value <= 0x12,
        ensures
            name.number() == value,
    {
        match value {
            0x01 => ConfigSourceName::Analog1,
            0x02 => ConfigSourceName::Analog2,
            0x03 => ConfigSourceName::DVI1,
            0x04 => ConfigSourceName::DVI2,
            0x05 => ConfigSourceName::Composite1,
            0x06 => ConfigSourceName::Composite2,
            0x07 => ConfigSourceName::SVideo1,
            0x08 => ConfigSourceName::SVideo2,
            0x09 => ConfigSourceName::Tuner1,
            0x0a => ConfigSourceName::Tuner2,
            0x0b => ConfigSourceName::Tuner3,
            0x0c => ConfigSourceName::Component1,
            0x0d => ConfigSourceName::Component2,
            0x0e => ConfigSourceName::Component3,
            0x0f => ConfigSourceName::DisplayPort1,
            0x10 => ConfigSourceName::DisplayPort2,
            0x11 => ConfigSourceName::HDMI1,
            _ => ConfigSourceName::HDMI2,
        }
    }
}

/// No two names stand for one value, so the name of a value is the only one.
pub proof fn source_values_are_distinct(a: ConfigSourceName, b: ConfigSourceName)
    requires
        a.number() == b.number(),
    ensures
        a == b,
{
}

/// The kind of device that a grab is limited to.
#[derive(Debug, Clone, Copy, PartialEq, Eq, Structural)]
pub enum ConfigInputDeviceKind {
    Keyboard,
    Mouse,
    Tablet,
}

/// An X input device, by its id, or by its name and kind.
#[derive(Debug, Clone)]
pub struct ConfigInputDevice {
    pub id: Option<u16>,
    /// Any name where empty.
    pub name: String,
    pub kind: Option<ConfigInputDeviceKind>,
    pub master: bool,
}

impl ConfigInputDevice {
    /// Whether every device fits.
    pub open spec fn fits_all(self) -> bool {
        self.id is None && self.name@.len() == 0 && self.kind is None
    }

    pub fn is_any(&self) -> (any: bool)
        ensures
            any == self.fits_all(),
    {
        self.id.is_none() && self.name.as_str().unicode_len() == 0 && self.kind.is_none()
    }
}

impl Default for ConfigInputDevice {
    fn default() -> (device: Self)
        ensures
            device.fits_all(),
            !device.master,
    {
        ConfigInputDevice { id: None, name: String::new(), kind: None, master: false }
    }
}

/// The class of an event is that of its kind, and of keys that of buttons for the
/// codes that buttons have; an event whose code its kind does not have is of none.
pub proof fn classes_are_those_of_the_kinds(e: InputEvent, class: Option<ConfigInputEvent>)
    requires
        call_ensures(ConfigInputEvent::from_event, (&e,), class),
    ensures
        class == Some(ConfigInputEvent::Key) <==> e.kind is Key && (e.code < 0x100 || 0x160 <= e.code
            < 0x2c0),
        class == Some(ConfigInputEvent::Button) <==> e.kind is Key && (0x100 <= e.code < 0x160
            || 0x2c0 <= e.code < 0x300),
        class == Some(ConfigInputEvent::Relative) <==> e.kind is Relative && e.code < 0x10,
        class == Some(ConfigInputEvent::Absolute) <==> e.kind is Absolute && e.code < 0x40,
        class == Some(ConfigInputEvent::Misc) <==> e.kind is Misc && e.code < 0x08,
        class == Some(ConfigInputEvent::Switch) <==> e.kind is Switch && e.code < 0x11,
        class == Some(ConfigInputEvent::Led) <==> e.kind is Led && e.code < 0x10,
        class == Some(ConfigInputEvent::Sound) <==> e.kind is Sound && e.code < 0x08,
{
}

/// An event that was read matches the class that it is of, and no other one.
pub proof fn events_match_their_class(
    e: InputEvent,
    read: EventRef,
    class: ConfigInputEvent,
    matches: bool,
    own: Option<ConfigInputEvent>,
)
    requires
        call_ensures(EventRef::new, (&e,), Ok(read)),
        call_ensures(ConfigInputEvent::event_matches, (&class, read), matches),
        call_ensures(ConfigInputEvent::from_event, (&e,), own),
    ensures
        matches <==> own == Some(class),
{
}

/// Each device has the driver that is configured for it, or else the one for all
/// devices; without either the keyboard is a PS/2 one, and pointers are USB ones.
pub proof fn drivers_fall_back(
    qemu: ConfigQemu,
    keyboard: ConfigQemuDriver,
    relative: ConfigQemuDriver,
    absolute: ConfigQemuDriver,
)
    requires
        call_ensures(ConfigQemu::keyboard_driver, (&qemu,), keyboard),
        call_ensures(ConfigQemu::relative_driver, (&qemu,), relative),
        call_ensures(ConfigQemu::absolute_driver, (&qemu,), absolute),
    ensures
        qemu.keyboard_driver matches Some(own) ==> keyboard == own,
        qemu.relative_driver matches Some(own) ==> relative == own,
        qemu.absolute_driver matches Some(own) ==> absolute == own,
        qemu.driver matches Some(common) ==> {
            &&& qemu.keyboard_driver is None ==> keyboard == common
            &&& qemu.relative_driver is None ==> relative == common
            &&& qemu.absolute_driver is None ==> absolute == common
        },
        qemu.driver is None ==> {
            &&& qemu.keyboard_driver is None ==> keyboard is Ps2
            &&& qemu.relative_driver is None ==> relative is Usb
            &&& qemu.absolute_driver is None ==> absolute is Usb
        },
{
}

/// A source that is given by its value has that value, and one that is given by its
/// name alone has the value of the name.
pub proof fn sources_have_a_value(
    source: ConfigSource,
    value: Option<u8>,
    name: ConfigSourceName,
    named: u8,
)
    requires
        call_ensures(ConfigSource::value, (&source,), value),
        call_ensures(ConfigSourceName::value, (&name,), named),
    ensures
        source.value is Some ==> value == source.value,
        source.value is None && source.name == Some(name) ==> value == Some(named),
        value is None <==> source.value is None && source.name is None,
{
}

/// The value of a named source and the name of a value undo each other. The values
/// with a name are the first eighteen, in the order in which the sources are listed.
pub proof fn source_names_and_values_agree(
    name: ConfigSourceName,
    value: u8,
    text: &'static str,
    named: Option<ConfigSourceName>,
)
    requires
        call_ensures(ConfigSourceName::value, (&name,), value),
        call_ensures(ConfigSourceName::name, (&name,), text),
        call_ensures(ConfigSourceName::from_value, (value,), named),
    ensures
        named == Some(name),
        1 <= value <= 18,
        name is Analog1 ==> value == 1 && text@ == "Analog-1"@,
        name is Analog2 ==> value == 2 && text@ == "Analog-2"@,
        name is DVI1 ==> value == 3 && text@ == "DVI-1"@,
        name is DVI2 ==> value == 4 && text@ == "DVI-2"@,
        name is Composite1 ==> value == 5 && text@ == "Composite-1"@,
        name is Composite2 ==> value == 6 && text@ == "Composite-2"@,
        name is SVideo1 ==> value == 7 && text@ == "S-video-1"@,
        name is SVideo2 ==> value == 8 && text@ == "S-video-2"@,
        name is Tuner1 ==> value == 9 && text@ == "Tuner-1"@,
        name is Tuner2 ==> value == 10 && text@ == "Tuner-2"@,
        name is Tuner3 ==> value == 11 && text@ == "Tuner-3"@,
        name is Component1 ==> value == 12 && text@ == "Component-1"@,
        name is Component2 ==> value == 13 && text@ == "Component-2"@,
        name is Component3 ==> value == 14 && text@ == "Component-3"@,
        name is DisplayPort1 ==> value == 15 && text@ == "DisplayPort-1"@,
        name is DisplayPort2 ==> value == 16 && text@ == "DisplayPort-2"@,
        name is HDMI1 ==> value == 17 && text@ == "HDMI-1"@,
        name is HDMI2 ==> value == 18 && text@ == "HDMI-2"@,
{
    if let Some(other) = named {
        source_values_are_distinct(name, other);
    }
}

/// A value without a named source has no name.
pub proof fn other_values_have_no_name(value: u8, named: Option<ConfigSourceName>)
    requires
        call_ensures(ConfigSourceName::from_value, (value,), named),
    ensures
        named is None <==> value == 0 || value > 18,
{
}

/// The mode of a grab is the one that it is named after.
pub proof fn grabs_have_their_mode(grab: ConfigGrab, mode: ConfigGrabMode)
    requires
        call_ensures(ConfigGrab::mode, (&grab,), mode),
    ensures
        grab is XCore <==> mode is XCore,
        grab is XInput <==> mode is XInput,
        grab is XDevice <==> mode is XDevice,
        grab is Evdev <==> mode is Evdev,
{
}

/// A device that is asked for by nothing but whether it is a master is any device.
pub proof fn devices_without_marks_are_any(device: ConfigInputDevice, any: bool)
    requires
        call_ensures(ConfigInputDevice::is_any, (&device,), any),
    ensures
        any <==> device.id is None && device.kind is None && device.name@ == Seq::<char>::empty(),
{
    if any {
        assert(device.name@ =~= Seq::<char>::empty());
    }
}

/// Without a configuration the monitor is switched by its own commands, for the host
/// and for the guest, and events go over the machine control protocol.
pub proof fn defaults_are_the_plain_ones(
    host: Vec<ConfigDdcMethod>,
    guest: Vec<ConfigDdcMethod>,
    delay: u64,
    routing: ConfigQemuRouting,
)
    requires
        call_ensures(ConfigDdcMethod::default_host, (), host),
        call_ensures(ConfigDdcMethod::default_guest, (), guest),
        call_ensures(ConfigDdc::default_delay, (), delay),
        call_ensures(ConfigQemuRouting::qmp, (), routing),
    ensures
        host@.len() == 1 && host@[0] is Ddc,
        guest@ == host@,
        delay == 100,
        routing is Qmp,
{
}

} // verus!
