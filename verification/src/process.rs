//! What the events that the user asks for lead to.

use crate::config::{
    ConfigEvent, ConfigGrab, ConfigGrabMode, ConfigInputEvent, ConfigQemuDriver, ConfigQemuRouting,
};
use crate::filter::InputEventFilter;
use crate::qemu::DeviceAdd;
use crate::text::copy_strings;
use crate::x::XRequest;
use std::collections::HashMap;
use vstd::prelude::*;
use vstd::std_specs::hash::group_hash_axioms;

verus! {

/// A device that the guest is given.
#[derive(Debug, Clone, Copy, PartialEq, Eq, Structural)]
pub enum InputDevice {
    Keyboard,
    Relative,
    Absolute,
}

/// How the guest is to go down.
#[derive(Debug, Clone, Copy, PartialEq, Eq, Structural)]
pub enum ShutdownMode {
    Powerdown,
    Reboot,
}

#[derive(Debug, Clone, Copy, PartialEq, Eq, Structural)]
pub enum ProcessError {
    /// There is no grab of this mode.
    GrabUnimplemented(ConfigGrabMode),
    /// There is no end to a grab of this mode.
    UngrabUnimplemented(ConfigGrabMode),
}

impl ConfigGrabMode {
    pub open spec fn text(self) -> Seq<char> {
        match self {
            ConfigGrabMode::Evdev => "Evdev"@,
            ConfigGrabMode::XDevice => "XDevice"@,
            ConfigGrabMode::XCore => "XCore"@,
            ConfigGrabMode::XInput => "XInput"@,
        }
    }

    pub fn name(&self) -> (name: &'static str)
        ensures
            name@ == self.text(),
    {
        match *self {
            ConfigGrabMode::Evdev => "Evdev",
            ConfigGrabMode::XDevice => "XDevice",
            ConfigGrabMode::XCore => "XCore",
            ConfigGrabMode::XInput => "XInput",
        }
    }
}

impl ProcessError {
    pub fn message(&self) -> (message: String)
        ensures
            message@ == match *self {
                ProcessError::GrabUnimplemented(mode) => "grab "@ + mode.text()
                    + " unimplemented"@,
                ProcessError::UngrabUnimplemented(mode) => "ungrab "@ + mode.text()
                    + " unimplemented"@,
            },
    {
        match *self {
            ProcessError::GrabUnimplemented(mode) => String::from_str("grab ").concat(
                mode.name(),
            ).concat(" unimplemented"),
            ProcessError::UngrabUnimplemented(mode) => String::from_str("ungrab ").concat(
                mode.name(),
            ).concat(" unimplemented"),
        }
    }
}

/// A grab of kernel devices that is to be made.
#[derive(Debug, PartialEq, Eq)]
pub struct EvdevGrab {
    /// The devices to open.
    pub devices: Vec<String>,
    /// The classes of events that the devices' events are dropped for.
    pub evdev_ignore: Vec<ConfigInputEvent>,
    /// The classes of events that the window's events are dropped for.
    pub xcore_ignore: Vec<ConfigInputEvent>,
    /// The new device that the events go to; else they go where the window's
    /// events go.
    pub new_device_name: Option<String>,
    /// Whether nobody else gets the events.
    pub exclusive: bool,
    /// Whether a mouse was in use.
    pub prev_is_mouse: bool,
}

/// Something to be done.
#[derive(Debug, PartialEq, Eq)]
pub enum Action {
    /// End the task that forwards the events of a grab.
    Abort(u64),
    /// Grab keyboard and pointer, and motion too where asked for.
    XGrab { motion: bool },
    XUngrab,
    XUnstickHost,
    XQuit,
    AddDevice { device: InputDevice, driver: ConfigQemuDriver },
    Exec(Vec<String>),
    GuestExec(Vec<String>),
    GuestWait,
    ShowHost,
    ShowGuest,
    OpenEvdev(EvdevGrab),
    UnstickGuest,
    GuestShutdown(ShutdownMode),
}

/// What is to be done, as contracts speak of it.
pub ghost enum ActionModel {
    Abort(u64),
    XGrab { motion: bool },
    XUngrab,
    XUnstickHost,
    XQuit,
    AddDevice { device: InputDevice, driver: ConfigQemuDriver },
    Exec(Seq<String>),
    GuestExec(Seq<String>),
    GuestWait,
    ShowHost,
    ShowGuest,
    OpenEvdev {
        devices: Seq<String>,
        evdev_ignore: Seq<ConfigInputEvent>,
        xcore_ignore: Seq<ConfigInputEvent>,
        new_device_name: Option<String>,
        exclusive: bool,
        prev_is_mouse: bool,
    },
    UnstickGuest,
    GuestShutdown(ShutdownMode),
}

impl Action {
    pub open spec fn model(self) -> ActionModel {
        match self {
            Action::Abort(task) => ActionModel::Abort(task),
            Action::XGrab { motion } => ActionModel::XGrab { motion },
            Action::XUngrab => ActionModel::XUngrab,
            Action::XUnstickHost => ActionModel::XUnstickHost,
            Action::XQuit => ActionModel::XQuit,
            Action::AddDevice { device, driver } => ActionModel::AddDevice { device, driver },
            Action::Exec(args) => ActionModel::Exec(args@),
            Action::GuestExec(args) => ActionModel::GuestExec(args@),
            Action::GuestWait => ActionModel::GuestWait,
            Action::ShowHost => ActionModel::ShowHost,
            Action::ShowGuest => ActionModel::ShowGuest,
            Action::OpenEvdev(grab) => ActionModel::OpenEvdev {
                devices: grab.devices@,
                evdev_ignore: grab.evdev_ignore@,
                xcore_ignore: grab.xcore_ignore@,
                new_device_name: grab.new_device_name,
                exclusive: grab.exclusive,
                prev_is_mouse: grab.prev_is_mouse,
            },
            Action::UnstickGuest => ActionModel::UnstickGuest,
            Action::GuestShutdown(mode) => ActionModel::GuestShutdown(mode),
        }
    }

    /// The request to the window that an action stands for, if it stands for
    /// one. The pointer may leave the window, and all devices are grabbed.
    pub fn xreq(&self) -> (request: Option<XRequest>)
        ensures
            match *self {
                Action::XGrab { motion } => request matches Some(
                    XRequest::Grab { xcore, confine, motion: m, devices },
                ) && xcore && !confine && m == motion && devices@.len() == 0,
                Action::XUngrab => request == Some(XRequest::Ungrab),
                Action::XUnstickHost => request == Some(XRequest::UnstickHost),
                Action::XQuit => request == Some(XRequest::Quit),
                _ => request is None,
            },
    {
        match *self {
            Action::XGrab { motion } => Some(
                XRequest::Grab { xcore: true, confine: false, motion, devices: Vec::new() },
            ),
            Action::XUngrab => Some(XRequest::Ungrab),
            Action::XUnstickHost => Some(XRequest::UnstickHost),
            Action::XQuit => Some(XRequest::Quit),
            _ => None,
        }
    }
}

/// What is to be done, one after another until something fails, or why nothing
/// can be done.
pub type Plan = Result<Vec<Action>, ProcessError>;

pub type PlanModel = Result<Seq<ActionModel>, ProcessError>;

pub open spec fn actions_model(actions: Seq<Action>) -> Seq<ActionModel> {
    actions.map_values(|a: Action| a.model())
}

pub open spec fn plan_model(plan: Plan) -> PlanModel {
    match plan {
        Ok(actions) => Ok(actions_model(actions@)),
        Err(error) => Err(error),
    }
}

/// A grab that is in force.
#[derive(Debug)]
pub struct GrabHandle {
    /// The task that forwards the events, where there is one.
    pub grab: Option<u64>,
    pub x_filter: Vec<ConfigInputEvent>,
    pub is_mouse: bool,
}

pub ghost struct GrabModel {
    pub grab: Option<u64>,
    pub x_filter: Seq<ConfigInputEvent>,
    pub is_mouse: bool,
}

impl GrabHandle {
    pub open spec fn model(self) -> GrabModel {
        GrabModel { grab: self.grab, x_filter: self.x_filter@, is_mouse: self.is_mouse }
    }
}

/// The number that stands for the mode of a grab.
spec fn mode_number(mode: ConfigGrabMode) -> u8 {
    match mode {
        ConfigGrabMode::Evdev => 0,
        ConfigGrabMode::XDevice => 1,
        ConfigGrabMode::XCore => 2,
        ConfigGrabMode::XInput => 3,
    }
}

fn number_of_mode(mode: ConfigGrabMode) -> (number: u8)
    ensures
        number == mode_number(mode),
{
    match mode {
        ConfigGrabMode::Evdev => 0,
        ConfigGrabMode::XDevice => 1,
        ConfigGrabMode::XCore => 2,
        ConfigGrabMode::XInput => 3,
    }
}

/// The grabs in force by the numbers of their modes.
#[derive(Debug)]
pub struct Grabs {
    by_mode: HashMap<u8, GrabHandle>,
}

impl Grabs {
    /// The grabs in force by their modes.
    pub closed spec fn model(self) -> Map<ConfigGrabMode, GrabModel> {
        Map::new(
            |mode: ConfigGrabMode| self.by_mode@.contains_key(mode_number(mode)),
            |mode: ConfigGrabMode| self.by_mode@[mode_number(mode)].model(),
        )
    }

    fn new() -> (grabs: Grabs)
        ensures
            grabs.model() == Map::<ConfigGrabMode, GrabModel>::empty(),
    {
        let grabs = Grabs { by_mode: HashMap::new() };
        assert(grabs.model() =~= Map::<ConfigGrabMode, GrabModel>::empty());
        grabs
    }

    fn contains(&self, mode: ConfigGrabMode) -> (has: bool)
        ensures
            has == self.model().contains_key(mode),
    {
        broadcast use group_hash_axioms;

        self.by_mode.contains_key(&number_of_mode(mode))
    }

    /// Puts a grab in force, and gives the one of the same mode that was.
    fn insert(&mut self, mode: ConfigGrabMode, handle: GrabHandle) -> (before: Option<GrabHandle>)
        ensures
            final(self).model() == old(self).model().insert(mode, handle.model()),
            before is Some <==> old(self).model().contains_key(mode),
            before matches Some(b) ==> b.model() == old(self).model()[mode],
    {
        broadcast use group_hash_axioms;

        let before = self.by_mode.insert(number_of_mode(mode), handle);
        assert(self.model() =~= old(self).model().insert(mode, handle.model()));
        before
    }

    /// Takes a grab out of force.
    fn remove(&mut self, mode: ConfigGrabMode) -> (before: Option<GrabHandle>)
        ensures
            final(self).model() == old(self).model().remove(mode),
            before is Some <==> old(self).model().contains_key(mode),
            before matches Some(b) ==> b.model() == old(self).model()[mode],
    {
        broadcast use group_hash_axioms;

        let before = self.by_mode.remove(&number_of_mode(mode));
        assert(self.model() =~= old(self).model().remove(mode));
        before
    }

    fn is_mouse(&self, mode: ConfigGrabMode) -> (is_mouse: bool)
        ensures
            is_mouse == (self.model().contains_key(mode) && self.model()[mode].is_mouse),
    {
        broadcast use group_hash_axioms;

        match self.by_mode.get(&number_of_mode(mode)) {
            Some(grab) => grab.is_mouse,
            None => false,
        }
    }

    /// Whether a grab in force is one of a mouse.
    fn any_mouse(&self) -> (any: bool)
        ensures
            any == has_mouse(self.model()),
    {
        self.is_mouse(ConfigGrabMode::Evdev) || self.is_mouse(ConfigGrabMode::XDevice)
            || self.is_mouse(ConfigGrabMode::XCore) || self.is_mouse(ConfigGrabMode::XInput)
    }
}

/// Whether one of some grabs is one of a mouse.
pub open spec fn has_mouse(grabs: Map<ConfigGrabMode, GrabModel>) -> bool {
    exists|mode: ConfigGrabMode| #[trigger] grabs.contains_key(mode) && grabs[mode].is_mouse
}

/// The state that events act on, as contracts speak of it.
pub ghost struct ProcessModel {
    pub routing: ConfigQemuRouting,
    pub driver_relative: ConfigQemuDriver,
    pub driver_absolute: ConfigQemuDriver,
    pub grabs: Map<ConfigGrabMode, GrabModel>,
    /// The classes of the window's events that are held back.
    pub filter: Set<ConfigInputEvent>,
}

/// Whether the guest is given a device by a command of its own.
pub open spec fn is_added(
    routing: ConfigQemuRouting,
    device: InputDevice,
    driver: ConfigQemuDriver,
) -> bool {
    !(routing is VirtioHost) && !(driver is Ps2)
}

/// The addition of a device, where there is one.
pub open spec fn additions(
    routing: ConfigQemuRouting,
    device: InputDevice,
    driver: ConfigQemuDriver,
) -> Seq<ActionModel> {
    if is_added(routing, device, driver) {
        seq![ActionModel::AddDevice { device, driver }]
    } else {
        Seq::empty()
    }
}

/// The end of the task of a grab, where it has one.
pub open spec fn aborts(grabs: Map<ConfigGrabMode, GrabModel>, mode: ConfigGrabMode) -> Seq<
    ActionModel,
> {
    if grabs.contains_key(mode) {
        match grabs[mode].grab {
            Some(task) => seq![ActionModel::Abort(task)],
            None => Seq::empty(),
        }
    } else {
        Seq::empty()
    }
}

impl ProcessModel {
    pub open spec fn is_mouse(self) -> bool {
        has_mouse(self.grabs)
    }

    /// The addition of the pointer to be used.
    pub open spec fn pointer_additions(self, is_mouse: bool) -> Seq<ActionModel> {
        if is_mouse {
            additions(self.routing, InputDevice::Relative, self.driver_relative)
        } else {
            additions(self.routing, InputDevice::Absolute, self.driver_absolute)
        }
    }

    /// The state with another grab in force.
    pub open spec fn with_grab(self, mode: ConfigGrabMode, handle: GrabModel) -> ProcessModel {
        ProcessModel { grabs: self.grabs.insert(mode, handle), ..self }
    }

    /// The state once a grab of kernel devices is in force.
    pub open spec fn with_evdev_grab(self, handle: GrabModel) -> ProcessModel {
        ProcessModel {
            filter: self.filter.union(handle.x_filter.to_set()),
            ..self.with_grab(ConfigGrabMode::Evdev, handle)
        }
    }

    /// The state after a grab is asked for. A grab of kernel devices is only in
    /// force once they are open.
    pub open spec fn after_grab(self, grab: ConfigGrab) -> ProcessModel {
        match grab {
            ConfigGrab::XCore => self.with_grab(
                ConfigGrabMode::XCore,
                GrabModel { grab: None, x_filter: Seq::empty(), is_mouse: false },
            ),
            ConfigGrab::XInput => self.with_grab(
                ConfigGrabMode::XInput,
                GrabModel { grab: None, x_filter: Seq::empty(), is_mouse: true },
            ),
            _ => self,
        }
    }

    pub open spec fn grab_plan(self, grab: ConfigGrab) -> PlanModel {
        match grab {
            ConfigGrab::XCore => Ok(
                aborts(self.grabs, ConfigGrabMode::XCore).push(
                    ActionModel::XGrab { motion: false },
                ),
            ),
            ConfigGrab::XInput => Ok(
                aborts(self.grabs, ConfigGrabMode::XInput).push(
                    ActionModel::XGrab { motion: true },
                ) + if self.is_mouse() {
                    Seq::empty()
                } else {
                    self.pointer_additions(true)
                },
            ),
            ConfigGrab::Evdev {
                exclusive,
                new_device_name,
                xcore_ignore,
                evdev_ignore,
                devices,
            } => Ok(
                seq![
                    ActionModel::OpenEvdev {
                        devices: devices@,
                        evdev_ignore: evdev_ignore@,
                        xcore_ignore: xcore_ignore@,
                        new_device_name,
                        exclusive: exclusive && new_device_name is Some,
                        prev_is_mouse: self.is_mouse(),
                    },
                ],
            ),
            ConfigGrab::XDevice { .. } => Err(
                ProcessError::GrabUnimplemented(ConfigGrabMode::XDevice),
            ),
        }
    }

    /// The state after a grab is given up.
    pub open spec fn after_ungrab(self, mode: ConfigGrabMode) -> ProcessModel {
        if mode is XDevice {
            self
        } else {
            ProcessModel {
                grabs: self.grabs.remove(mode),
                filter: if mode is Evdev && self.grabs.contains_key(mode) {
                    self.filter.difference(self.grabs[mode].x_filter.to_set())
                } else {
                    self.filter
                },
                ..self
            }
        }
    }

    /// What the end of a grab leads to: where the last mouse is gone, the guest
    /// gets its tablet again.
    pub open spec fn ungrab_plan(self, mode: ConfigGrabMode) -> PlanModel {
        let left = self.grabs.remove(mode);
        let pointer = if self.grabs.contains_key(mode) && self.grabs[mode].is_mouse && !has_mouse(
            left,
        ) {
            self.pointer_additions(false)
        } else {
            Seq::empty()
        };
        match mode {
            ConfigGrabMode::XCore | ConfigGrabMode::XInput => Ok(
                aborts(self.grabs, mode) + pointer.push(ActionModel::XUngrab),
            ),
            ConfigGrabMode::Evdev => Ok(aborts(self.grabs, mode) + pointer),
            ConfigGrabMode::XDevice => Err(ProcessError::UngrabUnimplemented(mode)),
        }
    }

    /// The state after an event other than the one that ends the program.
    pub open spec fn after_event(self, event: ConfigEvent) -> ProcessModel {
        match event {
            ConfigEvent::ToggleGrab(grab) => if self.grabs.contains_key(grab.grab_mode()) {
                self.after_ungrab(grab.grab_mode())
            } else {
                self.after_grab(grab)
            },
            ConfigEvent::Grab(grab) => self.after_grab(grab),
            ConfigEvent::Ungrab(mode) => self.after_ungrab(mode),
            _ => self,
        }
    }

    /// What an event other than the one that ends the program leads to.
    pub open spec fn event_plan(self, event: ConfigEvent, showing_guest: Option<bool>) -> PlanModel {
        match event {
            ConfigEvent::Exec(args) => Ok(seq![ActionModel::Exec(args@)]),
            ConfigEvent::GuestExec(args) => Ok(seq![ActionModel::GuestExec(args@)]),
            ConfigEvent::GuestWait => Ok(seq![ActionModel::GuestWait]),
            ConfigEvent::ShowHost => Ok(seq![ActionModel::ShowHost]),
            ConfigEvent::ShowGuest => Ok(seq![ActionModel::ShowGuest]),
            ConfigEvent::ToggleShow => Ok(
                seq![
                    if showing_guest == Some(true) {
                        ActionModel::ShowHost
                    } else {
                        ActionModel::ShowGuest
                    },
                ],
            ),
            ConfigEvent::ToggleGrab(grab) => if self.grabs.contains_key(grab.grab_mode()) {
                self.ungrab_plan(grab.grab_mode())
            } else {
                self.grab_plan(grab)
            },
            ConfigEvent::Grab(grab) => self.grab_plan(grab),
            ConfigEvent::Ungrab(mode) => self.ungrab_plan(mode),
            ConfigEvent::UnstickGuest => Ok(seq![ActionModel::UnstickGuest]),
            ConfigEvent::UnstickHost => Ok(seq![ActionModel::XUnstickHost]),
            ConfigEvent::Shutdown => Ok(
                seq![ActionModel::GuestShutdown(ShutdownMode::Powerdown)],
            ),
            ConfigEvent::Reboot => Ok(seq![ActionModel::GuestShutdown(ShutdownMode::Reboot)]),
            ConfigEvent::Exit => Ok(seq![ActionModel::XQuit]),
        }
    }

    /// The state after some events, of which those that end the program are
    /// left out.
    pub open spec fn after_exit_events(self, events: Seq<ConfigEvent>) -> ProcessModel
        decreases events.len(),
    {
        if events.len() == 0 {
            self
        } else {
            let before = self.after_exit_events(events.drop_last());
            if events.last() is Exit {
                before
            } else {
                before.after_event(events.last())
            }
        }
    }

    /// What some events lead to, of which those that end the program are left
    /// out.
    pub open spec fn exit_plans(self, events: Seq<ConfigEvent>, showing_guest: Option<bool>) -> Seq<
        PlanModel,
    >
        decreases events.len(),
    {
        if events.len() == 0 {
            Seq::empty()
        } else {
            let before = self.exit_plans(events.drop_last(), showing_guest);
            if events.last() is Exit {
                before
            } else {
                before.push(
                    self.after_exit_events(events.drop_last()).event_plan(
                        events.last(),
                        showing_guest,
                    ),
                )
            }
        }
    }
}

/// What events act on.
#[derive(Debug)]
pub struct Process {
    pub routing: ConfigQemuRouting,
    pub driver_keyboard: ConfigQemuDriver,
    pub driver_relative: ConfigQemuDriver,
    pub driver_absolute: ConfigQemuDriver,
    pub exit_events: Vec<ConfigEvent>,
    pub grabs: Grabs,
    pub x_input_filter: InputEventFilter,
}

impl Process {
    pub open spec fn model(self) -> ProcessModel {
        ProcessModel {
            routing: self.routing,
            driver_relative: self.driver_relative,
            driver_absolute: self.driver_absolute,
            grabs: self.grabs.model(),
            filter: self.x_input_filter.held().classes(),
        }
    }

    /// What no event changes.
    pub open spec fn same_setup(self, other: Process) -> bool {
        &&& self.driver_keyboard == other.driver_keyboard
        &&& self.exit_events == other.exit_events
    }

    pub fn new(
        routing: ConfigQemuRouting,
        driver_keyboard: ConfigQemuDriver,
        driver_relative: ConfigQemuDriver,
        driver_absolute: ConfigQemuDriver,
        exit_events: Vec<ConfigEvent>,
    ) -> (process: Process)
        ensures
            process.model() == (ProcessModel {
                routing,
                driver_relative,
                driver_absolute,
                grabs: Map::empty(),
                filter: Set::empty(),
            }),
            process.driver_keyboard == driver_keyboard,
            process.exit_events == exit_events,
    {
        Process {
            routing,
            driver_keyboard,
            driver_relative,
            driver_absolute,
            exit_events,
            grabs: Grabs::new(),
            x_input_filter: InputEventFilter::empty(),
        }
    }

    /// What holds back events of the window.
    pub fn x_filter(&self) -> (filter: InputEventFilter)
        ensures
            filter == self.x_input_filter,
    {
        self.x_input_filter
    }

    /// The id of a device. The mouse and the tablet share theirs: there is only
    /// one of them at a time.
    pub open spec fn id_of(device: InputDevice) -> Seq<char> {
        match device {
            InputDevice::Keyboard => "screenstub-dev-kbd"@,
            InputDevice::Relative => "screenstub-dev-mouse"@,
            InputDevice::Absolute => "screenstub-dev-mouse"@,
        }
    }

    /// The name of a device's driver.
    pub open spec fn driver_of(device: InputDevice, virtio: bool) -> Seq<char> {
        match (device, virtio) {
            (InputDevice::Keyboard, false) => "usb-kbd"@,
            (InputDevice::Relative, false) => "usb-mouse"@,
            (InputDevice::Absolute, false) => "usb-tablet"@,
            (InputDevice::Keyboard, true) => "virtio-keyboard-pci"@,
            (InputDevice::Relative, true) => "virtio-mouse-pci"@,
            (InputDevice::Absolute, true) => "virtio-tablet-pci"@,
        }
    }

    fn device_id(device: InputDevice) -> (id: &'static str)
        ensures
            id@ == Process::id_of(device),
    {
        match device {
            InputDevice::Keyboard => "screenstub-dev-kbd",
            InputDevice::Relative => "screenstub-dev-mouse",
            InputDevice::Absolute => "screenstub-dev-mouse",
        }
    }

    /// The command that gives the guest a device. A PS/2 device needs none: the
    /// machine has it.
    pub fn add_device_cmd(device: InputDevice, driver: ConfigQemuDriver) -> (command: Option<
        DeviceAdd,
    >)
        ensures
            command is None <==> driver is Ps2,
            command matches Some(c) ==> c.adds(
                Process::driver_of(device, driver is Virtio),
                Process::id_of(device),
            ),
    {
        let driver = match (device, driver) {
            (_, ConfigQemuDriver::Ps2) => {
                return None;
            },
            (InputDevice::Keyboard, ConfigQemuDriver::Usb) => "usb-kbd",
            (InputDevice::Relative, ConfigQemuDriver::Usb) => "usb-mouse",
            (InputDevice::Absolute, ConfigQemuDriver::Usb) => "usb-tablet",
            (InputDevice::Keyboard, ConfigQemuDriver::Virtio) => "virtio-keyboard-pci",
            (InputDevice::Relative, ConfigQemuDriver::Virtio) => "virtio-mouse-pci",
            (InputDevice::Absolute, ConfigQemuDriver::Virtio) => "virtio-tablet-pci",
        };
        Some(
            DeviceAdd {
                driver: String::from_str(driver),
                id: Some(String::from_str(Process::device_id(device))),
                bus: None,
                arguments: Vec::new(),
            },
        )
    }

    /// The addition of a device, where one is needed.
    fn devices_init_cmd(
        routing: ConfigQemuRouting,
        device: InputDevice,
        driver: ConfigQemuDriver,
    ) -> (action: Option<Action>)
        ensures
            action == if is_added(routing, device, driver) {
                Some(Action::AddDevice { device, driver })
            } else {
                None
            },
    {
        match routing {
            ConfigQemuRouting::VirtioHost => None,
            _ => match driver {
                ConfigQemuDriver::Ps2 => None,
                _ => Some(Action::AddDevice { device, driver }),
            },
        }
    }

    /// The devices that the guest starts with: the keyboard and the tablet.
    pub fn devices_init(&self) -> (actions: Vec<Action>)
        ensures
            actions_model(actions@) == additions(
                self.routing,
                InputDevice::Keyboard,
                self.driver_keyboard,
            ) + self.model().pointer_additions(false),
    {
        let mut actions: Vec<Action> = Vec::new();
        if let Some(action) = Process::devices_init_cmd(
            self.routing,
            InputDevice::Keyboard,
            self.driver_keyboard,
        ) {
            actions.push(action);
        }
        if let Some(action) = self.set_is_mouse(false) {
            actions.push(action);
        }
        assert(actions_model(actions@) =~= additions(
            self.routing,
            InputDevice::Keyboard,
            self.driver_keyboard,
        ) + self.model().pointer_additions(false));
        actions
    }

    fn set_is_mouse_cmd(
        routing: ConfigQemuRouting,
        driver_relative: ConfigQemuDriver,
        driver_absolute: ConfigQemuDriver,
        is_mouse: bool,
    ) -> (action: Option<Action>)
        ensures
            action == if is_mouse {
                if is_added(routing, InputDevice::Relative, driver_relative) {
                    Some(
                        Action::AddDevice {
                            device: InputDevice::Relative,
                            driver: driver_relative,
                        },
                    )
                } else {
                    None
                }
            } else {
                if is_added(routing, InputDevice::Absolute, driver_absolute) {
                    Some(
                        Action::AddDevice {
                            device: InputDevice::Absolute,
                            driver: driver_absolute,
                        },
                    )
                } else {
                    None
                }
            },
    {
        let (device, driver) = if is_mouse {
            (InputDevice::Relative, driver_relative)
        } else {
            (InputDevice::Absolute, driver_absolute)
        };
        Process::devices_init_cmd(routing, device, driver)
    }

    /// Gives the guest a mouse or a tablet, where it has to be given.
    pub fn set_is_mouse(&self, is_mouse: bool) -> (action: Option<Action>)
        ensures
            action is Some <==> self.model().pointer_additions(is_mouse).len() > 0,
            action matches Some(a) ==> seq![a.model()] == self.model().pointer_additions(is_mouse),
    {
        Process::set_is_mouse_cmd(
            self.routing,
            self.driver_relative,
            self.driver_absolute,
            is_mouse,
        )
    }

    /// Whether a mouse is in use, and no tablet.
    pub fn is_mouse(&self) -> (is_mouse: bool)
        ensures
            is_mouse == self.model().is_mouse(),
    {
        self.grabs.any_mouse()
    }

    /// Makes a grab. One of kernel devices is only in force once they are open.
    pub fn grab(&mut self, grab: &ConfigGrab) -> (plan: Plan)
        ensures
            final(self).model() == old(self).model().after_grab(*grab),
            plan_model(plan) == old(self).model().grab_plan(*grab),
            final(self).same_setup(*old(self)),
    {
        let ghost before = self.model();
        let mode = grab.mode();
        let prev_is_mouse = self.is_mouse();
        let mut actions: Vec<Action> = Vec::new();
        match grab {
            ConfigGrab::XCore => {
                let replaced = self.grabs.insert(
                    mode,
                    GrabHandle { grab: None, x_filter: Vec::new(), is_mouse: false },
                );
                push_abort(&mut actions, replaced);
                actions.push(Action::XGrab { motion: false });
            },
            ConfigGrab::XInput => {
                let replaced = self.grabs.insert(
                    mode,
                    GrabHandle { grab: None, x_filter: Vec::new(), is_mouse: true },
                );
                push_abort(&mut actions, replaced);
                actions.push(Action::XGrab { motion: true });
                if !prev_is_mouse {
                    if let Some(action) = self.set_is_mouse(true) {
                        actions.push(action);
                    }
                }
            },
            ConfigGrab::Evdev {
                exclusive,
                new_device_name,
                xcore_ignore,
                evdev_ignore,
                devices,
            } => {
                actions.push(
                    Action::OpenEvdev(
                        EvdevGrab {
                            devices: copy_strings(devices),
                            evdev_ignore: copy_classes(evdev_ignore),
                            xcore_ignore: copy_classes(xcore_ignore),
                            new_device_name: match new_device_name {
                                Some(name) => Some(name.clone()),
                                None => None,
                            },
                            exclusive: *exclusive && new_device_name.is_some(),
                            prev_is_mouse,
                        },
                    ),
                );
            },
            ConfigGrab::XDevice { .. } => {
                return Err(ProcessError::GrabUnimplemented(mode));
            },
        }
        assert(actions_model(actions@) =~= before.grab_plan(*grab)->Ok_0);
        assert(self.model() == before.after_grab(*grab));
        Ok(actions)
    }

    /// Puts a grab of kernel devices in force once they are open. `moves` says
    /// of each device whether it moves along X or along Y.
    pub fn evdev_grabbed(&mut self, grab: &EvdevGrab, task: u64, moves: &Vec<(bool, bool)>) -> (actions:
        Vec<Action>)
        ensures
            ({
                let is_mouse = any_moves(moves@);
                let before = old(self).model();
                &&& final(self).model() == before.with_evdev_grab(
                    GrabModel { grab: Some(task), x_filter: grab.xcore_ignore@, is_mouse },
                )
                &&& actions_model(actions@) == aborts(before.grabs, ConfigGrabMode::Evdev)
                    + if is_mouse && !grab.prev_is_mouse {
                    before.pointer_additions(true)
                } else {
                    Seq::empty()
                }
            }),
            final(self).same_setup(*old(self)),
    {
        let ghost before = self.model();
        let mut is_mouse = false;
        for i in 0..moves.len()
            invariant
                is_mouse == any_moves(moves@.take(i as int)),
        {
            let (x, y) = moves[i];
            proof {
                lemma_any_moves(moves@, i as int);
            }
            is_mouse = is_mouse || x || y;
        }
        assert(moves@.take(moves@.len() as int) =~= moves@);
        self.x_input_filter.set_filter(&grab.xcore_ignore);
        let replaced = self.grabs.insert(
            ConfigGrabMode::Evdev,
            GrabHandle {
                grab: Some(task),
                x_filter: copy_classes(&grab.xcore_ignore),
                is_mouse,
            },
        );
        let mut actions: Vec<Action> = Vec::new();
        push_abort(&mut actions, replaced);
        if is_mouse && !grab.prev_is_mouse {
            if let Some(action) = self.set_is_mouse(true) {
                actions.push(action);
            }
        }
        assert(actions_model(actions@) =~= aborts(before.grabs, ConfigGrabMode::Evdev)
            + if is_mouse && !grab.prev_is_mouse {
            before.pointer_additions(true)
        } else {
            Seq::empty()
        });
        actions
    }

    /// Gives up a grab.
    pub fn ungrab(&mut self, grab: ConfigGrabMode) -> (plan: Plan)
        ensures
            final(self).model() == old(self).model().after_ungrab(grab),
            plan_model(plan) == old(self).model().ungrab_plan(grab),
            final(self).same_setup(*old(self)),
    {
        let ghost before = self.model();
        if let ConfigGrabMode::XDevice = grab {
            return Err(ProcessError::UngrabUnimplemented(grab));
        }
        let mut actions: Vec<Action> = Vec::new();
        let handle = self.grabs.remove(grab);
        assert(self.grabs.model() =~= before.grabs.remove(grab));
        if let Some(handle) = handle {
            let is_mouse = handle.is_mouse;
            if let ConfigGrabMode::Evdev = grab {
                self.x_input_filter.unset_filter(&handle.x_filter);
            }
            push_abort(&mut actions, Some(handle));
            if is_mouse && !self.is_mouse() {
                if let Some(action) = self.set_is_mouse(false) {
                    actions.push(action);
                }
            }
        }
        match grab {
            ConfigGrabMode::XCore | ConfigGrabMode::XInput => {
                actions.push(Action::XUngrab);
            },
            _ => {},
        }
        assert(actions_model(actions@) =~= before.ungrab_plan(grab)->Ok_0);
        Ok(actions)
    }

    /// What an event other than the one that ends the program leads to.
    fn process_event(&mut self, event: &ConfigEvent, showing_guest: Option<bool>) -> (plan: Plan)
        ensures
            final(self).model() == old(self).model().after_event(*event),
            plan_model(plan) == old(self).model().event_plan(*event, showing_guest),
            final(self).same_setup(*old(self)),
    {
        let ghost before = self.model();
        let mut actions: Vec<Action> = Vec::new();
        match event {
            ConfigEvent::Exec(args) => {
                actions.push(Action::Exec(copy_strings(args)));
            },
            ConfigEvent::GuestExec(args) => {
                actions.push(Action::GuestExec(copy_strings(args)));
            },
            ConfigEvent::GuestWait => {
                actions.push(Action::GuestWait);
            },
            ConfigEvent::ShowHost => {
                actions.push(Action::ShowHost);
            },
            ConfigEvent::ShowGuest => {
                actions.push(Action::ShowGuest);
            },
            ConfigEvent::ToggleShow => {
                let showing = match showing_guest {
                    Some(showing) => showing,
                    None => false,
                };
                if showing {
                    actions.push(Action::ShowHost);
                } else {
                    actions.push(Action::ShowGuest);
                }
            },
            ConfigEvent::ToggleGrab(grab) => {
                let mode = grab.mode();
                if self.grabs.contains(mode) {
                    return self.ungrab(mode);
                } else {
                    return self.grab(grab);
                }
            },
            ConfigEvent::Grab(grab) => {
                return self.grab(grab);
            },
            ConfigEvent::Ungrab(mode) => {
                return self.ungrab(*mode);
            },
            ConfigEvent::UnstickGuest => {
                actions.push(Action::UnstickGuest);
            },
            ConfigEvent::UnstickHost => {
                actions.push(Action::XUnstickHost);
            },
            ConfigEvent::Shutdown => {
                actions.push(Action::GuestShutdown(ShutdownMode::Powerdown));
            },
            ConfigEvent::Reboot => {
                actions.push(Action::GuestShutdown(ShutdownMode::Reboot));
            },
            ConfigEvent::Exit => {
                actions.push(Action::XQuit);
            },
        }
        assert(actions_model(actions@) =~= before.event_plan(*event, showing_guest)->Ok_0);
        Ok(actions)
    }

    /// What an event leads to. The one that ends the program first runs the
    /// events that are configured for the exit, each on its own, and then has
    /// the window close; any other one is a single plan.
    pub fn process_user_event(&mut self, event: &ConfigEvent, showing_guest: Option<bool>) -> (plans:
        Vec<Plan>)
        ensures
            *event is Exit ==> {
                &&& plans_model(plans@) == old(self).model().exit_plans(
                    old(self).exit_events@,
                    showing_guest,
                ).push(Ok(seq![ActionModel::XQuit]))
                &&& final(self).model() == old(self).model().after_exit_events(
                    old(self).exit_events@,
                )
            },
            !(*event is Exit) ==> {
                &&& plans_model(plans@) == seq![
                    old(self).model().event_plan(*event, showing_guest),
                ]
                &&& final(self).model() == old(self).model().after_event(*event)
            },
            final(self).same_setup(*old(self)),
    {
        let mut plans: Vec<Plan> = Vec::new();
        let ghost before = self.model();
        let ghost events = self.exit_events@;
        if let ConfigEvent::Exit = event {
            let mut exit_events: Vec<ConfigEvent> = Vec::new();
            std::mem::swap(&mut exit_events, &mut self.exit_events);
            let ghost own = *old(self);
            for i in 0..exit_events.len()
                invariant
                    exit_events@ == events,
                    self.driver_keyboard == own.driver_keyboard,
                    self.model() == before.after_exit_events(events.take(i as int)),
                    plans_model(plans@) == before.exit_plans(events.take(i as int), showing_guest),
            {
                proof {
                    assert(events.take(i + 1).drop_last() =~= events.take(i as int));
                }
                match &exit_events[i] {
                    ConfigEvent::Exit => {},
                    e => {
                        let plan = self.process_event(e, showing_guest);
                        let ghost prior = plans@;
                        plans.push(plan);
                        assert(plans_model(plans@) =~= plans_model(prior).push(plan_model(plan)));
                    },
                }
            }
            assert(events.take(events.len() as int) =~= events);
            self.exit_events = exit_events;
            let mut quit: Vec<Action> = Vec::new();
            quit.push(Action::XQuit);
            assert(actions_model(quit@) =~= seq![ActionModel::XQuit]);
            let ghost prior = plans@;
            plans.push(Ok(quit));
            assert(plans_model(plans@) =~= plans_model(prior).push(Ok(seq![ActionModel::XQuit])));
        } else {
            let plan = self.process_event(event, showing_guest);
            plans.push(plan);
            assert(plans_model(plans@) =~= seq![plan_model(plan)]);
        }
        plans
    }
}

pub open spec fn plans_model(plans: Seq<Plan>) -> Seq<PlanModel> {
    plans.map_values(|p: Plan| plan_model(p))
}

/// Whether one of some devices moves.
pub open spec fn any_moves(moves: Seq<(bool, bool)>) -> bool {
    exists|i: int| 0 <= i < moves.len() && ((#[trigger] moves[i]).0 || moves[i].1)
}

proof fn lemma_any_moves(moves: Seq<(bool, bool)>, i: int)
    requires
        0 <= i < moves.len(),
    ensures
        any_moves(moves.take(i + 1)) == (any_moves(moves.take(i)) || moves[i].0 || moves[i].1),
{
    let shorter = moves.take(i);
    let longer = moves.take(i + 1);
    if any_moves(shorter) {
        let k = choose|k: int| 0 <= k < shorter.len() && ((#[trigger] shorter[k]).0 || shorter[k].1);
        assert(longer[k] == shorter[k]);
    }
    if moves[i].0 || moves[i].1 {
        assert(longer[i] == moves[i]);
    }
    if any_moves(longer) {
        let k = choose|k: int| 0 <= k < longer.len() && ((#[trigger] longer[k]).0 || longer[k].1);
        if k < i {
            assert(shorter[k] == longer[k]);
        }
    }
}

fn push_abort(actions: &mut Vec<Action>, handle: Option<GrabHandle>)
    ensures
        final(actions)@ == match handle {
            Some(handle) => match handle.grab {
                Some(task) => old(actions)@.push(Action::Abort(task)),
                None => old(actions)@,
            },
            None => old(actions)@,
        },
{
    if let Some(handle) = handle {
        if let Some(task) = handle.grab {
            actions.push(Action::Abort(task));
        }
    }
}

fn copy_classes(classes: &Vec<ConfigInputEvent>) -> (copy: Vec<ConfigInputEvent>)
    ensures
        copy@ == classes@,
{
    vstd::slice::slice_to_vec(classes.as_slice())
}

/// Giving up a grab of kernel devices undoes it: the window's events pass that
/// passed before, and no grab is left that was not there.
pub proof fn ungrab_undoes_evdev_grab(before: ProcessModel, handle: GrabModel)
    requires
        !before.grabs.contains_key(ConfigGrabMode::Evdev),
        before.filter.disjoint(handle.x_filter.to_set()),
    ensures
        before.with_evdev_grab(handle).after_ungrab(ConfigGrabMode::Evdev) == before,
{
    let after = before.with_evdev_grab(handle).after_ungrab(ConfigGrabMode::Evdev);
    assert(after.grabs =~= before.grabs);
    assert(after.filter =~= before.filter);
}

/// Giving up a grab of the window undoes it.
pub proof fn ungrab_undoes_x_grab(before: ProcessModel, grab: ConfigGrab)
    requires
        grab is XCore || grab is XInput,
        !before.grabs.contains_key(grab.grab_mode()),
    ensures
        before.after_grab(grab).after_ungrab(grab.grab_mode()) == before,
{
    assert(before.after_grab(grab).after_ungrab(grab.grab_mode()).grabs =~= before.grabs);
}

/// Asking twice for a grab of the window to be toggled changes nothing.
pub proof fn toggling_twice_changes_nothing(before: ProcessModel, grab: ConfigGrab)
    requires
        grab is XCore || grab is XInput,
        !before.grabs.contains_key(grab.grab_mode()),
    ensures
        before.after_event(ConfigEvent::ToggleGrab(grab)).after_event(
            ConfigEvent::ToggleGrab(grab),
        ) == before,
{
    ungrab_undoes_x_grab(before, grab);
}

/// A pointer is added on the way to a mouse and on the way back, and at no
/// other time: making a second grab of a mouse adds none.
pub proof fn only_the_first_mouse_is_added(model: ProcessModel)
    requires
        model.is_mouse(),
    ensures
        model.grab_plan(ConfigGrab::XInput) == Ok::<Seq<ActionModel>, ProcessError>(
            aborts(model.grabs, ConfigGrabMode::XInput).push(ActionModel::XGrab { motion: true }),
        ),
{
    let actions = aborts(model.grabs, ConfigGrabMode::XInput).push(
        ActionModel::XGrab { motion: true },
    );
    assert(actions + Seq::<ActionModel>::empty() =~= actions);
}

/// What is to be done is told apart by what it is, and by what it is done with.
pub proof fn models_tell_actions_apart(action: Action)
    ensures
        action matches Action::Abort(task) ==> action.model() == ActionModel::Abort(task),
        action matches Action::XGrab { motion } ==> action.model() == (ActionModel::XGrab {
            motion,
        }),
        action is XUngrab <==> action.model() is XUngrab,
        action is XUnstickHost <==> action.model() is XUnstickHost,
        action is XQuit <==> action.model() is XQuit,
        action matches Action::AddDevice { device, driver } ==> action.model() == (
        ActionModel::AddDevice { device, driver }),
        action matches Action::Exec(args) ==> action.model() == ActionModel::Exec(args@),
        action matches Action::GuestExec(args) ==> action.model() == ActionModel::GuestExec(args@),
        action is GuestWait <==> action.model() is GuestWait,
        action is ShowHost <==> action.model() is ShowHost,
        action is ShowGuest <==> action.model() is ShowGuest,
        action matches Action::OpenEvdev(grab) ==> {
            &&& action.model() is OpenEvdev
            &&& action.model()->devices == grab.devices@
            &&& action.model()->evdev_ignore == grab.evdev_ignore@
            &&& action.model()->xcore_ignore == grab.xcore_ignore@
            &&& action.model()->new_device_name == grab.new_device_name
            &&& action.model()->exclusive == grab.exclusive
            &&& action.model()->prev_is_mouse == grab.prev_is_mouse
        },
        action is UnstickGuest <==> action.model() is UnstickGuest,
        action matches Action::GuestShutdown(mode) ==> action.model()
            == ActionModel::GuestShutdown(mode),
{
}

/// The model of some actions has them all, in order.
pub proof fn models_keep_the_order(actions: Seq<Action>)
    ensures
        actions_model(actions).len() == actions.len(),
        forall|i: int|
            0 <= i < actions.len() ==> #[trigger] actions_model(actions)[i] == actions[i].model(),
{
}

/// A grab in force is known by its task, by the classes of events that it holds
/// back, and by whether it is one of a mouse.
pub proof fn models_tell_grabs_apart(handle: GrabHandle)
    ensures
        handle.model().grab == handle.grab,
        handle.model().x_filter == handle.x_filter@,
        handle.model().is_mouse == handle.is_mouse,
{
}

/// Something that is to be done where a condition holds.
pub open spec fn where_due(due: bool, action: ActionModel) -> Seq<ActionModel> {
    if due {
        seq![action]
    } else {
        seq![]
    }
}

/// Giving up a grab ends its task, gives the guest its tablet again where no other
/// grab is one of a mouse, and lets go of the window where the window was grabbed.
/// From then on no grab of this mode is in force, the other grabs are untouched,
/// and the classes of events that a grab of kernel devices held back pass again.
pub proof fn ungrabbing_ends_the_grab(
    before: Process,
    mode: ConfigGrabMode,
    plan: Plan,
    after: Process,
)
    requires
        exists|this: &mut Process| #[trigger]
            call_ensures(Process::ungrab, (this, mode), plan) && *this == before && *final(this)
                == after,
    ensures
        ({
            let held = before.grabs.model();
            let left = after.grabs.model();
            let passes = before.x_input_filter.held().classes();
            let passes_after = after.x_input_filter.held().classes();
            let in_force = held.contains_key(mode);
            let last_mouse = in_force && held[mode].is_mouse && forall|other: ConfigGrabMode|
                #[trigger] held.contains_key(other) && other != mode ==> !held[other].is_mouse;
            if mode == ConfigGrabMode::XDevice {
                &&& plan == Err::<Vec<Action>, ProcessError>(
                    ProcessError::UngrabUnimplemented(ConfigGrabMode::XDevice),
                )
                &&& left == held
                &&& passes_after == passes
            } else {
                &&& !left.contains_key(mode)
                &&& forall|other: ConfigGrabMode|
                    other != mode ==> (#[trigger] left.contains_key(other) <==> held.contains_key(
                        other,
                    ))
                &&& forall|other: ConfigGrabMode| #[trigger]
                    left.contains_key(other) ==> left[other] == held[other]
                &&& forall|class: ConfigInputEvent| #[trigger]
                    passes_after.contains(class) <==> passes.contains(class) && !(in_force && mode
                        == ConfigGrabMode::Evdev && held[mode].x_filter.contains(class))
                &&& plan matches Ok(actions) && actions_model(actions@) == where_due(
                    in_force && held[mode].grab is Some,
                    ActionModel::Abort(held[mode].grab->0),
                ) + where_due(
                    last_mouse && before.routing != ConfigQemuRouting::VirtioHost
                        && before.driver_absolute != ConfigQemuDriver::Ps2,
                    ActionModel::AddDevice {
                        device: InputDevice::Absolute,
                        driver: before.driver_absolute,
                    },
                ) + where_due(
                    mode == ConfigGrabMode::XCore || mode == ConfigGrabMode::XInput,
                    ActionModel::XUngrab,
                )
            }
        }),
        after.routing == before.routing,
        after.driver_keyboard == before.driver_keyboard,
        after.driver_relative == before.driver_relative,
        after.driver_absolute == before.driver_absolute,
        after.exit_events == before.exit_events,
{
    let held = before.grabs.model();
    let m = before.model();
    assert(after.model() == m.after_ungrab(mode));
    if mode != ConfigGrabMode::XDevice {
        let in_force = held.contains_key(mode);
        let left = held.remove(mode);
        let last_mouse = in_force && held[mode].is_mouse && forall|other: ConfigGrabMode|
            #[trigger] held.contains_key(other) && other != mode ==> !held[other].is_mouse;
        if has_mouse(left) {
            let other = choose|other: ConfigGrabMode| #[trigger]
                left.contains_key(other) && left[other].is_mouse;
            assert(held.contains_key(other));
        } else {
            assert forall|other: ConfigGrabMode| #[trigger]
                held.contains_key(other) && other != mode implies !held[other].is_mouse by {
                assert(left.contains_key(other));
            }
        }
        assert(last_mouse <==> in_force && held[mode].is_mouse && !has_mouse(left));
        assert(actions_model(plan->Ok_0@) =~= where_due(
            in_force && held[mode].grab is Some,
            ActionModel::Abort(held[mode].grab->0),
        ) + where_due(
            last_mouse && before.routing != ConfigQemuRouting::VirtioHost && before.driver_absolute
                != ConfigQemuDriver::Ps2,
            ActionModel::AddDevice { device: InputDevice::Absolute, driver: before.driver_absolute },
        ) + where_due(
            mode == ConfigGrabMode::XCore || mode == ConfigGrabMode::XInput,
            ActionModel::XUngrab,
        ));
    }
}

/// A grab of the window ends the task of the one that it replaces, and asks for the
/// keyboard and the pointer; one with motion gives the guest a mouse, unless a
/// grab of a mouse is in force. It is in force at once, and holds back no events.
/// A grab of kernel devices changes nothing until the devices are open.
pub proof fn grabbing_takes_force(before: Process, grab: ConfigGrab, plan: Plan, after: Process)
    requires
        exists|this: &mut Process| #[trigger]
            call_ensures(Process::grab, (this, &grab), plan) && *this == before && *final(this)
                == after,
    ensures
        ({
            let held = before.grabs.model();
            let no_mouse = forall|mode: ConfigGrabMode| #[trigger]
                held.contains_key(mode) ==> !held[mode].is_mouse;
            let mode = if grab is XInput {
                ConfigGrabMode::XInput
            } else {
                ConfigGrabMode::XCore
            };
            if grab is XCore || grab is XInput {
                &&& after.grabs.model() == held.insert(
                    mode,
                    GrabModel { grab: None, x_filter: Seq::empty(), is_mouse: grab is XInput },
                )
                &&& plan matches Ok(actions) && actions_model(actions@) == where_due(
                    held.contains_key(mode) && held[mode].grab is Some,
                    ActionModel::Abort(held[mode].grab->0),
                ) + seq![ActionModel::XGrab { motion: grab is XInput }] + where_due(
                    grab is XInput && no_mouse && before.routing != ConfigQemuRouting::VirtioHost
                        && before.driver_relative != ConfigQemuDriver::Ps2,
                    ActionModel::AddDevice {
                        device: InputDevice::Relative,
                        driver: before.driver_relative,
                    },
                )
            } else {
                &&& after.grabs.model() == held
                &&& grab matches ConfigGrab::Evdev {
                    exclusive,
                    new_device_name,
                    xcore_ignore,
                    evdev_ignore,
                    devices,
                } ==> (plan matches Ok(actions) && actions_model(actions@) == seq![
                    ActionModel::OpenEvdev {
                        devices: devices@,
                        evdev_ignore: evdev_ignore@,
                        xcore_ignore: xcore_ignore@,
                        new_device_name,
                        exclusive: exclusive && new_device_name is Some,
                        prev_is_mouse: !no_mouse,
                    },
                ])
                &&& grab is XDevice ==> plan == Err::<Vec<Action>, ProcessError>(
                    ProcessError::GrabUnimplemented(ConfigGrabMode::XDevice),
                )
            }
        }),
        after.x_input_filter.held().classes() == before.x_input_filter.held().classes(),
        after.routing == before.routing,
        after.driver_keyboard == before.driver_keyboard,
        after.driver_relative == before.driver_relative,
        after.driver_absolute == before.driver_absolute,
        after.exit_events == before.exit_events,
{
    let held = before.grabs.model();
    let m = before.model();
    assert(after.model() == m.after_grab(grab));
    let no_mouse = forall|mode: ConfigGrabMode| #[trigger]
        held.contains_key(mode) ==> !held[mode].is_mouse;
    assert(no_mouse == !has_mouse(held));
    if grab is XCore || grab is XInput {
        let mode = if grab is XInput {
            ConfigGrabMode::XInput
        } else {
            ConfigGrabMode::XCore
        };
        assert(actions_model(plan->Ok_0@) =~= where_due(
            held.contains_key(mode) && held[mode].grab is Some,
            ActionModel::Abort(held[mode].grab->0),
        ) + seq![ActionModel::XGrab { motion: grab is XInput }] + where_due(
            grab is XInput && no_mouse && before.routing != ConfigQemuRouting::VirtioHost
                && before.driver_relative != ConfigQemuDriver::Ps2,
            ActionModel::AddDevice { device: InputDevice::Relative, driver: before.driver_relative },
        ));
    }
}

/// Once kernel devices are open, their grab is in force with its task, and the
/// classes of events that it names are held back besides those that were; the task
/// of the grab that it replaces ends, and the guest gets a mouse where one of the
/// devices moves and there was no mouse.
pub proof fn opened_devices_take_force(
    before: Process,
    grab: EvdevGrab,
    task: u64,
    moves: Vec<(bool, bool)>,
    actions: Vec<Action>,
    after: Process,
)
    requires
        exists|this: &mut Process| #[trigger]
            call_ensures(Process::evdev_grabbed, (this, &grab, task, &moves), actions) && *this
                == before && *final(this) == after,
    ensures
        ({
            let held = before.grabs.model();
            let is_mouse = exists|i: int|
                0 <= i < moves@.len() && ((#[trigger] moves@[i]).0 || moves@[i].1);
            &&& after.grabs.model() == held.insert(
                ConfigGrabMode::Evdev,
                GrabModel { grab: Some(task), x_filter: grab.xcore_ignore@, is_mouse },
            )
            &&& forall|class: ConfigInputEvent| #[trigger]
                after.x_input_filter.held().classes().contains(class)
                    <==> before.x_input_filter.held().classes().contains(class)
                    || grab.xcore_ignore@.contains(class)
            &&& actions_model(actions@) == where_due(
                held.contains_key(ConfigGrabMode::Evdev) && held[ConfigGrabMode::Evdev].grab is Some,
                ActionModel::Abort(held[ConfigGrabMode::Evdev].grab->0),
            ) + where_due(
                is_mouse && !grab.prev_is_mouse && before.routing != ConfigQemuRouting::VirtioHost
                    && before.driver_relative != ConfigQemuDriver::Ps2,
                ActionModel::AddDevice {
                    device: InputDevice::Relative,
                    driver: before.driver_relative,
                },
            )
        }),
        after.routing == before.routing,
        after.driver_keyboard == before.driver_keyboard,
        after.driver_relative == before.driver_relative,
        after.driver_absolute == before.driver_absolute,
        after.exit_events == before.exit_events,
{
    let held = before.grabs.model();
    let is_mouse = exists|i: int|
        0 <= i < moves@.len() && ((#[trigger] moves@[i]).0 || moves@[i].1);
    assert(is_mouse == any_moves(moves@));
    assert(after.model() == before.model().with_evdev_grab(
        GrabModel { grab: Some(task), x_filter: grab.xcore_ignore@, is_mouse },
    ));
    assert(actions_model(actions@) =~= where_due(
        held.contains_key(ConfigGrabMode::Evdev) && held[ConfigGrabMode::Evdev].grab is Some,
        ActionModel::Abort(held[ConfigGrabMode::Evdev].grab->0),
    ) + where_due(
        is_mouse && !grab.prev_is_mouse && before.routing != ConfigQemuRouting::VirtioHost
            && before.driver_relative != ConfigQemuDriver::Ps2,
        ActionModel::AddDevice { device: InputDevice::Relative, driver: before.driver_relative },
    ));
}

/// Whether a grab is one of a mode.
pub open spec fn is_of_mode(grab: ConfigGrab, mode: ConfigGrabMode) -> bool {
    ||| grab is XCore && mode is XCore
    ||| grab is XInput && mode is XInput
    ||| grab is XDevice && mode is XDevice
    ||| grab is Evdev && mode is Evdev
}

/// Asking for a grab to be toggled gives it up where one of its mode is in force,
/// and makes it otherwise; asking for it, or for its end, makes it or gives it up.
pub proof fn toggling_gives_up_what_is_in_force(
    before: Process,
    grab: ConfigGrab,
    mode: ConfigGrabMode,
    asked: ConfigEvent,
    showing_guest: Option<bool>,
    plans: Vec<Plan>,
    after: Process,
)
    requires
        is_of_mode(grab, mode),
        asked == ConfigEvent::ToggleGrab(grab) || asked == ConfigEvent::Grab(grab) || asked
            == ConfigEvent::Ungrab(mode),
        exists|this: &mut Process| #[trigger]
            call_ensures(Process::process_user_event, (this, &asked, showing_guest), plans)
                && *this == before && *final(this) == after,
    ensures
        plans@.len() == 1,
        ({
            let ends = asked is Ungrab || asked is ToggleGrab && before.grabs.model().contains_key(
                mode,
            );
            &&& ends ==> {
                &&& after.model() == before.model().after_ungrab(mode)
                &&& plan_model(plans@[0]) == before.model().ungrab_plan(mode)
                &&& !(mode is XDevice) ==> !after.grabs.model().contains_key(mode)
            }
            &&& !ends ==> {
                &&& after.model() == before.model().after_grab(grab)
                &&& plan_model(plans@[0]) == before.model().grab_plan(grab)
            }
        }),
        after.driver_keyboard == before.driver_keyboard,
        after.exit_events == before.exit_events,
{
    assert(plans_model(plans@).len() == plans@.len());
    assert(plans_model(plans@)[0] == plan_model(plans@[0]));
}

/// The events that are about no grab lead to what they are named after, and change
/// nothing that grabs depend on.
pub proof fn other_events_do_what_they_say(
    before: Process,
    event: ConfigEvent,
    showing_guest: Option<bool>,
    plans: Vec<Plan>,
    after: Process,
)
    requires
        !(event is ToggleGrab || event is Grab || event is Ungrab || event is Exit),
        exists|this: &mut Process| #[trigger]
            call_ensures(Process::process_user_event, (this, &event, showing_guest), plans)
                && *this == before && *final(this) == after,
    ensures
        plans@.len() == 1,
        plans@[0] is Ok,
        plans@[0]->Ok_0@.len() == 1,
        ({
            let action = plans@[0]->Ok_0@[0];
            &&& event matches ConfigEvent::Exec(args) ==> (action matches Action::Exec(own)
                && own@ == args@)
            &&& event matches ConfigEvent::GuestExec(args) ==> (action matches Action::GuestExec(own)
                && own@ == args@)
            &&& event is GuestWait ==> action is GuestWait
            &&& event is ShowHost ==> action is ShowHost
            &&& event is ShowGuest ==> action is ShowGuest
            &&& event is ToggleShow ==> if showing_guest == Some(true) {
                action is ShowHost
            } else {
                action is ShowGuest
            }
            &&& event is UnstickGuest ==> action is UnstickGuest
            &&& event is UnstickHost ==> action is XUnstickHost
            &&& event is Shutdown ==> action == Action::GuestShutdown(ShutdownMode::Powerdown)
            &&& event is Reboot ==> action == Action::GuestShutdown(ShutdownMode::Reboot)
        }),
        after.model() == before.model(),
        after.driver_keyboard == before.driver_keyboard,
        after.exit_events == before.exit_events,
{
    assert(plans_model(plans@).len() == plans@.len());
    assert(plans_model(plans@)[0] == plan_model(plans@[0]));
    let plan = plans@[0];
    assert(plan_model(plan) == before.model().event_plan(event, showing_guest));
    let actions = plan->Ok_0@;
    assert(actions_model(actions).len() == actions.len());
    assert(actions_model(actions)[0] == actions[0].model());
    models_tell_actions_apart(actions[0]);
}

/// The end of the program runs each event that is configured for it, in order and
/// on the state that the ones before it have left, but for those that would end
/// the program themselves; the window closes last.
pub proof fn exits_run_every_event(
    before: Process,
    showing_guest: Option<bool>,
    plans: Vec<Plan>,
    after: Process,
)
    requires
        exists|this: &mut Process| #[trigger]
            call_ensures(
                Process::process_user_event,
                (this, &ConfigEvent::Exit, showing_guest),
                plans,
            ) && *this == before && *final(this) == after,
    ensures
        ({
            let events = before.exit_events@.filter(|e: ConfigEvent| !(e is Exit));
            &&& plans@.len() == events.len() + 1
            &&& plans@.last() is Ok
            &&& plans@.last()->Ok_0@ == seq![Action::XQuit]
            &&& forall|i: int|
                0 <= i < events.len() ==> plan_model(#[trigger] plans@[i]) == after_each(
                    before.model(),
                    events.take(i),
                ).event_plan(events[i], showing_guest)
            &&& after.model() == after_each(before.model(), events)
        }),
        after.exit_events == before.exit_events,
        after.driver_keyboard == before.driver_keyboard,
{
    let all = before.exit_events@;
    let events = all.filter(|e: ConfigEvent| !(e is Exit));
    lemma_exit_plans(before.model(), all, showing_guest);
    let models = plans_model(plans@);
    assert(models.len() == plans@.len());
    assert forall|i: int| 0 <= i < events.len() implies plan_model(#[trigger] plans@[i])
        == after_each(before.model(), events.take(i)).event_plan(events[i], showing_guest) by {
        assert(models[i] == plan_model(plans@[i]));
    }
    assert(models.last() == plan_model(plans@.last()));
    let quit = plans@.last()->Ok_0@;
    assert(actions_model(quit).len() == quit.len());
    assert(actions_model(quit)[0] == quit[0].model());
    models_tell_actions_apart(quit[0]);
    assert(quit =~= seq![Action::XQuit]);
}

/// The state after some events, one after another.
pub open spec fn after_each(model: ProcessModel, events: Seq<ConfigEvent>) -> ProcessModel
    decreases events.len(),
{
    if events.len() == 0 {
        model
    } else {
        after_each(model, events.drop_last()).after_event(events.last())
    }
}

proof fn lemma_exit_plans(model: ProcessModel, all: Seq<ConfigEvent>, showing_guest: Option<bool>)
    ensures
        ({
            let events = all.filter(|e: ConfigEvent| !(e is Exit));
            &&& model.exit_plans(all, showing_guest).len() == events.len()
            &&& model.after_exit_events(all) == after_each(model, events)
            &&& forall|i: int|
                0 <= i < events.len() ==> #[trigger] model.exit_plans(all, showing_guest)[i]
                    == after_each(model, events.take(i)).event_plan(events[i], showing_guest)
        }),
    decreases all.len(),
{
    let stays = |e: ConfigEvent| !(e is Exit);
    reveal(Seq::filter);
    if all.len() > 0 {
        let fewer = all.drop_last();
        lemma_exit_plans(model, fewer, showing_guest);
        let shorter = fewer.filter(stays);
        let events = all.filter(stays);
        if !(all.last() is Exit) {
            assert(events == shorter.push(all.last()));
            assert(events.drop_last() =~= shorter);
            assert forall|i: int| 0 <= i < events.len() implies #[trigger] model.exit_plans(
                all,
                showing_guest,
            )[i] == after_each(model, events.take(i)).event_plan(events[i], showing_guest) by {
                if i < shorter.len() {
                    assert(events.take(i) =~= shorter.take(i));
                    assert(model.exit_plans(fewer, showing_guest)[i] == after_each(
                        model,
                        shorter.take(i),
                    ).event_plan(shorter[i], showing_guest));
                } else {
                    assert(events.take(i) =~= shorter);
                }
            }
        } else {
            assert(events == shorter);
        }
    }
}

/// A mouse is in use where one of the grabs in force is one of a mouse.
pub proof fn mice_are_those_of_grabs(process: Process, is_mouse: bool)
    requires
        call_ensures(Process::is_mouse, (&process,), is_mouse),
    ensures
        is_mouse <==> exists|mode: ConfigGrabMode| #[trigger]
            process.grabs.model().contains_key(mode) && process.grabs.model()[mode].is_mouse,
{
}

/// The guest starts with a keyboard and a tablet, each by its own driver, but for
/// those that the machine has anyway; none are added where its devices are those
/// of the host.
pub proof fn guests_start_with_a_tablet(process: Process, actions: Vec<Action>)
    requires
        call_ensures(Process::devices_init, (&process,), actions),
    ensures
        actions_model(actions@) == where_due(
            process.routing != ConfigQemuRouting::VirtioHost && process.driver_keyboard
                != ConfigQemuDriver::Ps2,
            ActionModel::AddDevice {
                device: InputDevice::Keyboard,
                driver: process.driver_keyboard,
            },
        ) + where_due(
            process.routing != ConfigQemuRouting::VirtioHost && process.driver_absolute
                != ConfigQemuDriver::Ps2,
            ActionModel::AddDevice {
                device: InputDevice::Absolute,
                driver: process.driver_absolute,
            },
        ),
{
}

/// Giving the guest a mouse or a tablet adds it by its own driver, unless the
/// machine has it anyway or the guest's devices are those of the host.
pub proof fn pointers_are_added_by_their_driver(
    process: Process,
    is_mouse: bool,
    action: Option<Action>,
)
    requires
        call_ensures(Process::set_is_mouse, (&process, is_mouse), action),
    ensures
        ({
            let driver = if is_mouse {
                process.driver_relative
            } else {
                process.driver_absolute
            };
            let device = if is_mouse {
                InputDevice::Relative
            } else {
                InputDevice::Absolute
            };
            &&& action is Some <==> process.routing != ConfigQemuRouting::VirtioHost && driver
                != ConfigQemuDriver::Ps2
            &&& action matches Some(a) ==> a == (Action::AddDevice { device, driver })
        }),
{
    if let Some(a) = action {
        models_tell_actions_apart(a);
        assert(seq![a.model()][0] == process.model().pointer_additions(is_mouse)[0]);
    }
}

/// The command that adds a device names the driver of the device, and an id that
/// the mouse and the tablet share and the keyboard does not, so that of a mouse
/// and a tablet only one is there at a time. A PS/2 device is not added.
pub proof fn devices_are_added_by_name(
    device: InputDevice,
    driver: ConfigQemuDriver,
    command: Option<DeviceAdd>,
)
    requires
        call_ensures(Process::add_device_cmd, (device, driver), command),
    ensures
        command is Some <==> driver is Usb || driver is Virtio,
        command matches Some(c) ==> {
            &&& c.bus is None && c.arguments@.len() == 0
            &&& c.driver@ == if driver is Usb {
                if device is Keyboard {
                    "usb-kbd"@
                } else if device is Relative {
                    "usb-mouse"@
                } else {
                    "usb-tablet"@
                }
            } else {
                if device is Keyboard {
                    "virtio-keyboard-pci"@
                } else if device is Relative {
                    "virtio-mouse-pci"@
                } else {
                    "virtio-tablet-pci"@
                }
            }
            &&& c.id matches Some(id) && id@ == if device is Keyboard {
                "screenstub-dev-kbd"@
            } else {
                "screenstub-dev-mouse"@
            }
        },
{
}

/// Only actions that concern the window stand for a request to it. A grab takes the
/// keyboard and the pointer of all devices, with motion where asked for, and does
/// not confine the pointer.
pub proof fn window_actions_are_requests(action: Action, request: Option<XRequest>)
    requires
        call_ensures(Action::xreq, (&action,), request),
    ensures
        request is Some <==> action is XGrab || action is XUngrab || action is XUnstickHost
            || action is XQuit,
        action matches Action::XGrab { motion } ==> {
            &&& request matches Some(XRequest::Grab { xcore, confine, motion: own, devices })
            &&& xcore && !confine && own == motion && devices@.len() == 0
        },
        action is XUngrab ==> request == Some(XRequest::Ungrab),
        action is XUnstickHost ==> request == Some(XRequest::UnstickHost),
        action is XQuit ==> request == Some(XRequest::Quit),
{
}

/// A process starts with no grab in force and nothing held back, on the drivers, the
/// routing and the events that are configured.
pub proof fn processes_start_without_grabs(
    routing: ConfigQemuRouting,
    keyboard: ConfigQemuDriver,
    relative: ConfigQemuDriver,
    absolute: ConfigQemuDriver,
    exit_events: Vec<ConfigEvent>,
    process: Process,
    mode: ConfigGrabMode,
    class: ConfigInputEvent,
    filter: InputEventFilter,
)
    requires
        call_ensures(Process::new, (routing, keyboard, relative, absolute, exit_events), process),
        call_ensures(Process::x_filter, (&process,), filter),
    ensures
        process.routing == routing,
        process.driver_keyboard == keyboard,
        process.driver_relative == relative,
        process.driver_absolute == absolute,
        process.exit_events == exit_events,
        !process.grabs.model().contains_key(mode),
        !filter.held().classes().contains(class),
        filter == process.x_input_filter,
{
}

/// Grabs that there are none of are told by their mode.
pub proof fn missing_grabs_are_told_by_mode(
    error: ProcessError,
    message: String,
    mode: ConfigGrabMode,
    name: &'static str,
)
    requires
        call_ensures(ProcessError::message, (&error,), message),
        call_ensures(ConfigGrabMode::name, (&mode,), name),
    ensures
        mode is Evdev ==> name@ == "Evdev"@,
        mode is XDevice ==> name@ == "XDevice"@,
        mode is XCore ==> name@ == "XCore"@,
        mode is XInput ==> name@ == "XInput"@,
        error == ProcessError::GrabUnimplemented(mode) ==> message@ == "grab "@ + name@
            + " unimplemented"@,
        error == ProcessError::UngrabUnimplemented(mode) ==> message@ == "ungrab "@ + name@
            + " unimplemented"@,
{
}

} // verus!
